//! The token authority: issues and verifies signed claim sets, and checks
//! webhook signatures, all under the client's shared API secret.

use vstd::prelude::*;
use vstd::string::*;

use crate::crypto::{
    decoded_claims_of, hex_digit, hex_lower, hex_of, hmac_sha256, hmac_sha256_of, sign_claims,
    signed_token_of, uuid_v5, uuid_v5_of, verify_claims, ClaimMap,
};
use crate::decimal::{
    decimal_string, decimal_text, decimal_value, is_decimal, lemma_decimal_round_trip, parse_decimal,
};
use crate::strmap::StrMap;

verus! {

/// How long a user token stays valid: 14 days, in seconds.
pub const USER_TOKEN_LIFETIME: u64 = 1209600;

/// Why an operation of the token authority failed.
#[derive(Debug, Clone, Copy, PartialEq, Eq, Structural)]
pub enum AuthError {
    /// The API key or the API secret is empty.
    EmptyCredentials,
    /// An empty identifier was handed to token issuance.
    InvalidInput,
    /// The signing step failed.
    SigningFailure,
    /// The token's signature does not check out under the secret.
    SignatureInvalid,
    /// The signature checks out but the expiry claim lies in the past.
    Expired,
}

/// Claims of a user token issued at `now`.
pub open spec fn user_claims(user_id: Seq<char>, now: nat) -> ClaimMap {
    Map::empty().insert("user_id"@, user_id).insert("iat"@, decimal_text(now)).insert(
        "exp"@,
        decimal_text((now + USER_TOKEN_LIFETIME) as nat),
    )
}

/// Claims of a server token issued at `now`: no identifier, no expiry.
pub open spec fn server_claims(now: nat) -> ClaimMap {
    Map::empty().insert("server"@, "true"@).insert("iat"@, decimal_text(now))
}

/// A claim set is unexpired at `now` when it has no expiry claim, or one that
/// is a decimal number not below `now`.
pub open spec fn unexpired(claims: ClaimMap, now: nat) -> bool {
    claims.contains_key("exp"@) ==> (is_decimal(claims["exp"@]) && decimal_value(claims["exp"@])
        >= now)
}

/// What verification gives for a claim set whose signature checked out.
pub open spec fn claims_outcome(claims: ClaimMap, now: nat) -> Result<ClaimMap, AuthError> {
    if unexpired(claims, now) {
        Ok(claims)
    } else {
        Err(AuthError::Expired)
    }
}

/// What verification gives, from what the token decoded to.
pub open spec fn verify_outcome(decoded: Option<ClaimMap>, now: nat) -> Result<ClaimMap, AuthError> {
    match decoded {
        Some(m) => claims_outcome(m, now),
        None => Err(AuthError::SignatureInvalid),
    }
}

/// A verification result, with the claim set seen through its view.
pub open spec fn claims_result(r: Result<StrMap, AuthError>) -> Result<ClaimMap, AuthError> {
    match r {
        Ok(c) => Ok(c@),
        Err(e) => Err(e),
    }
}

/// The webhook signature that a body carries under a secret: the lower-case
/// hex text of its HMAC-SHA-256 tag.
pub open spec fn webhook_signature(body: Seq<u8>, secret: Seq<char>) -> Seq<u8> {
    hex_of(hmac_sha256_of(secret, body))
}

/// The claim set of a user token issued at `now`.
pub fn user_claims_at(user_id: &str, now: u64) -> (r: StrMap)
    requires
        now <= u64::MAX - USER_TOKEN_LIFETIME,
    ensures
        r.wf(),
        r@ == user_claims(user_id@, now as nat),
{
    let mut claims = StrMap::new();
    claims.insert(String::from_str("user_id"), String::from_str(user_id));
    claims.insert(String::from_str("iat"), decimal_string(now));
    claims.insert(String::from_str("exp"), decimal_string(now + USER_TOKEN_LIFETIME));
    claims
}

/// The claim set of a server token issued at `now`.
pub fn server_claims_at(now: u64) -> (r: StrMap)
    ensures
        r.wf(),
        r@ == server_claims(now as nat),
{
    let mut claims = StrMap::new();
    claims.insert(String::from_str("server"), String::from_str("true"));
    claims.insert(String::from_str("iat"), decimal_string(now));
    claims
}

/// Accepts a claim set whose signature has checked out unless its expiry
/// claim says it is expired at `now`.
pub fn check_expiry(claims: StrMap, now: u64) -> (r: Result<StrMap, AuthError>)
    requires
        claims.wf(),
    ensures
        claims_result(r) == claims_outcome(claims@, now as nat),
        r matches Ok(c) ==> c.wf(),
{
    let fresh = match claims.get("exp") {
        None => true,
        Some(exp) => match parse_decimal(exp.as_str()) {
            Some(v) => v >= now,
            None => expiry_beyond_range(exp.as_str()),
        },
    };
    if fresh {
        Ok(claims)
    } else {
        Err(AuthError::Expired)
    }
}

/// Whether text that `parse_decimal` refused is still a run of digits, which
/// then denotes a number above `u64::MAX`.
fn expiry_beyond_range(s: &str) -> (r: bool)
    requires
        !(is_decimal(s@) && decimal_value(s@) <= u64::MAX),
    ensures
        r == is_decimal(s@),
{
    let n = s.unicode_len();
    if n == 0 {
        return false;
    }
    let mut i: usize = 0;
    while i < n
        invariant
            n == s@.len(),
            i <= n,
            forall|j: int| 0 <= j < i ==> crate::decimal::is_digit(#[trigger] s@[j]),
        decreases n - i,
    {
        let c = s.get_char(i);
        if !('0' <= c && c <= '9') {
            return false;
        }
        i = i + 1;
    }
    true
}

/// Compares two byte strings in time that depends on their lengths only.
pub fn signature_matches(expected: &[u8], provided: &[u8]) -> (r: bool)
    ensures
        r == (expected@ == provided@),
{
    if expected.len() != provided.len() {
        return false;
    }
    let mut diff: u8 = 0;
    let mut i: usize = 0;
    assert(expected@.subrange(0, 0) =~= provided@.subrange(0, 0));
    while i < expected.len()
        invariant
            expected@.len() == provided@.len(),
            i <= expected@.len(),
            (diff == 0) == (expected@.subrange(0, i as int) == provided@.subrange(0, i as int)),
        decreases expected@.len() - i,
    {
        let x = expected[i];
        let y = provided[i];
        let next = diff | (x ^ y);
        proof {
            assert((next == 0) == (diff == 0 && x == y)) by (bit_vector)
                requires
                    next == diff | (x ^ y),
            ;
            let a = expected@.subrange(0, i as int);
            let b = provided@.subrange(0, i as int);
            assert(expected@.subrange(0, i + 1) =~= a.push(x));
            assert(provided@.subrange(0, i + 1) =~= b.push(y));
            if a == b && x == y {
                assert(expected@.subrange(0, i + 1) =~= provided@.subrange(0, i + 1));
            } else if expected@.subrange(0, i + 1) == provided@.subrange(0, i + 1) {
                assert(a =~= expected@.subrange(0, i + 1).drop_last());
                assert(b =~= provided@.subrange(0, i + 1).drop_last());
                assert(expected@.subrange(0, i + 1)[i as int] == x);
                assert(provided@.subrange(0, i + 1)[i as int] == y);
            }
        }
        diff = next;
        i = i + 1;
    }
    assert(expected@.subrange(0, i as int) =~= expected@);
    assert(provided@.subrange(0, i as int) =~= provided@);
    diff == 0
}

/// A user token's claims are accepted at any time up to the end of its
/// lifetime, unchanged, and carry the identifier the token was issued for.
pub proof fn lemma_user_token_round_trip(user_id: Seq<char>, issued: nat, now: nat)
    requires
        now <= issued + USER_TOKEN_LIFETIME,
    ensures
        claims_outcome(user_claims(user_id, issued), now) == Ok::<ClaimMap, AuthError>(
            user_claims(user_id, issued),
        ),
        user_claims(user_id, issued)["user_id"@] == user_id,
{
    reveal_strlit("user_id");
    reveal_strlit("iat");
    reveal_strlit("exp");
    assert("user_id"@.len() != "iat"@.len() && "user_id"@.len() != "exp"@.len());
    lemma_decimal_round_trip((issued + USER_TOKEN_LIFETIME) as nat);
}

/// An expiry one second in the past is refused as expired; one a day ahead
/// is accepted.
pub proof fn lemma_expiry_boundary(claims: ClaimMap, now: nat)
    requires
        now >= 1,
    ensures
        claims_outcome(claims.insert("exp"@, decimal_text((now - 1) as nat)), now) == Err::<
            ClaimMap,
            AuthError,
        >(AuthError::Expired),
        claims_outcome(claims.insert("exp"@, decimal_text((now + 86400) as nat)), now) == Ok::<
            ClaimMap,
            AuthError,
        >(claims.insert("exp"@, decimal_text((now + 86400) as nat))),
{
    lemma_decimal_round_trip((now - 1) as nat);
    lemma_decimal_round_trip((now + 86400) as nat);
}

/// A server token's claims are accepted however late they are checked, while
/// those of a user token issued at the same instant are refused as expired
/// once its lifetime has passed.
pub proof fn lemma_server_token_asymmetry(user_id: Seq<char>, issued: nat, now: nat)
    requires
        now > issued + USER_TOKEN_LIFETIME,
    ensures
        claims_outcome(server_claims(issued), now) == Ok::<ClaimMap, AuthError>(
            server_claims(issued),
        ),
        claims_outcome(user_claims(user_id, issued), now) == Err::<ClaimMap, AuthError>(
            AuthError::Expired,
        ),
{
    reveal_strlit("server");
    reveal_strlit("iat");
    reveal_strlit("exp");
    lemma_decimal_round_trip((issued + USER_TOKEN_LIFETIME) as nat);
    assert("exp"@.len() != "server"@.len() && "exp"@[0] != "iat"@[0]);
    assert(!server_claims(issued).contains_key("exp"@));
}

proof fn lemma_hex_ascii(b: Seq<u8>)
    ensures
        forall|i: int| 0 <= i < hex_of(b).len() ==> #[trigger] hex_of(b)[i] < 128,
    decreases b.len(),
{
    if b.len() > 0 {
        lemma_hex_ascii(b.drop_last());
        let h = hex_of(b);
        let p = hex_of(b.drop_last());
        let tail = seq![hex_digit(b.last() / 16), hex_digit(b.last() % 16)];
        assert(h == p + tail);
        assert forall|i: int| 0 <= i < h.len() implies #[trigger] h[i] < 128 by {
            if i < p.len() {
                assert(h[i] == p[i]);
            } else {
                assert(h[i] == tail[i - p.len()]);
            }
        }
    }
}

/// A webhook signature holding any byte outside ASCII, as every byte string
/// that is not UTF-8 does, is never the signature of a body.
pub proof fn lemma_webhook_rejects_non_ascii(body: Seq<u8>, secret: Seq<char>, signature: Seq<u8>)
    requires
        exists|i: int| 0 <= i < signature.len() && #[trigger] signature[i] >= 128,
    ensures
        signature != webhook_signature(body, secret),
{
    lemma_hex_ascii(hmac_sha256_of(secret, body));
}

/// A client of the chat service: its credentials, where it sends requests,
/// and the bearer token it presents.
pub struct StreamChatClient {
    api_key: String,
    api_secret: String,
    base_url: String,
    auth_token: String,
}

impl StreamChatClient {
    pub closed spec fn spec_api_key(&self) -> Seq<char> {
        self.api_key@
    }

    pub closed spec fn spec_secret(&self) -> Seq<char> {
        self.api_secret@
    }

    pub closed spec fn spec_base_url(&self) -> Seq<char> {
        self.base_url@
    }

    pub closed spec fn spec_auth_token(&self) -> Seq<char> {
        self.auth_token@
    }

    /// A client for the given credentials, with no bearer token yet; refused
    /// when either credential is empty.
    pub fn initialize(api_key: &str, api_secret: &str) -> (r: Result<StreamChatClient, AuthError>)
        ensures
            (api_key@.len() == 0 || api_secret@.len() == 0) <==> r == Err::<
                StreamChatClient,
                AuthError,
            >(AuthError::EmptyCredentials),
            r is Ok <==> (api_key@.len() > 0 && api_secret@.len() > 0),
            r matches Ok(c) ==> c.spec_api_key() == api_key@ && c.spec_secret() == api_secret@
                && c.spec_base_url() == "https://chat.stream-io-api.com"@ && c.spec_auth_token().len()
                == 0,
    {
        if api_key.is_empty() || api_secret.is_empty() {
            return Err(AuthError::EmptyCredentials);
        }
        Ok(StreamChatClient {
            api_key: String::from_str(api_key),
            api_secret: String::from_str(api_secret),
            base_url: String::from_str("https://chat.stream-io-api.com"),
            auth_token: String::new(),
        })
    }

    pub fn api_key(&self) -> (r: &str)
        ensures
            r@ == self.spec_api_key(),
    {
        self.api_key.as_str()
    }

    pub fn base_url(&self) -> (r: &str)
        ensures
            r@ == self.spec_base_url(),
    {
        self.base_url.as_str()
    }

    pub fn auth_token(&self) -> (r: &str)
        ensures
            r@ == self.spec_auth_token(),
    {
        self.auth_token.as_str()
    }

    /// Sets the bearer token that requests present.
    pub fn set_auth_token(&mut self, token: String)
        ensures
            final(self).spec_auth_token() == token@,
            final(self).spec_api_key() == old(self).spec_api_key(),
            final(self).spec_secret() == old(self).spec_secret(),
            final(self).spec_base_url() == old(self).spec_base_url(),
    {
        self.auth_token = token;
    }

    /// A signed token for `user_id`, issued at `now` and valid for
    /// `USER_TOKEN_LIFETIME` seconds.
    pub fn create_user_token(&self, user_id: &str, now: u64) -> (r: Result<String, AuthError>)
        requires
            now <= u64::MAX - USER_TOKEN_LIFETIME,
        ensures
            user_id@.len() == 0 ==> r == Err::<String, AuthError>(AuthError::InvalidInput),
            user_id@.len() > 0 ==> match signed_token_of(
                self.spec_secret(),
                user_claims(user_id@, now as nat),
            ) {
                Some(t) => r matches Ok(s) && s@ == t,
                None => r == Err::<String, AuthError>(AuthError::SigningFailure),
            },
    {
        if user_id.is_empty() {
            return Err(AuthError::InvalidInput);
        }
        let claims = user_claims_at(user_id, now);
        match sign_claims(self.api_secret.as_str(), claims.entries()) {
            Some(t) => Ok(t),
            None => Err(AuthError::SigningFailure),
        }
    }

    /// A signed server token issued at `now`; it carries no expiry.
    pub fn create_server_token(&self, now: u64) -> (r: Result<String, AuthError>)
        ensures
            match signed_token_of(self.spec_secret(), server_claims(now as nat)) {
                Some(t) => r matches Ok(s) && s@ == t,
                None => r == Err::<String, AuthError>(AuthError::SigningFailure),
            },
    {
        let claims = server_claims_at(now);
        match sign_claims(self.api_secret.as_str(), claims.entries()) {
            Some(t) => Ok(t),
            None => Err(AuthError::SigningFailure),
        }
    }

    /// The claim set of `token` when its signature checks out under the
    /// client's secret and it is unexpired at `now`.
    pub fn verify_token(&self, token: &str, now: u64) -> (r: Result<StrMap, AuthError>)
        ensures
            claims_result(r) == verify_outcome(
                decoded_claims_of(token@, self.spec_secret()),
                now as nat,
            ),
            forall|m: ClaimMap| #[trigger]
                signed_token_of(self.spec_secret(), m) == Some(token@) ==> claims_result(r)
                    == claims_outcome(m, now as nat),
            r matches Ok(c) ==> c.wf(),
    {
        match verify_claims(token, self.api_secret.as_str()) {
            Some(entries) => check_expiry(StrMap::from_entries(entries), now),
            None => Err(AuthError::SignatureInvalid),
        }
    }

    /// The identifier derived from `username`.
    pub fn generate_user_id(&self, username: &str) -> (r: String)
        ensures
            r@ == uuid_v5_of(username@),
    {
        uuid_v5(username)
    }

    /// Whether `signature` is the webhook signature of `body` under
    /// `api_secret`. Bytes that are not UTF-8 never match: the expected text
    /// is ASCII.
    pub fn verify_webhook(body: &[u8], signature: &[u8], api_secret: &str) -> (r: bool)
        ensures
            r == (signature@ == webhook_signature(body@, api_secret@)),
    {
        let tag = hmac_sha256(api_secret, body);
        let expected = hex_lower(tag.as_slice());
        signature_matches(expected.as_slice(), signature)
    }
}

} // verus!
