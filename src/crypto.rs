//! The calls into the hashing, encoding and token crates, each behind a
//! contract, and the names given to the results that take pages to state.

use hmac::{Hmac, Mac};
use jwt::{SignWithKey, VerifyWithKey};
use sha2::Sha256;
use std::collections::BTreeMap;
use uuid::Uuid;
use vstd::prelude::*;

use crate::strmap::{keys_unique, map_of};

verus! {

/// A claim set: claim names to text values.
pub type ClaimMap = Map<Seq<char>, Seq<char>>;

/// The hyphenated text of the name-based (version 5, SHA-1) UUID of a name's
/// UTF-8 bytes under the DNS namespace.
pub uninterp spec fn uuid_v5_of(name: Seq<char>) -> Seq<char>;

/// HMAC-SHA-256 of a message under the UTF-8 bytes of a key.
pub uninterp spec fn hmac_sha256_of(key: Seq<char>, msg: Seq<u8>) -> Seq<u8>;

/// The compact HS256 token for a claim set under a secret, when signing
/// succeeds.
pub uninterp spec fn signed_token_of(secret: Seq<char>, claims: ClaimMap) -> Option<Seq<char>>;

/// The claim set that a compact HS256 token carries, when its signature checks
/// out under the secret and its claims decode as text values.
pub uninterp spec fn decoded_claims_of(token: Seq<char>, secret: Seq<char>) -> Option<ClaimMap>;

/// ASCII code of a hex digit, lower case.
pub open spec fn hex_digit(n: u8) -> u8 {
    if n < 10 {
        (48 + n) as u8
    } else {
        (87 + n) as u8
    }
}

/// Lower-case hex text of bytes, as ASCII codes: two digits per byte, high
/// nibble first.
pub open spec fn hex_of(b: Seq<u8>) -> Seq<u8>
    decreases b.len(),
{
    if b.len() == 0 {
        Seq::empty()
    } else {
        hex_of(b.drop_last()) + seq![hex_digit(b.last() / 16), hex_digit(b.last() % 16)]
    }
}

/// Relies on `Uuid::new_v5` with `Uuid::NAMESPACE_DNS`, and on the `Display`
/// of `Uuid`, which writes the 36-character hyphenated form.
#[verifier::external_body]
pub(crate) fn uuid_v5(name: &str) -> (r: String)
    ensures
        r@ == uuid_v5_of(name@),
        r@.len() == 36,
{
    Uuid::new_v5(&Uuid::NAMESPACE_DNS, name.as_bytes()).to_string()
}

/// Relies on `Hmac::<Sha256>::new_from_slice`, `Mac::update` and
/// `Mac::finalize`. `new_from_slice` accepts a key of any length for HMAC,
/// so its error arm is never taken; the tag is the 32-byte SHA-256 output.
#[verifier::external_body]
pub(crate) fn hmac_sha256(key: &str, msg: &[u8]) -> (r: Vec<u8>)
    ensures
        r@ == hmac_sha256_of(key@, msg@),
        r@.len() == 32,
{
    match <Hmac<Sha256> as Mac>::new_from_slice(key.as_bytes()) {
        Ok(mut mac) => {
            mac.update(msg);
            mac.finalize().into_bytes().to_vec()
        },
        Err(_) => Vec::new(),
    }
}

/// Relies on `hex::encode`: lower-case digits, two per byte, in order.
#[verifier::external_body]
pub(crate) fn hex_lower(b: &[u8]) -> (r: Vec<u8>)
    ensures
        r@ == hex_of(b@),
{
    hex::encode(b).into_bytes()
}

/// Relies on `SignWithKey::sign_with_key` on a `BTreeMap<String, String>`
/// with an `Hmac<Sha256>` key made from the secret's bytes. A later entry
/// overrides an earlier one with the same key, as in `map_of`.
#[verifier::external_body]
pub(crate) fn sign_claims(secret: &str, entries: &Vec<(String, String)>) -> (r: Option<String>)
    ensures
        r matches Some(t) ==> signed_token_of(secret@, map_of(entries@)) == Some(t@),
        r is None ==> signed_token_of(secret@, map_of(entries@)) is None,
{
    let key = <Hmac<Sha256> as Mac>::new_from_slice(secret.as_bytes()).ok()?;
    let claims: BTreeMap<String, String> = entries.iter().cloned().collect();
    claims.sign_with_key(&key).ok()
}

/// Relies on `VerifyWithKey::verify_with_key` for `&str` into a
/// `BTreeMap<String, String>`, with an `Hmac<Sha256>` key made from the
/// secret's bytes: it checks the header's algorithm and the signature, then
/// decodes the claims. A token that `sign_with_key` made under the same
/// secret verifies and yields the claims it was made from. The entries come
/// out of the `BTreeMap`, so each key once.
#[verifier::external_body]
pub(crate) fn verify_claims(token: &str, secret: &str) -> (r: Option<Vec<(String, String)>>)
    ensures
        r matches Some(v) ==> keys_unique(v@) && decoded_claims_of(token@, secret@) == Some(map_of(v@)),
        r is None ==> decoded_claims_of(token@, secret@) is None,
        r matches Some(v) ==> forall|m: ClaimMap| #[trigger]
            signed_token_of(secret@, m) == Some(token@) ==> map_of(v@) == m,
        r is None ==> forall|m: ClaimMap| #[trigger] signed_token_of(secret@, m) != Some(token@),
{
    let key = <Hmac<Sha256> as Mac>::new_from_slice(secret.as_bytes()).ok()?;
    let claims: BTreeMap<String, String> = token.verify_with_key(&key).ok()?;
    Some(claims.into_iter().collect())
}

} // verus!
