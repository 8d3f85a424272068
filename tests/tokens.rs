use stream_auth::{
    check_expiry, server_claims_at, user_claims_at, AuthError, StrMap, StreamChatClient,
    USER_TOKEN_LIFETIME,
};

const T0: u64 = 1_700_000_000;

fn client(secret: &str) -> StreamChatClient {
    StreamChatClient::initialize("key", secret).unwrap()
}

fn claim(m: &StrMap, k: &str) -> Option<String> {
    m.get(k).cloned()
}

#[test]
fn initialize_rejects_empty_credentials() {
    assert_eq!(StreamChatClient::initialize("", "s").err(), Some(AuthError::EmptyCredentials));
    assert_eq!(StreamChatClient::initialize("k", "").err(), Some(AuthError::EmptyCredentials));
    let c = StreamChatClient::initialize("k", "s").unwrap();
    assert_eq!(c.api_key(), "k");
    assert_eq!(c.base_url(), "https://chat.stream-io-api.com");
    assert_eq!(c.auth_token(), "");
}

#[test]
fn set_auth_token_replaces_token() {
    let mut c = client("topsecret");
    c.set_auth_token("abc".to_string());
    assert_eq!(c.auth_token(), "abc");
}

#[test]
fn user_token_rejects_empty_identifier() {
    assert_eq!(client("topsecret").create_user_token("", T0), Err(AuthError::InvalidInput));
}

#[test]
fn user_token_round_trip() {
    let c = client("topsecret");
    let id = c.generate_user_id("alice");
    let token = c.create_user_token(&id, T0).unwrap();
    assert_eq!(token.split('.').count(), 3);
    let claims = c.verify_token(&token, T0).unwrap();
    assert_eq!(claims.len(), 3);
    assert_eq!(claim(&claims, "user_id"), Some(id));
    assert_eq!(claim(&claims, "iat"), Some(T0.to_string()));
    assert_eq!(claim(&claims, "exp"), Some((T0 + 1_209_600).to_string()));
}

#[test]
fn user_token_expires_after_lifetime() {
    let c = client("topsecret");
    let token = c.create_user_token("u1", T0).unwrap();
    // expiry one second in the past
    assert_eq!(
        c.verify_token(&token, T0 + USER_TOKEN_LIFETIME + 1).err(),
        Some(AuthError::Expired)
    );
    // expiry exactly now, and one day ahead
    assert!(c.verify_token(&token, T0 + USER_TOKEN_LIFETIME).is_ok());
    assert!(c.verify_token(&token, T0 + USER_TOKEN_LIFETIME - 86_400).is_ok());
}

#[test]
fn expiry_boundary_on_claims() {
    let now: u64 = 2_000_000;
    let mut past = StrMap::new();
    past.insert("exp".to_string(), (now - 1).to_string());
    assert_eq!(check_expiry(past, now).err(), Some(AuthError::Expired));
    let mut ahead = StrMap::new();
    ahead.insert("exp".to_string(), (now + 86_400).to_string());
    assert!(check_expiry(ahead, now).is_ok());
    let mut garbled = StrMap::new();
    garbled.insert("exp".to_string(), "soon".to_string());
    assert_eq!(check_expiry(garbled, now).err(), Some(AuthError::Expired));
    let mut huge = StrMap::new();
    huge.insert("exp".to_string(), "99999999999999999999999".to_string());
    assert!(check_expiry(huge, now).is_ok());
    assert!(check_expiry(StrMap::new(), now).is_ok());
}

#[test]
fn tampered_signature_is_rejected() {
    let c = client("topsecret");
    let token = c.create_user_token("u1", T0).unwrap();
    let sig_start = token.rfind('.').unwrap() + 1;
    for i in sig_start..token.len() {
        let mut bytes = token.clone().into_bytes();
        bytes[i] = if bytes[i] == b'A' { b'B' } else { b'A' };
        let tampered = String::from_utf8(bytes).unwrap();
        assert_eq!(c.verify_token(&tampered, T0).err(), Some(AuthError::SignatureInvalid));
    }
}

#[test]
fn wrong_secret_is_rejected() {
    let token = client("k1").create_user_token("u1", T0).unwrap();
    assert_eq!(client("k2").verify_token(&token, T0).err(), Some(AuthError::SignatureInvalid));
    assert_eq!(client("k1").verify_token("not a token", T0).err(), Some(AuthError::SignatureInvalid));
}

#[test]
fn server_token_never_expires() {
    let c = client("topsecret");
    let server = c.create_server_token(T0).unwrap();
    let user = c.create_user_token("u1", T0).unwrap();
    let later = T0 + 100 * USER_TOKEN_LIFETIME;
    let claims = c.verify_token(&server, later).unwrap();
    assert_eq!(claim(&claims, "server"), Some("true".to_string()));
    assert_eq!(claim(&claims, "iat"), Some(T0.to_string()));
    assert_eq!(claim(&claims, "exp"), None);
    assert_eq!(c.verify_token(&user, later).err(), Some(AuthError::Expired));
}

#[test]
fn claim_sets_hold_decimal_text() {
    let u = user_claims_at("bob", 5);
    assert_eq!(claim(&u, "user_id"), Some("bob".to_string()));
    assert_eq!(claim(&u, "iat"), Some("5".to_string()));
    assert_eq!(claim(&u, "exp"), Some("1209605".to_string()));
    let s = server_claims_at(0);
    assert_eq!(s.len(), 2);
    assert_eq!(claim(&s, "server"), Some("true".to_string()));
    assert_eq!(claim(&s, "iat"), Some("0".to_string()));
}

#[test]
fn example_scenario_alice() {
    let c = client("topsecret");
    let id = c.generate_user_id("alice");
    assert_eq!(id, c.generate_user_id("alice"));
    let token = c.create_user_token(&id, T0).unwrap();
    let claims = c.verify_token(&token, T0 + 1).unwrap();
    assert_eq!(claim(&claims, "user_id"), Some(id));
    assert_eq!(claim(&claims, "exp"), Some((T0 + 1_209_600).to_string()));
}
