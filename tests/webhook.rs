use hmac::{Hmac, Mac};
use sha2::Sha256;
use stream_auth::{signature_matches, StreamChatClient};

fn sign(body: &[u8], key: &str) -> String {
    let mut mac = Hmac::<Sha256>::new_from_slice(key.as_bytes()).unwrap();
    mac.update(body);
    hex::encode(mac.finalize().into_bytes())
}

#[test]
fn webhook_known_vector() {
    let sig = b"5bdcc146bf60754e6a042426089575c75a003f089d2739839dec58b964ec3843";
    assert!(StreamChatClient::verify_webhook(b"what do ya want for nothing?", sig, "Jefe"));
}

#[test]
fn webhook_accepts_own_signature() {
    let body = b"{\"type\":\"message.new\"}";
    let sig = sign(body, "topsecret");
    assert!(StreamChatClient::verify_webhook(body, sig.as_bytes(), "topsecret"));
}

#[test]
fn webhook_rejects_other_secret() {
    let body = b"payload";
    let sig = sign(body, "topsecret");
    assert!(!StreamChatClient::verify_webhook(body, sig.as_bytes(), "other"));
    assert!(!StreamChatClient::verify_webhook(b"payloaD", sig.as_bytes(), "topsecret"));
}

#[test]
fn webhook_rejects_non_utf8_and_upper_case() {
    let body = b"payload";
    assert!(!StreamChatClient::verify_webhook(body, &[0xff, 0xfe, 0x80], "topsecret"));
    assert!(!StreamChatClient::verify_webhook(body, b"", "topsecret"));
    let upper = sign(body, "topsecret").to_uppercase();
    assert!(!StreamChatClient::verify_webhook(body, upper.as_bytes(), "topsecret"));
}

#[test]
fn signature_comparison() {
    assert!(signature_matches(b"abc", b"abc"));
    assert!(!signature_matches(b"abc", b"abd"));
    assert!(!signature_matches(b"abc", b"ab"));
    assert!(signature_matches(b"", b""));
}
