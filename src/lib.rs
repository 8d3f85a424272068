//! Token issuance and verification for a chat-service backend, with the
//! deterministic username-to-identifier derivation it relies on, and the
//! decisions of the login sequence around them.

pub mod auth;
pub mod crypto;
pub mod decimal;
pub mod identity;
pub mod stream;
pub mod strmap;

pub use auth::{
    check_expiry, server_claims_at, signature_matches, user_claims_at, AuthError,
    StreamChatClient, USER_TOKEN_LIFETIME,
};
pub use decimal::{decimal_string, parse_decimal};
pub use identity::IdentityTable;
pub use stream::{
    begin_login, channel_to_create, finish_login, parse_channel_data, AppState, AuthRequest,
    AuthResponse, ChannelData, ChannelInfo, ClientConfig, Config, ConfigError, JsonValue,
    LoginError, LoginResponse, LoginSession, Response,
};
pub use strmap::StrMap;
