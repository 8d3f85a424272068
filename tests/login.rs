use stream_auth::{
    begin_login, channel_to_create, finish_login, parse_channel_data, AppState, AuthError,
    AuthRequest, ChannelInfo, Config, ConfigError, IdentityTable, JsonValue, LoginError,
    StreamChatClient,
};

const T0: u64 = 1_700_000_000;

fn s(t: &str) -> JsonValue {
    JsonValue::Str(t.to_string())
}

fn obj(members: Vec<(&str, JsonValue)>) -> JsonValue {
    JsonValue::Object(members.into_iter().map(|(k, v)| (k.to_string(), v)).collect())
}

fn state(key: &str, secret: &str) -> AppState {
    AppState {
        users: IdentityTable::new(),
        config: Config { stream_api_key: key.to_string(), stream_api_secret: secret.to_string() },
    }
}

fn request(name: &str) -> AuthRequest {
    AuthRequest { username: name.to_string() }
}

#[test]
fn config_checks_values_in_order() {
    assert_eq!(Config::from_values(None, None).err(), Some(ConfigError::MissingKey));
    assert_eq!(
        Config::from_values(Some(String::new()), None).err(),
        Some(ConfigError::MissingSecret)
    );
    assert_eq!(
        Config::from_values(Some(String::new()), Some(String::new())).err(),
        Some(ConfigError::EmptyKey)
    );
    assert_eq!(
        Config::from_values(Some("k".to_string()), Some(String::new())).err(),
        Some(ConfigError::EmptySecret)
    );
    let c = Config::from_values(Some("k".to_string()), Some("s".to_string())).unwrap();
    assert_eq!(c.stream_api_key, "k");
    assert_eq!(c.stream_api_secret, "s");
}

#[test]
fn parse_channels_keeps_complete_entries() {
    let answer = obj(vec![(
        "channels",
        JsonValue::Array(vec![
            obj(vec![
                ("cid", s("team:general")),
                ("type", s("team")),
                ("name", s("General")),
                (
                    "members",
                    JsonValue::Array(vec![
                        obj(vec![("user_id", s("u1"))]),
                        obj(vec![("role", s("admin"))]),
                        obj(vec![("user_id", s("u2"))]),
                    ]),
                ),
            ]),
            obj(vec![("cid", s("team:x")), ("type", s("team"))]),
            obj(vec![
                ("cid", s("team:y")),
                ("type", s("team")),
                ("name", s("Y")),
                ("members", JsonValue::Number("3".to_string())),
            ]),
            JsonValue::Null,
        ]),
    )]);
    let channels = parse_channel_data(&answer);
    assert_eq!(channels.len(), 2);
    assert_eq!(channels[0].id, "team:general");
    assert_eq!(channels[0].type_, "team");
    assert_eq!(channels[0].name, "General");
    assert_eq!(channels[0].members, vec!["u1".to_string(), "u2".to_string()]);
    assert_eq!(channels[1].id, "team:y");
    assert!(channels[1].members.is_empty());
}

#[test]
fn parse_channels_without_list() {
    assert!(parse_channel_data(&obj(vec![("duration", s("1ms"))])).is_empty());
    assert!(parse_channel_data(&obj(vec![("channels", s("none"))])).is_empty());
    assert!(parse_channel_data(&JsonValue::Bool(true)).is_empty());
}

#[test]
fn login_rejects_blank_username() {
    let mut st = state("key", "secret");
    assert_eq!(begin_login(&mut st, &request("   "), T0).err(), Some(LoginError::EmptyUsername));
    assert_eq!(st.users.len(), 0);
}

#[test]
fn login_rejects_empty_credentials() {
    let mut st = state("key", "");
    assert_eq!(
        begin_login(&mut st, &request("alice"), T0).err(),
        Some(LoginError::ClientInit(AuthError::EmptyCredentials))
    );
    assert_eq!(st.users.len(), 0);
}

#[test]
fn login_issues_tokens_for_trimmed_name() {
    let mut st = state("key", "secret");
    let session = begin_login(&mut st, &request("  alice \n"), T0).unwrap();
    let verifier = StreamChatClient::initialize("key", "secret").unwrap();
    assert_eq!(session.user_id, verifier.generate_user_id("alice"));
    assert_eq!(st.users.get("alice"), Some(&session.user_id));
    let claims = verifier.verify_token(&session.user_token, T0).unwrap();
    assert_eq!(claims.get("user_id"), Some(&session.user_id));
    let server = verifier.verify_token(session.client.auth_token(), T0).unwrap();
    assert_eq!(server.get("server").map(|v| v.as_str()), Some("true"));
    let again = begin_login(&mut st, &request("alice"), T0 + 5).unwrap();
    assert_eq!(again.user_id, session.user_id);
    assert_eq!(st.users.len(), 1);
}

#[test]
fn default_channel_only_when_none_listed() {
    let listed = vec![ChannelInfo {
        id: "team:a".to_string(),
        name: "A".to_string(),
        type_: "team".to_string(),
        members: vec![],
    }];
    assert!(channel_to_create("u1", &listed).is_none());
    let d = channel_to_create("u1", &Vec::new()).unwrap();
    assert_eq!(d.id, "general");
    assert_eq!(d.name, "general");
    assert_eq!(d.type_, "team");
    assert_eq!(d.members, vec!["u1".to_string()]);
}

#[test]
fn finish_login_appends_created_channel() {
    let mut st = state("key", "secret");
    let session = begin_login(&mut st, &request("bob"), T0).unwrap();
    let user_id = session.user_id.clone();
    let token = session.user_token.clone();
    let created = channel_to_create(&user_id, &Vec::new());
    let response = finish_login(session, Vec::new(), created);
    assert_eq!(response.user_id, user_id);
    assert_eq!(response.client_config.api_key, "key");
    assert_eq!(response.client_config.user_token, token);
    assert_eq!(response.client_config.channels.len(), 1);
    assert_eq!(response.client_config.channels[0].id, "general");
    assert_eq!(response.client_config.channels[0].members, vec![user_id]);
}

#[test]
fn finish_login_keeps_listed_channels() {
    let mut st = state("key", "secret");
    let session = begin_login(&mut st, &request("carol"), T0).unwrap();
    let listed = vec![ChannelInfo {
        id: "team:a".to_string(),
        name: "A".to_string(),
        type_: "team".to_string(),
        members: vec!["x".to_string()],
    }];
    let response = finish_login(session, listed, None);
    assert_eq!(response.client_config.channels.len(), 1);
    assert_eq!(response.client_config.channels[0].name, "A");
}
