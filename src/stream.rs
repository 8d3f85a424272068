//! Users and channels: the login sequence's decisions, the channel list read
//! from the chat service's answer, and the values handed to the front end.

use vstd::prelude::*;
use vstd::string::*;

use crate::auth::{server_claims, user_claims, AuthError, StreamChatClient, USER_TOKEN_LIFETIME};
use crate::crypto::{signed_token_of, uuid_v5_of};
use crate::identity::{after_lookup, IdentityTable};

verus! {

/// The text with leading and trailing Unicode white space removed.
pub uninterp spec fn trimmed_of(s: Seq<char>) -> Seq<char>;

/// Relies on `str::trim`, whose result depends on the text alone.
#[verifier::external_body]
fn trim_text(s: &str) -> (r: &str)
    ensures
        r@ == trimmed_of(s@),
{
    s.trim()
}

/// The service credentials.
pub struct Config {
    pub stream_api_key: String,
    pub stream_api_secret: String,
}

/// Why the credentials were refused.
#[derive(Debug, Clone, Copy, PartialEq, Eq, Structural)]
pub enum ConfigError {
    MissingKey,
    MissingSecret,
    EmptyKey,
    EmptySecret,
}

impl Config {
    /// Credentials from the values found for the key and the secret; a
    /// missing value is reported before an empty one, the key before the
    /// secret.
    pub fn from_values(api_key: Option<String>, api_secret: Option<String>) -> (r: Result<
        Config,
        ConfigError,
    >)
        ensures
            match (api_key, api_secret) {
                (None, _) => r matches Err(ConfigError::MissingKey),
                (Some(_), None) => r matches Err(ConfigError::MissingSecret),
                (Some(k), Some(s)) => if k@.len() == 0 {
                    r matches Err(ConfigError::EmptyKey)
                } else if s@.len() == 0 {
                    r matches Err(ConfigError::EmptySecret)
                } else {
                    r matches Ok(c) && c.stream_api_key@ == k@ && c.stream_api_secret@ == s@
                },
            },
    {
        let stream_api_key = match api_key {
            Some(k) => k,
            None => return Err(ConfigError::MissingKey),
        };
        let stream_api_secret = match api_secret {
            Some(s) => s,
            None => return Err(ConfigError::MissingSecret),
        };
        if stream_api_key.as_str().is_empty() {
            return Err(ConfigError::EmptyKey);
        }
        if stream_api_secret.as_str().is_empty() {
            return Err(ConfigError::EmptySecret);
        }
        Ok(Config { stream_api_key, stream_api_secret })
    }
}

/// A common response of the chat service.
pub struct Response {
    pub duration: String,
    pub message: Option<String>,
    pub more_info: Option<String>,
}

/// What the backend keeps between requests.
pub struct AppState {
    pub users: IdentityTable,
    pub config: Config,
}

/// A channel to create.
pub struct ChannelData {
    pub name: String,
    pub members: Vec<String>,
    pub id: String,
    pub type_: String,
}

pub struct AuthResponse {
    pub user_id: String,
    pub token: String,
}

pub struct AuthRequest {
    pub username: String,
}

/// What the front end needs to talk to the chat service.
pub struct ClientConfig {
    pub api_key: String,
    pub user_token: String,
    pub channels: Vec<ChannelInfo>,
}

pub struct LoginResponse {
    pub user_id: String,
    pub client_config: ClientConfig,
}

/// A channel that a user belongs to.
pub struct ChannelInfo {
    pub id: String,
    pub name: String,
    pub type_: String,
    pub members: Vec<String>,
}

/// A channel seen as text: identifier, type, name, member identifiers.
pub type ChannelView = (Seq<char>, Seq<char>, Seq<char>, Seq<Seq<char>>);

pub open spec fn texts(v: Seq<String>) -> Seq<Seq<char>> {
    v.map_values(|s: String| s@)
}

impl View for ChannelInfo {
    type V = ChannelView;

    open spec fn view(&self) -> ChannelView {
        (self.id@, self.type_@, self.name@, texts(self.members@))
    }
}

pub open spec fn channel_views(v: Seq<ChannelInfo>) -> Seq<ChannelView> {
    v.map_values(|c: ChannelInfo| c@)
}

/// A JSON document, as far as the channel list reads it: numbers are kept
/// as their text.
pub enum JsonValue {
    Null,
    Bool(bool),
    Number(String),
    Str(String),
    Array(Vec<JsonValue>),
    Object(Vec<(String, JsonValue)>),
}

/// The first member named `key` among an object's members.
pub open spec fn member_named(members: Seq<(String, JsonValue)>, key: Seq<char>) -> Option<JsonValue>
    decreases members.len(),
{
    if members.len() == 0 {
        None
    } else if members[0].0@ == key {
        Some(members[0].1)
    } else {
        member_named(members.drop_first(), key)
    }
}

/// The member `key` of an object; nothing for any other value.
pub open spec fn json_get(v: JsonValue, key: Seq<char>) -> Option<JsonValue> {
    match v {
        JsonValue::Object(members) => member_named(members@, key),
        _ => None,
    }
}

pub open spec fn str_member(v: JsonValue, key: Seq<char>) -> Option<Seq<char>> {
    match json_get(v, key) {
        Some(JsonValue::Str(s)) => Some(s@),
        _ => None,
    }
}

pub open spec fn array_member(v: JsonValue, key: Seq<char>) -> Option<Seq<JsonValue>> {
    match json_get(v, key) {
        Some(JsonValue::Array(a)) => Some(a@),
        _ => None,
    }
}

/// The `user_id` texts of the members that have one, in order.
pub open spec fn member_ids(members: Seq<JsonValue>) -> Seq<Seq<char>>
    decreases members.len(),
{
    if members.len() == 0 {
        Seq::empty()
    } else {
        member_ids(members.drop_last()) + match str_member(members.last(), "user_id"@) {
            Some(id) => seq![id],
            None => Seq::empty(),
        }
    }
}

/// A channel entry with text `cid`, `type` and `name`; its members are those
/// of its `members` array, none when that is absent.
pub open spec fn channel_of(v: JsonValue) -> Option<ChannelView> {
    match (str_member(v, "cid"@), str_member(v, "type"@), str_member(v, "name"@)) {
        (Some(id), Some(t), Some(n)) => Some(
            (
                id,
                t,
                n,
                match array_member(v, "members"@) {
                    Some(a) => member_ids(a),
                    None => Seq::empty(),
                },
            ),
        ),
        _ => None,
    }
}

/// The channels among a list of entries, in order, skipping incomplete ones.
pub open spec fn channels_of(items: Seq<JsonValue>) -> Seq<ChannelView>
    decreases items.len(),
{
    if items.len() == 0 {
        Seq::empty()
    } else {
        channels_of(items.drop_last()) + match channel_of(items.last()) {
            Some(c) => seq![c],
            None => Seq::empty(),
        }
    }
}

/// The channels of the answer's `channels` array; none when it has none.
pub open spec fn parsed_channels(v: JsonValue) -> Seq<ChannelView> {
    match array_member(v, "channels"@) {
        Some(a) => channels_of(a),
        None => Seq::empty(),
    }
}

fn get_member<'a>(v: &'a JsonValue, key: &str) -> (r: Option<&'a JsonValue>)
    ensures
        r matches Some(x) ==> json_get(*v, key@) == Some(*x),
        r is None ==> json_get(*v, key@) is None,
{
    match v {
        JsonValue::Object(members) => {
            let wanted = String::from_str(key);
            let mut i: usize = 0;
            assert(members@.subrange(0, members@.len() as int) =~= members@);
            while i < members.len()
                invariant
                    i <= members@.len(),
                    json_get(*v, key@) == member_named(members@, key@),
                    wanted@ == key@,
                    member_named(members@, key@) == member_named(members@.subrange(i as int, members@.len() as int), key@),
                decreases members@.len() - i,
            {
                let ghost rest = members@.subrange(i as int, members@.len() as int);
                assert(rest.drop_first() =~= members@.subrange(i + 1, members@.len() as int));
                assert(rest[0] == members@[i as int]);
                if members[i].0 == wanted {
                    return Some(&members[i].1);
                }
                i = i + 1;
            }
            None
        },
        _ => None,
    }
}

fn get_str_member<'a>(v: &'a JsonValue, key: &str) -> (r: Option<&'a String>)
    ensures
        r matches Some(s) ==> str_member(*v, key@) == Some(s@),
        r is None ==> str_member(*v, key@) is None,
{
    match get_member(v, key) {
        Some(JsonValue::Str(s)) => Some(s),
        _ => None,
    }
}

fn member_ids_of(members: &Vec<JsonValue>) -> (r: Vec<String>)
    ensures
        texts(r@) == member_ids(members@),
{
    let mut ids: Vec<String> = Vec::new();
    let mut i: usize = 0;
    while i < members.len()
        invariant
            i <= members@.len(),
            texts(ids@) == member_ids(members@.subrange(0, i as int)),
        decreases members@.len() - i,
    {
        let ghost pre = members@.subrange(0, i as int);
        let ghost next = members@.subrange(0, i + 1);
        assert(next.drop_last() =~= pre);
        match get_str_member(&members[i], "user_id") {
            Some(id) => {
                ids.push(id.clone());
                assert(texts(ids@) =~= member_ids(next));
            },
            None => {
                assert(texts(ids@) =~= member_ids(next));
            },
        }
        i = i + 1;
    }
    assert(members@.subrange(0, members@.len() as int) =~= members@);
    ids
}

fn channel_entry(v: &JsonValue) -> (r: Option<ChannelInfo>)
    ensures
        r matches Some(c) ==> channel_of(*v) == Some(c@),
        r is None ==> channel_of(*v) is None,
{
    let id = get_str_member(v, "cid");
    let channel_type = get_str_member(v, "type");
    let name = get_str_member(v, "name");
    match (id, channel_type, name) {
        (Some(id), Some(channel_type), Some(name)) => {
            let members = match get_member(v, "members") {
                Some(JsonValue::Array(a)) => member_ids_of(a),
                _ => {
                    let none: Vec<String> = Vec::new();
                    assert(texts(none@) =~= Seq::<Seq<char>>::empty());
                    none
                },
            };
            Some(
                ChannelInfo {
                    id: id.clone(),
                    type_: channel_type.clone(),
                    name: name.clone(),
                    members,
                },
            )
        },
        _ => None,
    }
}

/// The channels listed in the chat service's answer.
pub fn parse_channel_data(value: &JsonValue) -> (r: Vec<ChannelInfo>)
    ensures
        channel_views(r@) == parsed_channels(*value),
{
    let mut channels: Vec<ChannelInfo> = Vec::new();
    match get_member(value, "channels") {
        Some(JsonValue::Array(items)) => {
            let mut i: usize = 0;
            while i < items.len()
                invariant
                    i <= items@.len(),
                    array_member(*value, "channels"@) == Some(items@),
                    channel_views(channels@) == channels_of(items@.subrange(0, i as int)),
                decreases items@.len() - i,
            {
                let ghost pre = items@.subrange(0, i as int);
                let ghost next = items@.subrange(0, i + 1);
                assert(next.drop_last() =~= pre);
                match channel_entry(&items[i]) {
                    Some(c) => {
                        channels.push(c);
                        assert(channel_views(channels@) =~= channels_of(next));
                    },
                    None => {
                        assert(channel_views(channels@) =~= channels_of(next));
                    },
                }
                i = i + 1;
            }
            assert(items@.subrange(0, items@.len() as int) =~= items@);
        },
        _ => {
            assert(channel_views(channels@) =~= Seq::<ChannelView>::empty());
        },
    }
    channels
}

/// The username a login request names: its text without surrounding white
/// space.
pub open spec fn login_name(request: &AuthRequest) -> Seq<char> {
    trimmed_of(request.username@)
}

/// Why a login was refused.
#[derive(Debug, Clone, Copy, PartialEq, Eq, Structural)]
pub enum LoginError {
    /// The username is empty once trimmed.
    EmptyUsername,
    /// The client could not be set up from the credentials.
    ClientInit(AuthError),
    /// The user token could not be issued.
    UserToken(AuthError),
    /// The server token could not be issued.
    ServerToken(AuthError),
}

/// A login under way: the client that calls the service with the server
/// token, and the user's identifier and token.
pub struct LoginSession {
    pub client: StreamChatClient,
    pub user_id: String,
    pub user_token: String,
}

/// The first step of a login at time `now`: finds or derives the user's
/// identifier in the table and issues the user and server tokens. The table
/// is touched only once the name and the credentials have been accepted;
/// nothing here waits on the network.
pub fn begin_login(state: &mut AppState, request: &AuthRequest, now: u64) -> (r: Result<
    LoginSession,
    LoginError,
>)
    requires
        old(state).users.wf(),
        now <= u64::MAX - USER_TOKEN_LIFETIME,
    ensures
        final(state).users.wf(),
        final(state).config.stream_api_key@ == old(state).config.stream_api_key@,
        final(state).config.stream_api_secret@ == old(state).config.stream_api_secret@,
        login_name(request).len() == 0 ==> r matches Err(LoginError::EmptyUsername),
        login_name(request).len() > 0 && (old(state).config.stream_api_key@.len() == 0
            || old(state).config.stream_api_secret@.len() == 0) ==> r matches Err(
            LoginError::ClientInit(AuthError::EmptyCredentials),
        ),
        (r matches Err(LoginError::EmptyUsername) || r matches Err(LoginError::ClientInit(_)))
            ==> final(state).users@ == old(state).users@,
        login_name(request).len() > 0 && old(state).config.stream_api_key@.len() > 0
            && old(state).config.stream_api_secret@.len() > 0 ==> {
            &&& final(state).users@ == after_lookup(old(state).users@, login_name(request))
            &&& match (
                signed_token_of(
                    old(state).config.stream_api_secret@,
                    user_claims(uuid_v5_of(login_name(request)), now as nat),
                ),
                signed_token_of(old(state).config.stream_api_secret@, server_claims(now as nat)),
            ) {
                (Some(u), Some(t)) => r matches Ok(session) && session.user_id@ == uuid_v5_of(
                    login_name(request),
                ) && session.user_token@ == u && session.client.spec_auth_token() == t
                    && session.client.spec_api_key() == old(state).config.stream_api_key@
                    && session.client.spec_secret() == old(state).config.stream_api_secret@,
                (None, _) => r matches Err(LoginError::UserToken(AuthError::SigningFailure)),
                (Some(_), None) => r matches Err(
                    LoginError::ServerToken(AuthError::SigningFailure),
                ),
            }
        },
{
    let username = trim_text(request.username.as_str());
    if username.is_empty() {
        return Err(LoginError::EmptyUsername);
    }
    let mut client = match StreamChatClient::initialize(
        state.config.stream_api_key.as_str(),
        state.config.stream_api_secret.as_str(),
    ) {
        Ok(c) => c,
        Err(e) => return Err(LoginError::ClientInit(e)),
    };
    let user_id = state.users.get_or_create(username);
    let user_token = match client.create_user_token(user_id.as_str(), now) {
        Ok(t) => t,
        Err(e) => return Err(LoginError::UserToken(e)),
    };
    let server_token = match client.create_server_token(now) {
        Ok(t) => t,
        Err(e) => return Err(LoginError::ServerToken(e)),
    };
    client.set_auth_token(server_token);
    Ok(LoginSession { client, user_id, user_token })
}

impl ChannelData {
    pub open spec fn as_view(&self) -> ChannelView {
        (self.id@, self.type_@, self.name@, texts(self.members@))
    }
}

/// The channel created for a user who has none: `general`, of type `team`,
/// with the user as its only member.
pub open spec fn default_channel_view(user_id: Seq<char>) -> ChannelView {
    ("general"@, "team"@, "general"@, seq![user_id])
}

/// The channel to create for a user once their channels are listed: the
/// default one when they have none, else none.
pub fn channel_to_create(user_id: &str, channels: &Vec<ChannelInfo>) -> (r: Option<ChannelData>)
    ensures
        r is Some <==> channels@.len() == 0,
        r matches Some(d) ==> d.as_view() == default_channel_view(user_id@),
{
    if channels.len() > 0 {
        return None;
    }
    let mut members: Vec<String> = Vec::new();
    members.push(String::from_str(user_id));
    assert(texts(members@) =~= seq![user_id@]);
    Some(
        ChannelData {
            name: String::from_str("general"),
            members,
            id: String::from_str("general"),
            type_: String::from_str("team"),
        },
    )
}

/// The last step of a login: the answer for the front end, with the listed
/// channels and, after them, the channel created for the user, if one was.
pub fn finish_login(session: LoginSession, channels: Vec<ChannelInfo>, created: Option<ChannelData>) -> (r: LoginResponse)
    ensures
        r.user_id@ == session.user_id@,
        r.client_config.api_key@ == session.client.spec_api_key(),
        r.client_config.user_token@ == session.user_token@,
        channel_views(r.client_config.channels@) == channel_views(channels@) + match created {
            Some(d) => seq![d.as_view()],
            None => Seq::empty(),
        },
{
    let mut channels = channels;
    let ghost listed = channels@;
    match created {
        Some(d) => {
            let info = ChannelInfo { id: d.id, name: d.name, type_: d.type_, members: d.members };
            channels.push(info);
            assert(channel_views(channels@) =~= channel_views(listed) + seq![d.as_view()]);
        },
        None => {
            assert(channel_views(channels@) =~= channel_views(listed) + Seq::<ChannelView>::empty());
        },
    }
    let api_key = String::from_str(session.client.api_key());
    LoginResponse {
        user_id: session.user_id,
        client_config: ClientConfig { api_key, user_token: session.user_token, channels },
    }
}

} // verus!
