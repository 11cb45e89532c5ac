//! Users, password hashes, login sessions and stored API keys.
//!
//! The user table and the session table live in an [`AuthState`] value that
//! the caller owns; the configuration file is read and written by the caller,
//! and handed to these functions as a [`Config`].
use std::collections::hash_map::DefaultHasher;
use std::hash::{Hash, Hasher};
use vstd::prelude::*;
use crate::assoc::StrMap;
use crate::text::{hex_of, hex_u64, is_lower_hex_digit, lemma_hex_of_is_hex, str_equal, string_of};

verus! {

#[derive(Debug, Clone)]
pub struct User {
    pub username: String,
    pub password_hash: String,
}

#[derive(Debug)]
pub struct LoginRequest {
    pub username: String,
    pub password: String,
}

#[derive(Debug)]
pub struct LoginResponse {
    pub token: String,
    pub username: String,
}

#[derive(Debug)]
pub struct ApiKeyRequest {
    pub api_key: String,
    pub api_secret: String,
    pub environment: String,
}

#[derive(Debug)]
pub struct PasswordRequest {
    pub current_password: String,
    pub new_password: String,
}

#[derive(Debug, Clone)]
pub struct ApiKeyConfig {
    pub api_key: String,
    pub api_secret: String,
    pub environment: String,
}

/// The persisted configuration: the users and, per user, the saved API keys.
pub struct Config {
    pub users: Vec<User>,
    pub api_keys: StrMap<ApiKeyConfig>,
}

/// The in-memory tables: users by name, sessions by token, and API keys that
/// stand in for the saved ones (checked first).
pub struct AuthState {
    users: StrMap<String>,
    sessions: StrMap<String>,
    mock_api_keys: StrMap<ApiKeyConfig>,
}

// ------------------------------------------------------------------
// Hashing and tokens
// ------------------------------------------------------------------

/// The value that `DefaultHasher::new()` yields after hashing a string.
pub uninterp spec fn default_str_hash(s: Seq<char>) -> u64;

/// The value that `DefaultHasher::new()` yields after hashing a `u128`.
pub uninterp spec fn default_u128_hash(n: u128) -> u64;

/// Hashes a string with a freshly created `DefaultHasher` (`Hash::hash` then
/// `Hasher::finish`). `DefaultHasher::new` uses fixed keys, so equal strings
/// hash equally; nothing is claimed about which value comes out.
#[verifier::external_body]
fn hash_str(s: &str) -> (h: u64)
    ensures
        h == default_str_hash(s@),
{
    let mut hasher = DefaultHasher::new();
    s.hash(&mut hasher);
    hasher.finish()
}

/// Hashes a `u128` with a freshly created `DefaultHasher`.
#[verifier::external_body]
fn hash_u128(n: u128) -> (h: u64)
    ensures
        h == default_u128_hash(n),
{
    let mut hasher = DefaultHasher::new();
    n.hash(&mut hasher);
    hasher.finish()
}

/// Nanoseconds since the Unix epoch (`SystemTime::now()`), 0 when the clock
/// reads earlier than the epoch. Nothing is claimed of the value.
#[verifier::external_body]
fn unix_time_nanos() -> u128 {
    std::time::SystemTime::now().duration_since(std::time::UNIX_EPOCH).map(|d| d.as_nanos()).unwrap_or(0)
}

/// The stored form of a password: the hex text of its hash.
pub open spec fn password_hash_of(password: Seq<char>) -> Seq<char> {
    hex_of(default_str_hash(password) as nat)
}

/// A session token: the hex text of the hash of a time stamp.
pub open spec fn token_of(nanos: u128) -> Seq<char> {
    hex_of(default_u128_hash(nanos) as nat)
}

/// A non-empty string of lower-case hexadecimal digits.
pub open spec fn is_hex_text(s: Seq<char>) -> bool {
    s.len() >= 1 && forall|i: int| 0 <= i < s.len() ==> is_lower_hex_digit(#[trigger] s[i])
}

pub fn hash_password(password: &str) -> (h: String)
    ensures
        h@ == password_hash_of(password@),
        is_hex_text(h@),
{
    let n = hash_str(password);
    proof {
        lemma_hex_of_is_hex(n as nat);
    }
    hex_u64(n)
}

/// The token made from a given time stamp.
pub fn token_from_instant(nanos: u128) -> (t: String)
    ensures
        t@ == token_of(nanos),
        is_hex_text(t@),
{
    let n = hash_u128(nanos);
    proof {
        lemma_hex_of_is_hex(n as nat);
    }
    hex_u64(n)
}

/// A fresh session token made from the current time.
pub fn generate_token() -> (t: String)
    ensures
        exists|nanos: u128| t@ == token_of(nanos),
        is_hex_text(t@),
{
    let nanos = unix_time_nanos();
    token_from_instant(nanos)
}

// ------------------------------------------------------------------
// Configuration
// ------------------------------------------------------------------

/// The user name to password hash table that a list of users stands for:
/// a later user of the same name replaces an earlier one.
pub open spec fn users_table(users: Seq<User>) -> Map<Seq<char>, Seq<char>>
    decreases users.len(),
{
    if users.len() == 0 {
        Map::empty()
    } else {
        users_table(users.drop_last()).insert(users.last().username@, users.last().password_hash@)
    }
}

pub open spec fn api_key_view(k: ApiKeyConfig) -> (Seq<char>, Seq<char>, Seq<char>) {
    (k.api_key@, k.api_secret@, k.environment@)
}

impl Config {
    /// The configuration written when none can be read: one user `admin`
    /// with password `admin123`, and no API keys.
    pub fn default_config() -> (c: Config)
        ensures
            c.users@.len() == 1,
            c.users@[0].username@ == "admin"@,
            c.users@[0].password_hash@ == password_hash_of("admin123"@),
            c.api_keys.view() == Map::<Seq<char>, ApiKeyConfig>::empty(),
    {
        let mut users: Vec<User> = Vec::new();
        users.push(User { username: string_of("admin"), password_hash: hash_password("admin123") });
        Config { users, api_keys: StrMap::new() }
    }
}

/// The saved key status of a user: whether keys are saved, and their environment.
pub fn get_api_key_status(config: &Config, username: &str) -> (r: (bool, Option<String>))
    ensures
        r.0 == config.api_keys.view().dom().contains(username@),
        r.0 ==> (r.1 matches Some(e) && e@ == config.api_keys.view()[username@].environment@),
        !r.0 ==> r.1 is None,
{
    match config.api_keys.get(username) {
        Some(k) => (true, Some(k.environment.clone())),
        None => (false, None),
    }
}

/// Records a user's API keys in the configuration (the caller saves it).
pub fn save_api_keys(
    config: &mut Config,
    username: &str,
    api_key: &str,
    api_secret: &str,
    environment: &str,
) -> (r: Result<(), String>)
    ensures
        r is Ok,
        final(config).users == old(config).users,
        final(config).api_keys.view().dom() == old(config).api_keys.view().dom().insert(username@),
        api_key_view(final(config).api_keys.view()[username@]) == (api_key@, api_secret@, environment@),
        forall|u: Seq<char>| u != username@ && old(config).api_keys.view().dom().contains(u)
            ==> final(config).api_keys.view()[u] == old(config).api_keys.view()[u],
{
    let entry = ApiKeyConfig {
        api_key: string_of(api_key),
        api_secret: string_of(api_secret),
        environment: string_of(environment),
    };
    config.api_keys.insert(string_of(username), entry);
    Ok(())
}

/// The text of the `.env` file written when API keys are saved.
pub open spec fn env_file_text(api_key: Seq<char>, api_secret: Seq<char>, environment: Seq<char>) -> Seq<char> {
    "# Alpaca API Credentials\n# Get your keys at: https://alpaca.markets/\n\nALPACA_API_KEY="@
        + api_key + "\nALPACA_API_SECRET="@ + api_secret
        + "\n\n# Environment: 'paper' for paper trading (default) or 'live' for real trading\nALPACA_ENV="@
        + environment + "\n"@
}

pub fn env_file_content(api_key: &str, api_secret: &str, environment: &str) -> (s: String)
    ensures
        s@ == env_file_text(api_key@, api_secret@, environment@),
{
    let s = string_of("# Alpaca API Credentials\n# Get your keys at: https://alpaca.markets/\n\nALPACA_API_KEY=");
    let s = s.concat(api_key);
    let s = s.concat("\nALPACA_API_SECRET=");
    let s = s.concat(api_secret);
    let s = s.concat("\n\n# Environment: 'paper' for paper trading (default) or 'live' for real trading\nALPACA_ENV=");
    let s = s.concat(environment);
    s.concat("\n")
}

// ------------------------------------------------------------------
// Users and sessions
// ------------------------------------------------------------------

pub open spec fn text_values(m: Map<Seq<char>, String>) -> Map<Seq<char>, Seq<char>> {
    Map::new(|k: Seq<char>| m.dom().contains(k), |k: Seq<char>| m[k]@)
}

impl AuthState {
    /// User name to password hash.
    pub closed spec fn users(&self) -> Map<Seq<char>, Seq<char>> {
        text_values(self.users.view())
    }

    /// Session token to user name.
    pub closed spec fn sessions(&self) -> Map<Seq<char>, Seq<char>> {
        text_values(self.sessions.view())
    }

    /// User name to stand-in API keys.
    pub closed spec fn mock_keys(&self) -> Map<Seq<char>, ApiKeyConfig> {
        self.mock_api_keys.view()
    }

    /// No users, no sessions, no stand-in keys.
    pub fn new() -> (s: AuthState)
        ensures
            s.users() == Map::<Seq<char>, Seq<char>>::empty(),
            s.sessions() == Map::<Seq<char>, Seq<char>>::empty(),
            s.mock_keys() == Map::<Seq<char>, ApiKeyConfig>::empty(),
    {
        let s = AuthState { users: StrMap::new(), sessions: StrMap::new(), mock_api_keys: StrMap::new() };
        assert(s.users() =~= Map::<Seq<char>, Seq<char>>::empty());
        assert(s.sessions() =~= Map::<Seq<char>, Seq<char>>::empty());
        s
    }
}

proof fn lemma_text_values_insert(m: Map<Seq<char>, String>, k: Seq<char>, v: String)
    ensures
        text_values(m.insert(k, v)) == text_values(m).insert(k, v@),
{
    assert(text_values(m.insert(k, v)) =~= text_values(m).insert(k, v@));
}

proof fn lemma_text_values_remove(m: Map<Seq<char>, String>, k: Seq<char>)
    ensures
        text_values(m.remove(k)) == text_values(m).remove(k),
{
    assert(text_values(m.remove(k)) =~= text_values(m).remove(k));
}

/// Loads the users of `config` and drops every session. Stand-in keys stay.
pub fn init(state: &mut AuthState, config: &Config)
    ensures
        final(state).users() == users_table(config.users@),
        final(state).sessions() == Map::<Seq<char>, Seq<char>>::empty(),
        final(state).mock_keys() == old(state).mock_keys(),
{
    let mut users: StrMap<String> = StrMap::new();
    let mut i: usize = 0;
    while i < config.users.len()
        invariant
            i <= config.users.len(),
            text_values(users.view()) == users_table(config.users@.take(i as int)),
        decreases config.users.len() - i,
    {
        let u = &config.users[i];
        proof {
            lemma_text_values_insert(users.view(), u.username@, u.password_hash);
            assert(config.users@.take(i + 1).drop_last() =~= config.users@.take(i as int));
        }
        users.insert(u.username.clone(), u.password_hash.clone());
        i = i + 1;
    }
    assert(config.users@.take(config.users.len() as int) =~= config.users@);
    state.users = users;
    state.sessions = StrMap::new();
    assert(state.sessions() =~= Map::<Seq<char>, Seq<char>>::empty());
}

/// Whether `password` is the password of user `username` in the table.
pub open spec fn credentials_match(users: Map<Seq<char>, Seq<char>>, username: Seq<char>, password: Seq<char>) -> bool {
    users.dom().contains(username) && users[username] == password_hash_of(password)
}

/// Logs a user in with a given session token: succeeds exactly when the user
/// exists and the password hashes to the stored hash, and then records the
/// token as a session of that user.
pub fn login_with_token(state: &mut AuthState, username: &str, password: &str, token: String) -> (r: Option<LoginResponse>)
    ensures
        r is Some <==> credentials_match(old(state).users(), username@, password@),
        r matches Some(resp) ==> resp.token@ == token@ && resp.username@ == username@,
        r is Some ==> final(state).sessions() == old(state).sessions().insert(token@, username@),
        r is None ==> final(state).sessions() == old(state).sessions(),
        final(state).users() == old(state).users(),
        final(state).mock_keys() == old(state).mock_keys(),
{
    let stored = match state.users.get(username) {
        Some(h) => h,
        None => return None,
    };
    let given = hash_password(password);
    if !str_equal(stored.as_str(), given.as_str()) {
        return None;
    }
    let name = string_of(username);
    proof {
        lemma_text_values_insert(state.sessions.view(), token@, name);
    }
    state.sessions.insert(token.clone(), name);
    Some(LoginResponse { token, username: string_of(username) })
}

/// Logs a user in with a fresh session token (see [`login_with_token`]).
pub fn login(state: &mut AuthState, username: &str, password: &str) -> (r: Option<LoginResponse>)
    ensures
        r is Some <==> credentials_match(old(state).users(), username@, password@),
        r matches Some(resp) ==> resp.username@ == username@ && is_hex_text(resp.token@)
            && (exists|nanos: u128| resp.token@ == token_of(nanos))
            && final(state).sessions() == old(state).sessions().insert(resp.token@, username@),
        r is None ==> final(state).sessions() == old(state).sessions(),
        final(state).users() == old(state).users(),
        final(state).mock_keys() == old(state).mock_keys(),
{
    if !state.users.contains(username) {
        return None;
    }
    let token = generate_token();
    login_with_token(state, username, password, token)
}

/// The user of a session token.
pub fn verify_token(state: &AuthState, token: &str) -> (r: Option<String>)
    ensures
        r is Some <==> state.sessions().dom().contains(token@),
        r matches Some(u) ==> u@ == state.sessions()[token@],
{
    match state.sessions.get(token) {
        Some(u) => Some(u.clone()),
        None => None,
    }
}

/// Ends a session.
pub fn logout(state: &mut AuthState, token: &str)
    ensures
        final(state).sessions() == old(state).sessions().remove(token@),
        final(state).users() == old(state).users(),
        final(state).mock_keys() == old(state).mock_keys(),
{
    proof {
        lemma_text_values_remove(state.sessions.view(), token@);
    }
    state.sessions.remove(token);
}

/// The users of a configuration after a password change: every entry of the
/// user gets the new hash, the others are unchanged.
pub open spec fn users_after_password_change(users: Seq<User>, name: Seq<char>, hash: Seq<char>, changed: Seq<User>) -> bool {
    &&& changed.len() == users.len()
    &&& forall|i: int| 0 <= i < users.len() ==> (#[trigger] changed[i]).username@ == users[i].username@
    &&& forall|i: int| 0 <= i < users.len() && users[i].username@ == name ==> (#[trigger] changed[i]).password_hash@ == hash
    &&& forall|i: int| 0 <= i < users.len() && users[i].username@ != name ==> (#[trigger] changed[i]).password_hash@ == users[i].password_hash@
}

/// Changes a user's password, in the user table and in the configuration
/// (which the caller saves). Fails with "User not found" when there is no
/// such user and with "Current password is incorrect" when the current
/// password does not match; then nothing changes.
pub fn change_password(
    state: &mut AuthState,
    config: &mut Config,
    username: &str,
    current_password: &str,
    new_password: &str,
) -> (r: Result<(), String>)
    ensures
        !old(state).users().dom().contains(username@) ==> (r matches Err(e) && e@ == "User not found"@),
        old(state).users().dom().contains(username@) && !credentials_match(old(state).users(), username@, current_password@)
            ==> (r matches Err(e) && e@ == "Current password is incorrect"@),
        r is Ok <==> credentials_match(old(state).users(), username@, current_password@),
        r is Ok ==> final(state).users() == old(state).users().insert(username@, password_hash_of(new_password@)),
        r is Ok ==> users_after_password_change(old(config).users@, username@, password_hash_of(new_password@), final(config).users@),
        r is Err ==> final(state).users() == old(state).users() && final(config).users@ == old(config).users@,
        final(config).api_keys == old(config).api_keys,
        final(state).sessions() == old(state).sessions(),
        final(state).mock_keys() == old(state).mock_keys(),
{
    let stored = match state.users.get(username) {
        Some(h) => h,
        None => return Err(string_of("User not found")),
    };
    let current = hash_password(current_password);
    if !str_equal(stored.as_str(), current.as_str()) {
        return Err(string_of("Current password is incorrect"));
    }
    let new_hash = hash_password(new_password);
    proof {
        lemma_text_values_insert(state.users.view(), username@, new_hash);
    }
    state.users.insert(string_of(username), new_hash);

    let ghost before = config.users@;
    let mut i: usize = 0;
    while i < config.users.len()
        invariant
            i <= config.users.len(),
            config.api_keys == old(config).api_keys,
            config.users@.len() == before.len(),
            forall|j: int| 0 <= j < before.len() ==> (#[trigger] config.users@[j]).username@ == before[j].username@,
            forall|j: int| 0 <= j < i && before[j].username@ == username@ ==> (#[trigger] config.users@[j]).password_hash@ == password_hash_of(new_password@),
            forall|j: int| 0 <= j < before.len() && !(j < i && before[j].username@ == username@) ==> (#[trigger] config.users@[j]).password_hash@ == before[j].password_hash@,
        decreases config.users.len() - i,
    {
        if str_equal(config.users[i].username.as_str(), username) {
            let name = config.users[i].username.clone();
            let h = hash_password(new_password);
            config.users.set(i, User { username: name, password_hash: h });
        }
        i = i + 1;
    }
    Ok(())
}

/// Sets stand-in API keys for a user; they take precedence over saved keys.
pub fn set_mock_api_keys(state: &mut AuthState, username: &str, api_key: &str, api_secret: &str, environment: &str)
    ensures
        final(state).mock_keys().dom() == old(state).mock_keys().dom().insert(username@),
        api_key_view(final(state).mock_keys()[username@]) == (api_key@, api_secret@, environment@),
        forall|u: Seq<char>| u != username@ && old(state).mock_keys().dom().contains(u)
            ==> final(state).mock_keys()[u] == old(state).mock_keys()[u],
        final(state).users() == old(state).users(),
        final(state).sessions() == old(state).sessions(),
{
    let entry = ApiKeyConfig {
        api_key: string_of(api_key),
        api_secret: string_of(api_secret),
        environment: string_of(environment),
    };
    state.mock_api_keys.insert(string_of(username), entry);
}

/// The API keys of a user: the stand-in keys when set, else the saved ones.
pub open spec fn api_keys_for(
    mocks: Map<Seq<char>, ApiKeyConfig>,
    saved: Map<Seq<char>, ApiKeyConfig>,
    username: Seq<char>,
) -> Option<(Seq<char>, Seq<char>, Seq<char>)> {
    if mocks.dom().contains(username) {
        Some(api_key_view(mocks[username]))
    } else if saved.dom().contains(username) {
        Some(api_key_view(saved[username]))
    } else {
        None
    }
}

pub fn get_api_keys(state: &AuthState, config: &Config, username: &str) -> (r: Option<(String, String, String)>)
    ensures
        r matches Some(k) ==> api_keys_for(state.mock_keys(), config.api_keys.view(), username@) == Some((k.0@, k.1@, k.2@)),
        r is None ==> api_keys_for(state.mock_keys(), config.api_keys.view(), username@) is None,
{
    if let Some(k) = state.mock_api_keys.get(username) {
        return Some((k.api_key.clone(), k.api_secret.clone(), k.environment.clone()));
    }
    match config.api_keys.get(username) {
        Some(k) => Some((k.api_key.clone(), k.api_secret.clone(), k.environment.clone())),
        None => None,
    }
}


// ------------------------------------------------------------------
// Laws
// ------------------------------------------------------------------

/// The token of a login verifies to the user who logged in, and no longer
/// verifies once it is logged out; other sessions are untouched by either.
pub proof fn law_session_round_trip(
    sessions: Map<Seq<char>, Seq<char>>,
    token: Seq<char>,
    username: Seq<char>,
    other: Seq<char>,
)
    requires
        other != token,
    ensures
        sessions.insert(token, username).dom().contains(token),
        sessions.insert(token, username)[token] == username,
        !sessions.insert(token, username).remove(token).dom().contains(token),
        sessions.insert(token, username).remove(token).dom().contains(other) == sessions.dom().contains(other),
        sessions.dom().contains(other) ==> sessions.insert(token, username).remove(token)[other] == sessions[other],
{
}

/// After a password change the new password logs the user in; the old one
/// still does only when both passwords hash alike; other users are unaffected.
pub proof fn law_password_change_takes_effect(
    users: Map<Seq<char>, Seq<char>>,
    username: Seq<char>,
    old_password: Seq<char>,
    new_password: Seq<char>,
    other: Seq<char>,
    password: Seq<char>,
)
    requires
        credentials_match(users, username, old_password),
        other != username,
    ensures
        credentials_match(users.insert(username, password_hash_of(new_password)), username, new_password),
        credentials_match(users.insert(username, password_hash_of(new_password)), username, old_password)
            <==> password_hash_of(old_password) == password_hash_of(new_password),
        credentials_match(users.insert(username, password_hash_of(new_password)), other, password)
            == credentials_match(users, other, password),
{
}

/// The default configuration lets `admin` log in with `admin123`.
pub proof fn law_default_admin_login(users: Seq<User>)
    requires
        users.len() == 1,
        users[0].username@ == "admin"@,
        users[0].password_hash@ == password_hash_of("admin123"@),
    ensures
        credentials_match(users_table(users), "admin"@, "admin123"@),
{
    assert(users.drop_last().len() == 0);
    assert(users_table(users.drop_last()) == Map::<Seq<char>, Seq<char>>::empty());
}

/// Stand-in keys are returned when set, whatever is saved; saved keys are
/// returned when no stand-in is set; a user with neither has none.
pub proof fn law_api_key_precedence(
    mocks: Map<Seq<char>, ApiKeyConfig>,
    saved: Map<Seq<char>, ApiKeyConfig>,
    username: Seq<char>,
)
    ensures
        mocks.dom().contains(username) ==> api_keys_for(mocks, saved, username) == Some(api_key_view(mocks[username])),
        !mocks.dom().contains(username) && saved.dom().contains(username)
            ==> api_keys_for(mocks, saved, username) == Some(api_key_view(saved[username])),
        !mocks.dom().contains(username) && !saved.dom().contains(username)
            ==> api_keys_for(mocks, saved, username) is None,
{
}

/// Hashing is a function of the password: equal passwords give equal hashes,
/// so the same password always logs in against a stored hash of it.
pub proof fn law_hash_is_deterministic(users: Map<Seq<char>, Seq<char>>, username: Seq<char>, password: Seq<char>)
    ensures
        credentials_match(users.insert(username, password_hash_of(password)), username, password),
{
}

/// Loading a configuration takes in every user of it: each user name of the
/// list is in the table, with the password hash of the last user of that
/// name in the list.
pub proof fn law_init_loads_every_user(users: Seq<User>, i: int)
    requires
        0 <= i < users.len(),
    ensures
        users_table(users).dom().contains(users[i].username@),
        exists|j: int|
            #![trigger users[j]]
            i <= j < users.len() && users[j].username@ == users[i].username@
            && users_table(users)[users[i].username@] == users[j].password_hash@
            && forall|k: int| j < k < users.len() ==> (#[trigger] users[k]).username@ != users[i].username@,
    decreases users.len(),
{
    let n = users.len();
    let name = users[i].username@;
    let last = users[n - 1];
    assert(users.last() == last);
    if last.username@ == name {
        assert(users_table(users)[name] == last.password_hash@);
        assert(users[n - 1].username@ == name);
    } else {
        let d = users.drop_last();
        law_init_loads_every_user(d, i);
        assert(d[i] == users[i]);
        let j = choose|j: int|
            #![trigger d[j]]
            i <= j < d.len() && d[j].username@ == d[i].username@
            && users_table(d)[d[i].username@] == d[j].password_hash@
            && forall|k: int| j < k < d.len() ==> (#[trigger] d[k]).username@ != d[i].username@;
        assert(d[j] == users[j]);
        assert forall|k: int| j < k < users.len() implies (#[trigger] users[k]).username@ != name by {
            if k < n - 1 {
                assert(d[k] == users[k]);
            }
        }
    }
}

/// The table of a configuration holds its users' names and nothing else.
pub proof fn law_init_loads_only_its_users(users: Seq<User>, name: Seq<char>)
    ensures
        users_table(users).dom().contains(name)
            <==> exists|i: int| 0 <= i < users.len() && (#[trigger] users[i]).username@ == name,
    decreases users.len(),
{
    if users.len() > 0 {
        let d = users.drop_last();
        law_init_loads_only_its_users(d, name);
        if exists|i: int| 0 <= i < d.len() && (#[trigger] d[i]).username@ == name {
            let i = choose|i: int| 0 <= i < d.len() && (#[trigger] d[i]).username@ == name;
            assert(users[i] == d[i]);
        }
        if exists|i: int| 0 <= i < users.len() && (#[trigger] users[i]).username@ == name {
            let i = choose|i: int| 0 <= i < users.len() && (#[trigger] users[i]).username@ == name;
            if i < users.len() - 1 {
                assert(users[i] == d[i]);
            }
        }
    }
}

/// A password change keeps the saved configuration and the live table in
/// step: the table that the changed configuration loads to is the old one
/// with the user's new hash (and unchanged when there is no such user).
pub proof fn law_password_change_survives_reload(users: Seq<User>, name: Seq<char>, hash: Seq<char>, changed: Seq<User>)
    requires
        users_after_password_change(users, name, hash, changed),
    ensures
        users_table(changed) == if users_table(users).dom().contains(name) {
            users_table(users).insert(name, hash)
        } else {
            users_table(users)
        },
    decreases users.len(),
{
    if users.len() > 0 {
        let n = users.len() - 1;
        let d = users.drop_last();
        let cd = changed.drop_last();
        assert forall|i: int| 0 <= i < d.len() implies (#[trigger] cd[i]).username@ == d[i].username@ by {
            assert(cd[i] == changed[i] && d[i] == users[i]);
        }
        assert forall|i: int| 0 <= i < d.len() && d[i].username@ == name implies (#[trigger] cd[i]).password_hash@ == hash by {
            assert(cd[i] == changed[i] && d[i] == users[i]);
        }
        assert forall|i: int| 0 <= i < d.len() && d[i].username@ != name implies (#[trigger] cd[i]).password_hash@ == d[i].password_hash@ by {
            assert(cd[i] == changed[i] && d[i] == users[i]);
        }
        law_password_change_survives_reload(d, name, hash, cd);
        assert(users.last() == users[n] && changed.last() == changed[n]);
        assert(changed[n].username@ == users[n].username@);
        if users[n].username@ == name {
            assert(changed[n].password_hash@ == hash);
            assert(users_table(changed) =~= users_table(users).insert(name, hash));
        } else {
            assert(changed[n].password_hash@ == users[n].password_hash@);
            if users_table(users).dom().contains(name) {
                assert(users_table(changed) =~= users_table(users).insert(name, hash));
            } else {
                assert(users_table(changed) =~= users_table(users));
            }
        }
    }
}

} // verus!
