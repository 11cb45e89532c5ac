//! The decisions of the HTTP routes: errors and their status codes, bearer
//! tokens, which broker client serves a request, the replies of the strategy
//! routes, and the arguments handed to the analytics scripts.
use vstd::prelude::*;
use crate::alpaca::AlpacaClient;
use crate::auth::{api_keys_for, get_api_keys, verify_token, AuthState, Config};
use crate::records::{lemma_texts_push, texts};
use crate::strategies::Strategy;
use crate::text::{chars_of, decimal_u64, dec_of, str_equal, string_from_chars, string_of};

verus! {

/// An error answered to an HTTP request.
#[derive(Debug)]
pub enum AppError {
    ApiError(String),
    AuthError(String),
    ValidationError(String),
    Unauthorized(String),
    Forbidden(String),
    Internal(String),
    NotFound(String),
}

pub open spec fn status_of(e: AppError) -> u16 {
    match e {
        AppError::ApiError(_) => 500,
        AppError::AuthError(_) => 401,
        AppError::ValidationError(_) => 400,
        AppError::Unauthorized(_) => 401,
        AppError::Forbidden(_) => 403,
        AppError::Internal(_) => 500,
        AppError::NotFound(_) => 404,
    }
}

impl AppError {
    /// The HTTP status code answered for the error.
    pub fn status_code(&self) -> (c: u16)
        ensures
            c == status_of(*self),
    {
        match self {
            AppError::ApiError(_) => 500,
            AppError::AuthError(_) => 401,
            AppError::ValidationError(_) => 400,
            AppError::Unauthorized(_) => 401,
            AppError::Forbidden(_) => 403,
            AppError::Internal(_) => 500,
            AppError::NotFound(_) => 404,
        }
    }

    /// The message put in the `error` field of the reply.
    pub fn message(&self) -> (m: &str)
        ensures
            m@ == match *self {
                AppError::ApiError(e) => e@,
                AppError::AuthError(e) => e@,
                AppError::ValidationError(e) => e@,
                AppError::Unauthorized(e) => e@,
                AppError::Forbidden(e) => e@,
                AppError::Internal(e) => e@,
                AppError::NotFound(e) => e@,
            },
    {
        match self {
            AppError::ApiError(e) => e.as_str(),
            AppError::AuthError(e) => e.as_str(),
            AppError::ValidationError(e) => e.as_str(),
            AppError::Unauthorized(e) => e.as_str(),
            AppError::Forbidden(e) => e.as_str(),
            AppError::Internal(e) => e.as_str(),
            AppError::NotFound(e) => e.as_str(),
        }
    }
}

// ------------------------------------------------------------------
// Request payloads
// ------------------------------------------------------------------

#[derive(Debug)]
pub struct RunQuery {
    pub symbol: Option<String>,
}

#[derive(Debug)]
pub struct OptionsQuery {
    pub expiration: Option<String>,
}

#[derive(Debug)]
pub struct OrdersQuery {
    pub status: Option<String>,
}

pub struct WsParams {
    pub token: String,
}

pub struct WatchlistUpdate {
    pub add: Option<Vec<String>>,
    pub remove: Option<Vec<String>>,
}

pub struct FetchRequest {
    pub symbols: Option<Vec<String>>,
    pub timeframes: Option<Vec<String>>,
    pub source: Option<String>,
    pub full: Option<bool>,
}

#[derive(Debug)]
pub struct StrategyData {
    pub strategy: Strategy,
}

#[derive(Debug)]
pub struct StrategyResponse {
    pub success: bool,
    pub message: String,
    pub data: Option<StrategyData>,
}

#[derive(Debug)]
pub struct StrategiesListResponse {
    pub success: bool,
    pub strategies: Vec<Strategy>,
}

// ------------------------------------------------------------------
// Bearer tokens and clients
// ------------------------------------------------------------------

pub open spec fn bearer_prefix() -> Seq<char> {
    "Bearer "@
}

/// The token of an `Authorization` header value: what follows `Bearer `.
/// A missing (or unreadable) header and any other form are refused.
pub fn extract_token(header: Option<&str>) -> (r: Result<String, AppError>)
    ensures
        header is None ==> (r matches Err(AppError::Unauthorized(m)) && m@ == "Missing Authorization header"@),
        header matches Some(h) ==> (!(h@.len() >= 7 && h@.take(7) == bearer_prefix())
            ==> (r matches Err(AppError::Unauthorized(m)) && m@ == "Invalid Authorization header format"@)),
        header matches Some(h) ==> (h@.len() >= 7 && h@.take(7) == bearer_prefix()
            ==> (r matches Ok(t) && t@ == h@.skip(7))),
{
    let h = match header {
        Some(h) => h,
        None => return Err(AppError::Unauthorized(string_of("Missing Authorization header"))),
    };
    let cs = chars_of(h);
    let prefix = chars_of("Bearer ");
    proof {
        reveal_strlit("Bearer ");
        assert(prefix@.len() == 7);
    }
    let mut ok = cs.len() >= 7;
    let mut i: usize = 0;
    while ok && i < 7
        invariant
            i <= 7,
            prefix@ == bearer_prefix(),
            prefix@.len() == 7,
            ok ==> cs@.len() >= 7 && forall|j: int| 0 <= j < i ==> cs@[j] == prefix@[j],
            !ok ==> !(cs@.len() >= 7 && cs@.take(7) == bearer_prefix()),
        decreases 7 - i,
    {
        if cs[i] != prefix[i] {
            ok = false;
            proof {
                if cs@.len() >= 7 && cs@.take(7) == bearer_prefix() {
                    assert(cs@.take(7)[i as int] == cs@[i as int]);
                }
            }
        }
        i = i + 1;
    }
    if !ok {
        return Err(AppError::Unauthorized(string_of("Invalid Authorization header format")));
    }
    assert(cs@.take(7) =~= bearer_prefix());
    let mut rest: Vec<char> = Vec::new();
    let mut k: usize = 7;
    while k < cs.len()
        invariant
            7 <= k <= cs.len(),
            rest@ == cs@.subrange(7, k as int),
        decreases cs.len() - k,
    {
        rest.push(cs[k]);
        assert(cs@.subrange(7, k + 1) =~= cs@.subrange(7, k as int).push(cs@[k as int]));
        k = k + 1;
    }
    assert(cs@.subrange(7, cs.len() as int) =~= h@.skip(7));
    Ok(string_from_chars(&rest))
}

/// The user of a bearer `Authorization` header.
pub fn get_username_from_headers(auth: &AuthState, header: Option<&str>) -> (r: Result<String, AppError>)
    ensures
        header is None ==> r is Err,
        header matches Some(h) ==> (h@.len() >= 7 && h@.take(7) == bearer_prefix() ==> {
            &&& auth.sessions().dom().contains(h@.skip(7)) ==> (r matches Ok(u) && u@ == auth.sessions()[h@.skip(7)])
            &&& !auth.sessions().dom().contains(h@.skip(7)) ==> (r matches Err(AppError::Unauthorized(m)) && m@ == "Invalid or expired token"@)
        }),
        header matches Some(h) ==> (!(h@.len() >= 7 && h@.take(7) == bearer_prefix()) ==> r is Err),
{
    let token = extract_token(header)?;
    match verify_token(auth, token.as_str()) {
        Some(u) => Ok(u),
        None => Err(AppError::Unauthorized(string_of("Invalid or expired token"))),
    }
}

/// Whether the header carries the bearer token of a session.
pub open spec fn authenticated(auth: &AuthState, header: Option<&str>) -> bool {
    header matches Some(h) && h@.len() >= 7 && h@.take(7) == bearer_prefix() && auth.sessions().dom().contains(h@.skip(7))
}

/// The broker client that serves an authenticated request: the shared one
/// when the server has one, else one made from the user's own keys for the
/// environment saved with them; a user without keys is refused.
pub fn get_authenticated_client(
    auth: &AuthState,
    config: &Config,
    header: Option<&str>,
    shared: &Option<AlpacaClient>,
) -> (r: Result<AlpacaClient, AppError>)
    ensures
        r is Ok ==> authenticated(auth, header),
        r matches Ok(c) ==> (shared.is_some() ==> c.api_key@ == shared->0.api_key@ && c.api_secret@ == shared->0.api_secret@
            && c.base_url@ == shared->0.base_url@),
        authenticated(auth, header) ==> {
            let user = auth.sessions()[header->0@.skip(7)];
            &&& shared.is_some() ==> r is Ok
            &&& shared.is_none() ==> match api_keys_for(auth.mock_keys(), config.api_keys.view(), user) {
                Some(k) => r matches Ok(c) && c.api_key@ == k.0 && c.api_secret@ == k.1
                    && c.base_url@ == (if k.2 == "live"@ { crate::alpaca::live_url() } else { crate::alpaca::paper_url() }),
                None => r matches Err(AppError::Forbidden(m))
                    && m@ == "No API keys configured. Please configure your Alpaca API keys in Settings."@,
            }
        },
{
    let username = get_username_from_headers(auth, header)?;
    if let Some(c) = shared {
        return Ok(AlpacaClient { api_key: c.api_key.clone(), api_secret: c.api_secret.clone(), base_url: c.base_url.clone() });
    }
    match get_api_keys(auth, config, username.as_str()) {
        Some((api_key, api_secret, environment)) => {
            Ok(AlpacaClient::for_environment(api_key.as_str(), api_secret.as_str(), environment.as_str()))
        },
        None => Err(AppError::Forbidden(string_of("No API keys configured. Please configure your Alpaca API keys in Settings."))),
    }
}

/// The error for a broker reply to an order: a reply with a `message` and
/// no `id` is a rejection, and its message is reported.
pub fn order_rejection(message: Option<&str>, has_id: bool) -> (r: Option<AppError>)
    ensures
        r is Some <==> (message is Some && !has_id),
        r matches Some(AppError::ValidationError(m)) ==> m@ == message->0@,
        r matches Some(e) ==> e is ValidationError,
{
    match message {
        Some(m) if !has_id => Some(AppError::ValidationError(string_of(m))),
        _ => None,
    }
}

// ------------------------------------------------------------------
// Strategy route replies
// ------------------------------------------------------------------

/// The reply to starting (`starting`) or stopping a strategy: on success a
/// message naming the strategy, else the refusal.
pub fn strategy_action_response(strategy_id: u32, starting: bool, outcome: Result<(), String>) -> (r: StrategyResponse)
    ensures
        r.success == outcome is Ok,
        r.data is None,
        outcome is Ok ==> r.message@ == "Strategy "@ + dec_of(strategy_id as nat)
            + (if starting { " started successfully"@ } else { " stopped successfully"@ }),
        outcome matches Err(e) ==> r.message@ == e@,
{
    match outcome {
        Ok(()) => {
            let m = string_of("Strategy ").concat(decimal_u64(strategy_id as u64).as_str());
            let m = if starting { m.concat(" started successfully") } else { m.concat(" stopped successfully") };
            StrategyResponse { success: true, message: m, data: None }
        },
        Err(e) => StrategyResponse { success: false, message: e, data: None },
    }
}

/// How many outcomes read "stopped".
pub open spec fn stopped_count(results: Seq<(u32, String)>) -> nat
    decreases results.len(),
{
    if results.len() == 0 {
        0
    } else {
        stopped_count(results.drop_last()) + if results.last().1@ == "stopped"@ { 1nat } else { 0nat }
    }
}

/// The reply to stopping all strategies.
pub fn stop_all_response(results: &Vec<(u32, String)>) -> (r: StrategyResponse)
    ensures
        r.success,
        r.data is None,
        r.message@ == "Stopped "@ + dec_of(stopped_count(results@)) + " strategies"@,
{
    let mut n: u64 = 0;
    let mut i: usize = 0;
    while i < results.len()
        invariant
            i <= results.len(),
            n == stopped_count(results@.take(i as int)),
            n <= i,
        decreases results.len() - i,
    {
        assert(results@.take(i + 1).drop_last() =~= results@.take(i as int));
        if str_equal(results[i].1.as_str(), "stopped") {
            n = n + 1;
        }
        i = i + 1;
    }
    assert(results@.take(results.len() as int) =~= results@);
    let m = string_of("Stopped ").concat(decimal_u64(n).as_str()).concat(" strategies");
    StrategyResponse { success: true, message: m, data: None }
}

// ------------------------------------------------------------------
// Analytics script arguments
// ------------------------------------------------------------------

/// A flag followed by its values, when the values are given.
pub open spec fn flag_values(flag: Seq<char>, values: Option<Vec<String>>) -> Seq<Seq<char>> {
    match values {
        Some(v) => seq![flag] + texts(v@),
        None => Seq::empty(),
    }
}

/// A flag followed by its value, when the value is given.
pub open spec fn flag_value(flag: Seq<char>, value: Option<String>) -> Seq<Seq<char>> {
    match value {
        Some(v) => seq![flag, v@],
        None => Seq::empty(),
    }
}

/// A flag alone, when the switch is on.
pub open spec fn flag_if(flag: Seq<char>, on: Option<bool>) -> Seq<Seq<char>> {
    if on == Some(true) {
        seq![flag]
    } else {
        Seq::empty()
    }
}

fn push_values(args: &mut Vec<String>, flag: &str, values: &Option<Vec<String>>)
    ensures
        texts(final(args)@) == texts(old(args)@) + flag_values(flag@, *values),
{
    if let Some(v) = values {
        args.push(string_of(flag));
        let ghost start = texts(args@);
        let mut i: usize = 0;
        while i < v.len()
            invariant
                i <= v.len(),
                texts(args@) == start + texts(v@.take(i as int)),
            decreases v.len() - i,
        {
            let ghost before = args@;
            args.push(v[i].clone());
            proof {
                lemma_texts_push(before, v@[i as int]);
                assert(v@.take(i + 1) =~= v@.take(i as int).push(v@[i as int]));
                lemma_texts_push(v@.take(i as int), v@[i as int]);
                assert(texts(args@) =~= start + texts(v@.take(i + 1)));
            }
            i = i + 1;
        }
        assert(v@.take(v.len() as int) =~= v@);
        assert(texts(args@) =~= texts(old(args)@) + flag_values(flag@, *values));
    } else {
        assert(texts(args@) =~= texts(old(args)@) + flag_values(flag@, *values));
    }
}

fn push_value(args: &mut Vec<String>, flag: &str, value: &Option<String>)
    ensures
        texts(final(args)@) == texts(old(args)@) + flag_value(flag@, *value),
{
    if let Some(v) = value {
        args.push(string_of(flag));
        args.push(v.clone());
    }
    assert(texts(args@) =~= texts(old(args)@) + flag_value(flag@, *value));
}

fn push_if(args: &mut Vec<String>, flag: &str, on: Option<bool>)
    ensures
        texts(final(args)@) == texts(old(args)@) + flag_if(flag@, on),
{
    if on == Some(true) {
        args.push(string_of(flag));
    }
    assert(texts(args@) =~= texts(old(args)@) + flag_if(flag@, on));
}

/// The arguments of the watch-list script: symbols to add, symbols to
/// remove, and `--watchlist-only`.
pub fn watchlist_update_args(body: &WatchlistUpdate) -> (args: Vec<String>)
    ensures
        texts(args@) == flag_values("--add"@, body.add) + flag_values("--remove"@, body.remove)
            + seq!["--watchlist-only"@],
{
    let mut args: Vec<String> = Vec::new();
    push_values(&mut args, "--add", &body.add);
    push_values(&mut args, "--remove", &body.remove);
    args.push(string_of("--watchlist-only"));
    assert(texts(args@) =~= flag_values("--add"@, body.add) + flag_values("--remove"@, body.remove)
        + seq!["--watchlist-only"@]);
    args
}

/// The arguments of the bar download script.
pub fn fetch_args(body: &FetchRequest) -> (args: Vec<String>)
    ensures
        texts(args@) == flag_values("--symbols"@, body.symbols) + flag_values("--timeframes"@, body.timeframes)
            + flag_value("--source"@, body.source) + flag_if("--full"@, body.full),
{
    let mut args: Vec<String> = Vec::new();
    push_values(&mut args, "--symbols", &body.symbols);
    push_values(&mut args, "--timeframes", &body.timeframes);
    push_value(&mut args, "--source", &body.source);
    push_if(&mut args, "--full", body.full);
    assert(texts(args@) =~= flag_values("--symbols"@, body.symbols) + flag_values("--timeframes"@, body.timeframes)
        + flag_value("--source"@, body.source) + flag_if("--full"@, body.full));
    args
}

/// The arguments of the pattern analysis script. The minimum confidence is
/// passed as the text it is written with.
pub fn analysis_args(
    symbols: &Option<Vec<String>>,
    patterns: &Option<Vec<String>>,
    min_confidence: &Option<String>,
    store: Option<bool>,
    update: Option<bool>,
    source: &Option<String>,
) -> (args: Vec<String>)
    ensures
        texts(args@) == flag_values("--symbols"@, *symbols) + flag_values("--patterns"@, *patterns)
            + flag_value("--min-confidence"@, *min_confidence) + flag_if("--store"@, store)
            + flag_if("--update"@, update) + flag_value("--source"@, *source),
{
    let mut args: Vec<String> = Vec::new();
    push_values(&mut args, "--symbols", symbols);
    push_values(&mut args, "--patterns", patterns);
    push_value(&mut args, "--min-confidence", min_confidence);
    push_if(&mut args, "--store", store);
    push_if(&mut args, "--update", update);
    push_value(&mut args, "--source", source);
    assert(texts(args@) =~= flag_values("--symbols"@, *symbols) + flag_values("--patterns"@, *patterns)
        + flag_value("--min-confidence"@, *min_confidence) + flag_if("--store"@, store)
        + flag_if("--update"@, update) + flag_value("--source"@, *source));
    args
}

/// A header made of `Bearer ` and a token carries exactly that token, so the
/// token a client was given, sent back as a bearer header, is the token read.
pub proof fn law_bearer_token_round_trip(token: Seq<char>)
    ensures
        ({
            let h = "Bearer "@ + token;
            h.len() >= 7 && h.take(7) == bearer_prefix() && h.skip(7) == token
        }),
{
    reveal_strlit("Bearer ");
    let h = "Bearer "@ + token;
    assert(h.take(7) =~= "Bearer "@);
    assert(h.skip(7) =~= token);
}

/// The status answered for each kind of error: 400 for an invalid request,
/// 401 for a failed or missing authentication, 403 for a forbidden one, 404
/// for what does not exist, and 500 for failures of the server or the broker.
pub proof fn law_error_statuses(m: String)
    ensures
        status_of(AppError::ValidationError(m)) == 400,
        status_of(AppError::AuthError(m)) == 401,
        status_of(AppError::Unauthorized(m)) == 401,
        status_of(AppError::Forbidden(m)) == 403,
        status_of(AppError::NotFound(m)) == 404,
        status_of(AppError::Internal(m)) == 500,
        status_of(AppError::ApiError(m)) == 500,
{
}

} // verus!
