use alpaca_trading3web::alpaca::{AlpacaClient, ALPACA_LIVE_URL, ALPACA_PAPER_URL};
use alpaca_trading3web::auth::{init, login_with_token, save_api_keys, AuthState, Config};
use alpaca_trading3web::routes::{
    analysis_args, fetch_args, watchlist_update_args, FetchRequest, WatchlistUpdate,
    extract_token, get_authenticated_client, get_username_from_headers, order_rejection, stop_all_response,
    strategy_action_response, AppError,
};

#[test]
fn test_app_error_into_response() {
    let err = AppError::ValidationError("test validation error".to_string());
    assert_eq!(err.status_code(), 400);

    let err = AppError::Unauthorized("test unauthorized".to_string());
    assert_eq!(err.status_code(), 401);

    let err = AppError::Forbidden("test forbidden".to_string());
    assert_eq!(err.status_code(), 403);

    let err = AppError::NotFound("test not found".to_string());
    assert_eq!(err.status_code(), 404);
}

#[test]
fn error_statuses_and_messages() {
    assert_eq!(AppError::AuthError("a".to_string()).status_code(), 401);
    assert_eq!(AppError::Internal("b".to_string()).status_code(), 500);
    assert_eq!(AppError::ApiError("c".to_string()).status_code(), 500);
    assert_eq!(AppError::NotFound("missing".to_string()).message(), "missing");
}

#[test]
fn bearer_tokens() {
    assert!(matches!(extract_token(None), Err(AppError::Unauthorized(m)) if m == "Missing Authorization header"));
    assert!(matches!(extract_token(Some("Basic abc")), Err(AppError::Unauthorized(m)) if m == "Invalid Authorization header format"));
    assert!(matches!(extract_token(Some("Bearer")), Err(AppError::Unauthorized(_))));
    assert_eq!(extract_token(Some("Bearer abc")).unwrap(), "abc");
    assert_eq!(extract_token(Some("Bearer ")).unwrap(), "");
}

fn signed_in() -> (AuthState, Config) {
    let config = Config::default_config();
    let mut state = AuthState::new();
    init(&mut state, &config);
    login_with_token(&mut state, "admin", "admin123", "tok".to_string()).unwrap();
    (state, config)
}

#[test]
fn username_from_headers() {
    let (state, _config) = signed_in();
    assert_eq!(get_username_from_headers(&state, Some("Bearer tok")).unwrap(), "admin");
    assert!(matches!(
        get_username_from_headers(&state, Some("Bearer other")),
        Err(AppError::Unauthorized(m)) if m == "Invalid or expired token"
    ));
}

#[test]
fn authenticated_client_sources() {
    let (state, mut config) = signed_in();
    let refused = get_authenticated_client(&state, &config, Some("Bearer tok"), &None);
    assert!(matches!(refused, Err(AppError::Forbidden(_))));
    save_api_keys(&mut config, "admin", "k", "s", "live").unwrap();
    let own = get_authenticated_client(&state, &config, Some("Bearer tok"), &None).unwrap();
    assert_eq!(own.api_key, "k");
    assert_eq!(own.base_url, ALPACA_LIVE_URL);
    save_api_keys(&mut config, "admin", "k2", "s2", "paper").unwrap();
    let own = get_authenticated_client(&state, &config, Some("Bearer tok"), &None).unwrap();
    assert_eq!(own.api_key, "k2");
    assert_eq!(own.base_url, ALPACA_PAPER_URL);
    let shared = Some(AlpacaClient::with_keys("shared", "pw").unwrap());
    let c = get_authenticated_client(&state, &config, Some("Bearer tok"), &shared).unwrap();
    assert_eq!(c.api_key, "shared");
    assert!(get_authenticated_client(&state, &config, Some("Bearer nope"), &shared).is_err());
}

#[test]
fn order_replies() {
    assert!(matches!(order_rejection(Some("insufficient"), false), Some(AppError::ValidationError(m)) if m == "insufficient"));
    assert!(order_rejection(Some("note"), true).is_none());
    assert!(order_rejection(None, false).is_none());
}

#[test]
fn strategy_replies() {
    let ok = strategy_action_response(3, true, Ok(()));
    assert!(ok.success);
    assert_eq!(ok.message, "Strategy 3 started successfully");
    let stopped = strategy_action_response(12, false, Ok(()));
    assert_eq!(stopped.message, "Strategy 12 stopped successfully");
    let refused = strategy_action_response(3, true, Err("Strategy is already running".to_string()));
    assert!(!refused.success);
    assert_eq!(refused.message, "Strategy is already running");
    let all = stop_all_response(&vec![(1, "stopped".to_string()), (4, "stopped".to_string())]);
    assert!(all.success);
}

#[test]
fn script_arguments() {
    let w = WatchlistUpdate { add: Some(vec!["AAPL".to_string(), "MSFT".to_string()]), remove: None };
    assert_eq!(watchlist_update_args(&w), vec!["--add", "AAPL", "MSFT", "--watchlist-only"]);
    let f = FetchRequest {
        symbols: Some(vec!["SPY".to_string()]),
        timeframes: None,
        source: Some("yahoo".to_string()),
        full: Some(true),
    };
    assert_eq!(fetch_args(&f), vec!["--symbols", "SPY", "--source", "yahoo", "--full"]);
    let off = FetchRequest { symbols: None, timeframes: None, source: None, full: Some(false) };
    assert!(fetch_args(&off).is_empty());
    let a = analysis_args(&None, &Some(vec!["flag".to_string()]), &Some("0.7".to_string()), Some(true), None, &None);
    assert_eq!(a, vec!["--patterns", "flag", "--min-confidence", "0.7", "--store"]);
}
