use alpaca_trading3web::assoc::StrMap;
use alpaca_trading3web::auth::{
    change_password, env_file_content, generate_token, get_api_key_status, get_api_keys, hash_password, init, login,
    login_with_token, logout, save_api_keys, set_mock_api_keys, token_from_instant, verify_token, ApiKeyConfig,
    AuthState, Config, User,
};

fn admin_state() -> (AuthState, Config) {
    let config = Config::default_config();
    let mut state = AuthState::new();
    init(&mut state, &config);
    (state, config)
}

#[test]
fn test_hash_password_consistency() {
    let hash1 = hash_password("test_password");
    let hash2 = hash_password("test_password");
    assert_eq!(hash1, hash2, "Same password should produce same hash");
}

#[test]
fn test_hash_password_uniqueness() {
    let hash1 = hash_password("password1");
    let hash2 = hash_password("password2");
    assert_ne!(hash1, hash2, "Different passwords should produce different hashes");
}

#[test]
fn test_hash_password_not_empty() {
    let hash = hash_password("test");
    assert!(!hash.is_empty(), "Hash should not be empty");
}

#[test]
fn test_generate_token_format() {
    let token = generate_token();
    assert!(token.chars().all(|c| c.is_ascii_hexdigit()), "Token should be hexadecimal");
}

#[test]
fn test_api_key_config_clone() {
    let config = ApiKeyConfig {
        api_key: "key".to_string(),
        api_secret: "secret".to_string(),
        environment: "paper".to_string(),
    };
    let cloned = config.clone();
    assert_eq!(config.api_key, cloned.api_key);
    assert_eq!(config.api_secret, cloned.api_secret);
    assert_eq!(config.environment, cloned.environment);
}

#[test]
fn test_config_default() {
    let config = Config::default_config();
    assert!(!config.users.is_empty(), "Default config should have at least one user");
    assert_eq!(config.users[0].username, "admin");
}

#[test]
fn hash_is_lowercase_hex_of_the_hasher_value() {
    let h = hash_password("admin123");
    assert!(h.chars().all(|c| c.is_ascii_digit() || ('a'..='f').contains(&c)));
    assert!(!h.is_empty() && h.len() <= 16);
}

#[test]
fn token_from_instant_is_a_function_of_the_instant() {
    assert_eq!(token_from_instant(42), token_from_instant(42));
    assert_ne!(token_from_instant(42), token_from_instant(43));
}

#[test]
fn default_admin_logs_in_and_token_verifies() {
    let (mut state, _config) = admin_state();
    let resp = login(&mut state, "admin", "admin123").expect("default admin login");
    assert_eq!(resp.username, "admin");
    assert_eq!(verify_token(&state, &resp.token), Some("admin".to_string()));
}

#[test]
fn wrong_password_or_unknown_user_is_refused() {
    let (mut state, _config) = admin_state();
    assert!(login(&mut state, "admin", "nope").is_none());
    assert!(login(&mut state, "ghost", "admin123").is_none());
}

#[test]
fn logout_ends_only_that_session() {
    let (mut state, _config) = admin_state();
    login_with_token(&mut state, "admin", "admin123", "t1".to_string()).unwrap();
    login_with_token(&mut state, "admin", "admin123", "t2".to_string()).unwrap();
    logout(&mut state, "t1");
    assert_eq!(verify_token(&state, "t1"), None);
    assert_eq!(verify_token(&state, "t2"), Some("admin".to_string()));
}

#[test]
fn init_drops_sessions_and_loads_later_users_last() {
    let (mut state, _config) = admin_state();
    login_with_token(&mut state, "admin", "admin123", "t1".to_string()).unwrap();
    let config = Config {
        users: vec![
            User { username: "bob".to_string(), password_hash: hash_password("one") },
            User { username: "bob".to_string(), password_hash: hash_password("two") },
        ],
        api_keys: StrMap::new(),
    };
    init(&mut state, &config);
    assert_eq!(verify_token(&state, "t1"), None);
    assert!(login(&mut state, "bob", "one").is_none());
    assert!(login(&mut state, "bob", "two").is_some());
    assert!(login(&mut state, "admin", "admin123").is_none());
}

#[test]
fn change_password_errors_and_effect() {
    let (mut state, mut config) = admin_state();
    assert_eq!(change_password(&mut state, &mut config, "ghost", "x", "y"), Err("User not found".to_string()));
    assert_eq!(
        change_password(&mut state, &mut config, "admin", "wrong", "y"),
        Err("Current password is incorrect".to_string())
    );
    assert_eq!(change_password(&mut state, &mut config, "admin", "admin123", "s3cret"), Ok(()));
    assert_eq!(config.users[0].password_hash, hash_password("s3cret"));
    assert!(login(&mut state, "admin", "admin123").is_none());
    assert!(login(&mut state, "admin", "s3cret").is_some());
}

#[test]
fn saved_keys_and_stand_in_keys() {
    let (mut state, mut config) = admin_state();
    assert_eq!(get_api_key_status(&config, "admin"), (false, None));
    assert_eq!(get_api_keys(&state, &config, "admin"), None);
    save_api_keys(&mut config, "admin", "k", "s", "live").unwrap();
    assert_eq!(get_api_key_status(&config, "admin"), (true, Some("live".to_string())));
    assert_eq!(
        get_api_keys(&state, &config, "admin"),
        Some(("k".to_string(), "s".to_string(), "live".to_string()))
    );
    set_mock_api_keys(&mut state, "admin", "mk", "ms", "paper");
    assert_eq!(
        get_api_keys(&state, &config, "admin"),
        Some(("mk".to_string(), "ms".to_string(), "paper".to_string()))
    );
}

#[test]
fn env_file_lists_the_keys() {
    let text = env_file_content("KEY", "SECRET", "paper");
    assert!(text.starts_with("# Alpaca API Credentials\n"));
    assert!(text.contains("\nALPACA_API_KEY=KEY\nALPACA_API_SECRET=SECRET\n"));
    assert!(text.ends_with("ALPACA_ENV=paper\n"));
}

#[test]
fn login_tokens_are_lower_case_hex() {
    let (mut state, _config) = admin_state();
    let resp = login(&mut state, "admin", "admin123").unwrap();
    assert!(!resp.token.is_empty());
    assert!(resp.token.chars().all(|c| c.is_ascii_digit() || ('a'..='f').contains(&c)));
}
