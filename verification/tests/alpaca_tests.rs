use alpaca_trading3web::alpaca::{
    occ_expiration_matches, option_snapshots_url, parse_option_symbol, quote_url, snapshot_key_matches, symbol_without_spaces, AlpacaClient, ALPACA_DATA_URL,
    ALPACA_LIVE_URL, ALPACA_OPTIONS_URL, ALPACA_PAPER_URL,
};

#[test]
fn test_alpaca_client_with_keys() {
    let result = AlpacaClient::with_keys("test_key", "test_secret");
    assert!(result.is_ok());
    let client = result.unwrap();
    assert_eq!(client.api_key, "test_key");
    assert_eq!(client.api_secret, "test_secret");
}

#[test]
fn test_alpaca_client_base_url_default_paper() {
    let client = AlpacaClient::with_keys("key", "secret").unwrap();
    assert_eq!(client.base_url, ALPACA_PAPER_URL);
}

#[test]
fn test_alpaca_client_clone() {
    let client1 = AlpacaClient::with_keys("key123", "secret456").unwrap();
    let client2 = client1.clone();
    assert_eq!(client1.api_key, client2.api_key);
    assert_eq!(client1.api_secret, client2.api_secret);
    assert_eq!(client1.base_url, client2.base_url);
}

#[test]
fn test_build_headers() {
    let client = AlpacaClient::with_keys("test_key_123", "test_secret_456").unwrap();
    let headers = client.build_headers();
    assert!(headers.iter().any(|(name, _)| name == "APCA-API-KEY-ID"));
    assert!(headers.iter().any(|(name, _)| name == "APCA-API-SECRET-KEY"));
}

#[test]
fn test_alpaca_urls_constants() {
    assert!(ALPACA_PAPER_URL.contains("paper-api"));
    assert!(ALPACA_LIVE_URL.contains("api.alpaca.markets"));
    assert!(ALPACA_DATA_URL.contains("data.alpaca.markets"));
    assert!(ALPACA_OPTIONS_URL.contains("options"));
}

#[test]
fn test_strike_increment_calculation_low_price() {
    let price = 20.0;
    let increment = if price < 25.0 { 0.5 } else if price < 200.0 { 1.0 } else { 5.0 };
    assert_eq!(increment, 0.5);
}

#[test]
fn test_strike_increment_calculation_mid_price() {
    let price = 100.0;
    let increment = if price < 25.0 { 0.5 } else if price < 200.0 { 1.0 } else { 5.0 };
    assert_eq!(increment, 1.0);
}

#[test]
fn test_strike_increment_calculation_high_price() {
    let price = 500.0;
    let increment = if price < 25.0 { 0.5 } else if price < 200.0 { 1.0 } else { 5.0 };
    assert_eq!(increment, 5.0);
}

#[test]
fn test_strike_below_calculation() {
    let current_price: f64 = 100.5;
    let strike_increment: f64 = 1.0;
    let strike_at_or_below = (current_price / strike_increment).floor() * strike_increment;
    assert!((strike_at_or_below - 100.0).abs() < 0.0001);
}

#[test]
fn test_strike_above_calculation() {
    let current_price: f64 = 100.3;
    let strike_increment: f64 = 1.0;
    let strike_at_or_above = (current_price / strike_increment).ceil() * strike_increment;
    assert!((strike_at_or_above - 101.0).abs() < 0.0001);
}

#[test]
fn test_option_symbol_parsing() {
    let occ_symbol = "SPY260621C00500000";
    let underlying = if let Some(pos) = occ_symbol.find(|c: char| c.is_ascii_digit()) {
        occ_symbol[..pos].to_string()
    } else {
        "SPY".to_string()
    };
    assert_eq!(underlying, "SPY");
    let (parsed, option_type) = parse_option_symbol(occ_symbol);
    assert_eq!(parsed, "SPY");
    assert_eq!(option_type, "call");
}

#[test]
fn test_option_strike_from_occ() {
    let occ_symbol = "SPY260621C00500000";
    let strike_part = &occ_symbol[occ_symbol.len() - 8..];
    let strike_val: f64 = strike_part.parse().unwrap();
    let strike_price = strike_val / 1000.0;
    assert_eq!(strike_price, 500.0);
}

#[test]
fn test_option_type_detection_call() {
    let occ_symbol = "SPY260621C00500000";
    let is_call = occ_symbol.len() > 10 && occ_symbol.as_bytes()[9] as char == 'C';
    assert!(is_call, "Position 9 (after YYMMDD) should be 'C' for call");
    assert_eq!(parse_option_symbol(occ_symbol).1, "call");
}

#[test]
fn test_option_type_detection_put() {
    let occ_symbol = "SPY260621P00500000";
    let is_put = occ_symbol.len() > 10 && occ_symbol.as_bytes()[9] as char == 'P';
    assert!(is_put, "Position 9 (after YYMMDD) should be 'P' for put");
    assert_eq!(parse_option_symbol(occ_symbol).1, "put");
}

#[test]
fn test_price_range_filtering() {
    let underlying_price: f64 = 100.0;
    let min_range = underlying_price * 0.9;
    let max_range = underlying_price * 1.1;

    assert!((min_range - 90.0).abs() < 0.0001);
    assert!((max_range - 110.0).abs() < 0.0001);

    let strikes = vec![85.0, 90.0, 100.0, 110.0, 115.0];
    let filtered: Vec<_> = strikes.iter().filter(|s| **s >= min_range && **s <= max_range).collect();

    assert_eq!(filtered.len(), 3);
    assert_eq!(filtered[0], &90.0);
    assert_eq!(filtered[1], &100.0);
    assert_eq!(filtered[2], &110.0);
}

#[test]
fn client_from_settings_requires_key_and_secret() {
    let missing_key = AlpacaClient::new(None, Some("s".to_string()), None);
    assert_eq!(missing_key.err(), Some("ALPACA_API_KEY not set"));
    let missing_secret = AlpacaClient::new(Some("k".to_string()), None, None);
    assert_eq!(missing_secret.err(), Some("ALPACA_API_SECRET not set"));
}

#[test]
fn client_from_settings_picks_environment() {
    let live = AlpacaClient::new(Some("k".to_string()), Some("s".to_string()), Some("live".to_string())).unwrap();
    assert_eq!(live.base_url, ALPACA_LIVE_URL);
    let other = AlpacaClient::new(Some("k".to_string()), Some("s".to_string()), Some("Live".to_string())).unwrap();
    assert_eq!(other.base_url, ALPACA_PAPER_URL);
    let none = AlpacaClient::new(Some("k".to_string()), Some("s".to_string()), None).unwrap();
    assert_eq!(none.base_url, ALPACA_PAPER_URL);
}

#[test]
fn build_headers_carries_values_and_skips_invalid_ones() {
    let client = AlpacaClient::with_keys("abc", "def").unwrap();
    let headers = client.build_headers();
    assert_eq!(headers.len(), 2);
    assert_eq!(headers[0], ("APCA-API-KEY-ID".to_string(), "abc".to_string()));
    assert_eq!(headers[1], ("APCA-API-SECRET-KEY".to_string(), "def".to_string()));
    let bad = AlpacaClient::with_keys("line\nbreak", "ok").unwrap();
    let headers = bad.build_headers();
    assert_eq!(headers.len(), 1);
    assert_eq!(headers[0].0, "APCA-API-SECRET-KEY");
}

#[test]
fn endpoint_addresses() {
    let client = AlpacaClient::with_keys("k", "s").unwrap();
    assert_eq!(client.account_url(), "https://paper-api.alpaca.markets/v2/account");
    assert_eq!(client.positions_url(), "https://paper-api.alpaca.markets/v2/positions");
    assert_eq!(client.orders_url(None), "https://paper-api.alpaca.markets/v2/orders");
    assert_eq!(client.orders_url(Some("open")), "https://paper-api.alpaca.markets/v2/orders?status=open");
    assert_eq!(client.order_url("abc"), "https://paper-api.alpaca.markets/v2/orders/abc");
    assert_eq!(quote_url(ALPACA_DATA_URL, "SPY"), "https://data.alpaca.markets/v2/stocks/SPY/quotes/latest");
    assert_eq!(
        option_snapshots_url(ALPACA_OPTIONS_URL, "SPY", "put"),
        "https://data.alpaca.markets/v1beta1/options/snapshots/SPY?feed=indicative&type=put"
    );
    assert_eq!(quote_url("http://127.0.0.1:9/v2", "QQQ"), "http://127.0.0.1:9/v2/stocks/QQQ/quotes/latest");
}

#[test]
fn option_symbol_with_spaces_and_short_roots() {
    let (underlying, kind) = parse_option_symbol("SPY   260621P00500000");
    assert_eq!(underlying, "SPY   ");
    assert_eq!(kind, "put");
    let (underlying, kind) = parse_option_symbol("ABC");
    assert_eq!(underlying, "ABC");
    assert_eq!(kind, "call");
    assert_eq!(symbol_without_spaces("SPY  260621C00500000"), "SPY260621C00500000");
    let wanted: Vec<char> = "SPY260621C00500000".chars().collect();
    assert!(snapshot_key_matches("SPY 260621C00500000", &wanted));
    assert!(!snapshot_key_matches("QQQ260621C00500000", &wanted));
}

#[test]
fn saved_environment_selects_the_api() {
    let live = AlpacaClient::for_environment("k", "s", "live");
    assert_eq!(live.base_url, ALPACA_LIVE_URL);
    assert_eq!(live.api_key, "k");
    let paper = AlpacaClient::for_environment("k", "s", "paper");
    assert_eq!(paper.base_url, ALPACA_PAPER_URL);
    assert_eq!(AlpacaClient::for_environment("k", "s", "LIVE").base_url, ALPACA_PAPER_URL);
}

#[test]
fn contracts_by_expiration() {
    assert!(occ_expiration_matches("SPY260619C00500000", "2026-06-19"));
    assert!(!occ_expiration_matches("SPY260626C00500000", "2026-06-19"));
    assert!(occ_expiration_matches("SPY260626P00500000", "260626"));
    assert!(occ_expiration_matches("SPY   260619P00500000", "2026-06-19"));
    assert!(!occ_expiration_matches("SPY", "2026-06-19"));
    assert!(!occ_expiration_matches("SPY2606", "2026-06-19"));
    assert!(!occ_expiration_matches("SPY260619C00500000", "June 19"));
}
