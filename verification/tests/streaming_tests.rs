use alpaca_trading3web::models::{CredentialEnvironment, DataProvider};
use alpaca_trading3web::streaming::{
    broker_stream_url, feed_tick, market_stream_url, SymbolSet, StreamRegistry, message_kind, rate_limit_message, stream_matches, symbols_for_feed, top_option_contracts, ClientSession,
    EventRoute, MessageKind, OptionContractSnapshot, WsAction, WsManager, WsUpdateKind,
};

fn strings(v: &[&str]) -> Vec<String> {
    v.iter().map(|s| s.to_string()).collect()
}

fn sorted(mut v: Vec<String>) -> Vec<String> {
    v.sort();
    v
}

#[test]
fn feed_keeps_what_clients_asked_for() {
    let mut feed = WsManager::new();
    assert!(feed.get_active_symbols().is_empty());
    feed.add_symbols(&strings(&["AAPL", "MSFT", "AAPL"]));
    feed.remove_symbols(&strings(&["AAPL"]));
    assert_eq!(sorted(feed.get_active_symbols()), strings(&["AAPL", "MSFT"]));
}

#[test]
fn rate_limit_five_per_second() {
    let mut s = ClientSession::new(0);
    for _ in 0..5 {
        assert!(s.admit_request(100));
    }
    assert!(!s.admit_request(200));
    assert!(s.admit_request(1_000_000_000));
    assert_eq!(rate_limit_message(), "Rate limit exceeded (5 requests per second)");
}

#[test]
fn subscribe_caps_at_one_hundred_and_unsubscribe_undoes() {
    let mut s = ClientSession::new(0);
    let many: Vec<String> = (0..150).map(|i| format!("S{i}")).collect();
    let added = s.subscribe(many.clone());
    assert_eq!(added.len(), 100);
    assert_eq!(added[..], many[..100]);
    assert_eq!(s.subscribed_symbols().len(), 100);
    assert!(s.subscribe(strings(&["NEW"])).is_empty());
    s.unsubscribe(&many);
    assert!(s.subscribed_symbols().is_empty());
}

#[test]
fn subscribe_reports_only_new_symbols() {
    let mut s = ClientSession::new(0);
    assert_eq!(s.subscribe(strings(&["AAPL", "MSFT"])), strings(&["AAPL", "MSFT"]));
    assert_eq!(s.subscribe(strings(&["MSFT", "TSLA", "TSLA"])), strings(&["TSLA"]));
    assert!(s.should_send(&WsUpdateKind::Trade { symbol: "TSLA".to_string() }));
    assert!(s.should_send(&WsUpdateKind::Quote { symbol: "AAPL".to_string() }));
    assert!(!s.should_send(&WsUpdateKind::Trade { symbol: "SPY".to_string() }));
    assert!(!s.should_send(&WsUpdateKind::Error));
    assert!(!s.should_send(&WsUpdateKind::SubscriptionStatus));
}

#[test]
fn actions_update_client_and_feed() {
    let mut s = ClientSession::new(0);
    let mut feed = WsManager::new();
    let r = s.apply_action(&mut feed, WsAction::Subscribe { symbols: strings(&["AAPL", "SPY"]) });
    assert_eq!(r.newly_added, strings(&["AAPL", "SPY"]));
    assert_eq!(sorted(r.subscribed), strings(&["AAPL", "SPY"]));
    assert_eq!(sorted(feed.get_active_symbols()), strings(&["AAPL", "SPY"]));
    let r = s.apply_action(&mut feed, WsAction::Unsubscribe { symbols: strings(&["AAPL"]) });
    assert!(r.newly_added.is_empty());
    assert_eq!(r.subscribed, strings(&["SPY"]));
    assert_eq!(sorted(feed.get_active_symbols()), strings(&["AAPL", "SPY"]));
}

#[test]
fn feeds_split_options_from_stocks() {
    let all = strings(&["AAPL", "SPY260621C00500000", "MSFT", "ABCDEFGHIJK"]);
    assert_eq!(symbols_for_feed(&all, true), strings(&["SPY260621C00500000"]));
    assert_eq!(symbols_for_feed(&all, false), strings(&["AAPL", "MSFT", "ABCDEFGHIJK"]));
}

#[test]
fn upstream_message_kinds() {
    assert_eq!(message_kind("t"), MessageKind::Trade);
    assert_eq!(message_kind("trd"), MessageKind::Trade);
    assert_eq!(message_kind("q"), MessageKind::Quote);
    assert_eq!(message_kind("qte"), MessageKind::Quote);
    assert_eq!(message_kind("b"), MessageKind::Other);
}

#[test]
fn stream_routing() {
    let ids = strings(&["s1", "s2"]);
    let market = EventRoute::Market { provider: DataProvider::Alpaca, symbol: "SPY".to_string() };
    assert!(stream_matches(&market, DataProvider::Alpaca, "SPY", &ids, None));
    assert!(!stream_matches(&market, DataProvider::Yahoo, "SPY", &ids, None));
    assert!(!stream_matches(&market, DataProvider::Alpaca, "QQQ", &ids, None));
    let sync = EventRoute::BrokerSync { credential_id: "c1".to_string(), strategy_ids: strings(&["x", "s2"]) };
    assert!(stream_matches(&sync, DataProvider::Yahoo, "SPY", &ids, None));
    let other_sync = EventRoute::BrokerSync { credential_id: "c1".to_string(), strategy_ids: strings(&["x"]) };
    assert!(stream_matches(&other_sync, DataProvider::Yahoo, "SPY", &ids, Some("c1")));
    assert!(!stream_matches(&other_sync, DataProvider::Yahoo, "SPY", &ids, Some("c2")));
    let status = EventRoute::Status { channel: "market".to_string(), provider: Some(DataProvider::Yahoo), symbol: Some("SPY".to_string()) };
    assert!(stream_matches(&status, DataProvider::Yahoo, "SPY", &ids, None));
    assert!(!stream_matches(&status, DataProvider::Alpaca, "SPY", &ids, None));
    let broker = EventRoute::Status { channel: "broker".to_string(), provider: None, symbol: None };
    assert!(!stream_matches(&broker, DataProvider::Yahoo, "SPY", &ids, None));
    assert!(stream_matches(&broker, DataProvider::Yahoo, "SPY", &ids, Some("c")));
    let misc = EventRoute::Status { channel: "system".to_string(), provider: None, symbol: None };
    assert!(stream_matches(&misc, DataProvider::Yahoo, "SPY", &ids, None));
    let log = EventRoute::Log { strategy_id: "s1".to_string() };
    assert!(stream_matches(&log, DataProvider::Yahoo, "SPY", &ids, None));
    let log = EventRoute::Log { strategy_id: "s3".to_string() };
    assert!(!stream_matches(&log, DataProvider::Yahoo, "SPY", &ids, None));
}

fn contract(name: &str, rank: u64) -> OptionContractSnapshot {
    OptionContractSnapshot {
        contract_symbol: name.to_string(),
        option_type: "call".to_string(),
        expiration: "2026-06-19".to_string(),
        volume_rank: rank,
    }
}

#[test]
fn top_contracts_by_volume_stable() {
    let input = vec![contract("a", 1), contract("b", 5), contract("c", 3), contract("d", 5)];
    let top = top_option_contracts(input);
    let names: Vec<&str> = top.iter().map(|c| c.contract_symbol.as_str()).collect();
    assert_eq!(names, vec!["b", "d", "c", "a"]);
    let many: Vec<OptionContractSnapshot> = (0..30).map(|i| contract(&format!("k{i}"), i)).collect();
    let top = top_option_contracts(many);
    assert_eq!(top.len(), 20);
    assert_eq!(top[0].contract_symbol, "k29");
    assert_eq!(top[19].contract_symbol, "k10");
}

#[test]
fn feed_ticks_resubscribe_only_on_change() {
    let mut last = SymbolSet::new();
    let current = strings(&["AAPL", "SPY260621C00500000"]);
    assert_eq!(feed_tick(&mut last, &current, false), Some(strings(&["AAPL"])));
    assert_eq!(feed_tick(&mut last, &current, false), None);
    let reordered = strings(&["SPY260621C00500000", "AAPL"]);
    assert_eq!(feed_tick(&mut last, &reordered, false), None);
    let options_only = strings(&["SPY260621C00500000"]);
    assert_eq!(feed_tick(&mut last, &options_only, false), None);
    assert!(last.contains("SPY260621C00500000"));
    assert!(!last.contains("AAPL"));
    let mut options_last = SymbolSet::new();
    assert_eq!(feed_tick(&mut options_last, &current, true), Some(strings(&["SPY260621C00500000"])));
}

#[test]
fn server_streams_start_once() {
    let mut reg = StreamRegistry::new();
    assert!(reg.claim_market(DataProvider::Alpaca, "SPY"));
    assert!(!reg.claim_market(DataProvider::Alpaca, "SPY"));
    assert!(reg.claim_market(DataProvider::Yahoo, "SPY"));
    reg.release_market(DataProvider::Alpaca, "SPY");
    assert!(reg.claim_market(DataProvider::Alpaca, "SPY"));
    assert!(reg.claim_broker("cred-1"));
    assert!(!reg.claim_broker("cred-1"));
    reg.release_broker("cred-1");
    assert!(reg.claim_broker("cred-1"));
}

#[test]
fn stream_addresses() {
    assert_eq!(market_stream_url(CredentialEnvironment::Paper), "wss://stream.data.alpaca.markets/v2/iex");
    assert_eq!(market_stream_url(CredentialEnvironment::Live), "wss://stream.data.alpaca.markets/v2/sip");
    assert_eq!(broker_stream_url(CredentialEnvironment::Paper), "wss://paper-api.alpaca.markets/stream");
    assert_eq!(broker_stream_url(CredentialEnvironment::Live), "wss://api.alpaca.markets/stream");
}

#[test]
fn repeated_subscription_changes_nothing() {
    let mut s = ClientSession::new(0);
    let syms = strings(&["A", "B", "A"]);
    s.subscribe(syms.clone());
    let before = sorted(s.subscribed_symbols());
    assert!(s.subscribe(syms).is_empty());
    assert_eq!(sorted(s.subscribed_symbols()), before);
}
