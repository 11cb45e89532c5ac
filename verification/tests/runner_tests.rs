use alpaca_trading3web::models::{AssetClassTarget, CredentialEnvironment, DataProvider, ExecutionMode};
use alpaca_trading3web::routes::AppError;
use alpaca_trading3web::runner::{
    check_broker_sync, check_live_confirmation, data_provider_for, missing_strategy_error, option_provider_for, run_step, run_symbols,
    trade_gate, trade_provider_for, LatestInfo, OptionCredential, PrepareOutcome, RunAction, RunEnd, RunEvent, RunNote, RunState, Stage,
    StrategyInfo, TradeGate,
};

fn strategy(mode: ExecutionMode, target: AssetClassTarget, watched: &[&str]) -> RunEvent {
    RunEvent::StrategyLoaded(Some(StrategyInfo { mode, target, watched: watched.iter().map(|s| s.to_string()).collect() }))
}

fn latest(mode: ExecutionMode, target: AssetClassTarget) -> RunEvent {
    RunEvent::LatestLoaded(Some(LatestInfo { mode, target }))
}

/// Feeds the events in turn and returns the state and the last action.
fn drive(symbol_override: Option<&str>, events: Vec<RunEvent>) -> (RunState, RunAction) {
    let (mut state, mut action) = RunState::start(symbol_override.map(|s| s.to_string()));
    assert!(matches!(action, RunAction::LoadStrategy));
    for e in events {
        assert!(state.accepts(&e));
        let (s, a) = run_step(state, e);
        state = s;
        action = a;
    }
    (state, action)
}

#[test]
fn symbols_visited() {
    let watched = vec!["AAPL".to_string(), "MSFT".to_string()];
    assert_eq!(run_symbols(Some("SPY"), &watched), vec!["SPY".to_string()]);
    assert_eq!(run_symbols(None, &watched), watched);
}

#[test]
fn providers() {
    assert_eq!(data_provider_for(true), DataProvider::Alpaca);
    assert_eq!(data_provider_for(false), DataProvider::Yahoo);
    assert_eq!(option_provider_for(AssetClassTarget::Options, ExecutionMode::AlpacaPaper, DataProvider::Yahoo), DataProvider::Alpaca);
    assert_eq!(option_provider_for(AssetClassTarget::Options, ExecutionMode::LocalPaper, DataProvider::Yahoo), DataProvider::Yahoo);
    assert_eq!(option_provider_for(AssetClassTarget::Equity, ExecutionMode::AlpacaLive, DataProvider::Yahoo), DataProvider::Yahoo);
    assert_eq!(trade_provider_for(AssetClassTarget::Options, DataProvider::Alpaca, DataProvider::Yahoo), DataProvider::Alpaca);
    assert_eq!(trade_provider_for(AssetClassTarget::Equity, DataProvider::Alpaca, DataProvider::Yahoo), DataProvider::Yahoo);
}

#[test]
fn trade_gates() {
    assert!(matches!(trade_gate(true, ExecutionMode::AlpacaLive, None), TradeGate::Hold));
    assert!(matches!(trade_gate(false, ExecutionMode::LocalPaper, None), TradeGate::Prepare { needs_broker_order: false }));
    assert!(matches!(trade_gate(false, ExecutionMode::AlpacaPaper, None), TradeGate::Skip(m) if m == "Missing Alpaca trading credential"));
    assert!(matches!(
        trade_gate(false, ExecutionMode::AlpacaLive, Some(CredentialEnvironment::Paper)),
        TradeGate::Skip(m) if m == "Live mode selected but credential is not live"
    ));
    assert!(matches!(
        trade_gate(false, ExecutionMode::AlpacaLive, Some(CredentialEnvironment::Live)),
        TradeGate::Prepare { needs_broker_order: true }
    ));
    assert!(matches!(
        trade_gate(false, ExecutionMode::AlpacaPaper, Some(CredentialEnvironment::Live)),
        TradeGate::Prepare { needs_broker_order: true }
    ));
}

#[test]
fn broker_sync_needs_broker_mode() {
    assert!(check_broker_sync(ExecutionMode::AlpacaPaper).is_ok());
    assert!(matches!(
        check_broker_sync(ExecutionMode::LocalPaper),
        Err(AppError::ValidationError(m)) if m == "strategy is not configured for Alpaca execution"
    ));
}

#[test]
fn live_switch_needs_the_phrase() {
    assert!(check_live_confirmation(Some(ExecutionMode::AlpacaLive), Some("TRADE REAL MONEY")).is_ok());
    assert!(matches!(
        check_live_confirmation(Some(ExecutionMode::AlpacaLive), Some("trade real money")),
        Err(AppError::ValidationError(m)) if m == "live trading requires the confirmation phrase TRADE REAL MONEY"
    ));
    assert!(check_live_confirmation(Some(ExecutionMode::AlpacaLive), None).is_err());
    assert!(check_live_confirmation(Some(ExecutionMode::AlpacaPaper), None).is_ok());
    assert!(check_live_confirmation(None, None).is_ok());
}

#[test]
fn run_of_a_missing_strategy() {
    let (state, action) = drive(None, vec![RunEvent::StrategyLoaded(None)]);
    assert_eq!(state.stage, Stage::Finished);
    assert!(matches!(action, RunAction::Finish(RunEnd::StrategyMissing)));
    assert!(matches!(missing_strategy_error("s1"), AppError::NotFound(m) if m == "strategy s1"));
}

#[test]
fn local_run_trades_from_yahoo() {
    let (state, action) = drive(None, vec![strategy(ExecutionMode::LocalPaper, AssetClassTarget::Equity, &["AAPL"])]);
    assert_eq!(state.current_symbol(), Some("AAPL".to_string()));
    assert!(matches!(action, RunAction::FetchQuote { provider: DataProvider::Yahoo, with_data_credential: false }));
    let (state, action) = run_step(state, RunEvent::QuoteFetched);
    assert!(matches!(action, RunAction::LoadLatest));
    let (state, action) = run_step(state, latest(ExecutionMode::LocalPaper, AssetClassTarget::Equity));
    assert!(matches!(action, RunAction::EvaluateSignal));
    let (state, action) = run_step(state, RunEvent::SignalEvaluated { hold: false });
    assert!(matches!(action, RunAction::PrepareTrade { needs_broker_order: false }));
    let (state, action) = run_step(state, RunEvent::TradePrepared(PrepareOutcome::Ready { broker_order: false }));
    assert!(matches!(action, RunAction::RecordTrade { provider: DataProvider::Yahoo, reconciled: false }));
    let (state, action) = run_step(state, RunEvent::TradeRecorded);
    assert_eq!(state.stage, Stage::Finished);
    assert!(matches!(action, RunAction::Finish(RunEnd::Done)));
}

#[test]
fn run_visits_each_watched_symbol_then_syncs() {
    let (state, action) = drive(None, vec![strategy(ExecutionMode::AlpacaPaper, AssetClassTarget::Equity, &["AAPL", "MSFT"])]);
    assert!(matches!(action, RunAction::ResolveCredentials));
    assert_eq!(state.current_symbol(), Some("AAPL".to_string()));
    let (state, action) = run_step(state, RunEvent::CredentialsResolved { trading: Some(CredentialEnvironment::Paper), data: true });
    assert!(matches!(action, RunAction::FetchQuote { provider: DataProvider::Alpaca, with_data_credential: true }));
    let (state, _) = run_step(state, RunEvent::QuoteFetched);
    let (state, _) = run_step(state, latest(ExecutionMode::AlpacaPaper, AssetClassTarget::Equity));
    let (state, action) = run_step(state, RunEvent::SignalEvaluated { hold: true });
    assert!(matches!(action, RunAction::MarkSignal));
    let (state, action) = run_step(state, RunEvent::RunMarked);
    assert!(matches!(action, RunAction::ResolveCredentials));
    assert_eq!(state.current_symbol(), Some("MSFT".to_string()));
    let (state, action) = run_step(state, RunEvent::CredentialsResolved { trading: None, data: false });
    assert!(matches!(action, RunAction::FetchQuote { provider: DataProvider::Yahoo, with_data_credential: false }));
    let (state, _) = run_step(state, RunEvent::QuoteFetched);
    let (state, _) = run_step(state, latest(ExecutionMode::AlpacaPaper, AssetClassTarget::Equity));
    let (state, action) = run_step(state, RunEvent::SignalEvaluated { hold: false });
    match &action {
        RunAction::MarkRun(note) => assert_eq!(note.text(), "Missing Alpaca trading credential"),
        _ => panic!("expected a note"),
    }
    let (state, action) = run_step(state, RunEvent::RunMarked);
    assert!(matches!(action, RunAction::SyncBroker));
    let (state, action) = run_step(state, RunEvent::BrokerSynced);
    assert_eq!(state.stage, Stage::Finished);
    assert!(matches!(action, RunAction::Finish(RunEnd::Done)));
}

#[test]
fn live_run_with_paper_credential_is_marked() {
    let (state, _) = drive(Some("SPY"), vec![
        strategy(ExecutionMode::AlpacaLive, AssetClassTarget::Equity, &["AAPL", "MSFT"]),
        RunEvent::CredentialsResolved { trading: Some(CredentialEnvironment::Paper), data: false },
        RunEvent::QuoteFetched,
        latest(ExecutionMode::AlpacaLive, AssetClassTarget::Equity),
    ]);
    assert_eq!(state.current_symbol(), Some("SPY".to_string()));
    let (state, action) = run_step(state, RunEvent::SignalEvaluated { hold: false });
    match &action {
        RunAction::MarkRun(note) => assert_eq!(note.text(), "Live mode selected but credential is not live"),
        _ => panic!("expected a note"),
    }
    let (_, action) = run_step(state, RunEvent::RunMarked);
    assert!(matches!(action, RunAction::SyncBroker));
}

#[test]
fn broker_order_is_submitted_polled_and_recorded() {
    let (state, action) = drive(Some("SPY"), vec![
        strategy(ExecutionMode::AlpacaLive, AssetClassTarget::Options, &[]),
        RunEvent::CredentialsResolved { trading: Some(CredentialEnvironment::Live), data: false },
        RunEvent::QuoteFetched,
        latest(ExecutionMode::AlpacaLive, AssetClassTarget::Options),
    ]);
    assert!(matches!(action, RunAction::FetchOptions { provider: DataProvider::Alpaca, credential: OptionCredential::Trading }));
    let (state, _) = run_step(state, RunEvent::OptionsFetched);
    let (state, action) = run_step(state, RunEvent::SignalEvaluated { hold: false });
    assert!(matches!(action, RunAction::PrepareTrade { needs_broker_order: true }));
    let (state, action) = run_step(state, RunEvent::TradePrepared(PrepareOutcome::Ready { broker_order: true }));
    assert!(matches!(action, RunAction::SubmitOrder));
    let (state, action) = run_step(state, RunEvent::OrderSubmitted(Ok("o-1".to_string())));
    assert!(matches!(&action, RunAction::PollFill { order_id } if order_id == "o-1"));
    let (state, action) = run_step(state, RunEvent::FillReconciled(Ok(())));
    assert!(matches!(action, RunAction::RecordTrade { provider: DataProvider::Alpaca, reconciled: true }));
    let (_, action) = run_step(state, RunEvent::TradeRecorded);
    assert!(matches!(action, RunAction::SyncBroker));
}

#[test]
fn broker_failures_are_marked() {
    let (state, _) = drive(Some("SPY"), vec![
        strategy(ExecutionMode::AlpacaPaper, AssetClassTarget::Equity, &[]),
        RunEvent::CredentialsResolved { trading: Some(CredentialEnvironment::Paper), data: false },
        RunEvent::QuoteFetched,
        latest(ExecutionMode::AlpacaPaper, AssetClassTarget::Equity),
        RunEvent::SignalEvaluated { hold: false },
        RunEvent::TradePrepared(PrepareOutcome::Ready { broker_order: true }),
    ]);
    let (_, action) = run_step(state, RunEvent::OrderSubmitted(Err("rejected".to_string())));
    match &action {
        RunAction::MarkRun(note) => assert_eq!(note.text(), "Alpaca order submission failed: rejected"),
        _ => panic!("expected a note"),
    }
    let (state, _) = drive(Some("SPY"), vec![
        strategy(ExecutionMode::AlpacaPaper, AssetClassTarget::Equity, &[]),
        RunEvent::CredentialsResolved { trading: Some(CredentialEnvironment::Paper), data: false },
        RunEvent::QuoteFetched,
        latest(ExecutionMode::AlpacaPaper, AssetClassTarget::Equity),
        RunEvent::SignalEvaluated { hold: false },
        RunEvent::TradePrepared(PrepareOutcome::Ready { broker_order: true }),
        RunEvent::OrderSubmitted(Ok("o-2".to_string())),
    ]);
    let (_, action) = run_step(state, RunEvent::FillReconciled(Err("timed out".to_string())));
    match &action {
        RunAction::MarkRun(note) => assert_eq!(note.text(), "Alpaca fill reconciliation failed: timed out"),
        _ => panic!("expected a note"),
    }
}

#[test]
fn skipped_trade_and_failures() {
    let (state, _) = drive(None, vec![
        strategy(ExecutionMode::LocalPaper, AssetClassTarget::Options, &["QQQ"]),
        RunEvent::QuoteFetched,
    ]);
    let (state, action) = run_step(state, latest(ExecutionMode::LocalPaper, AssetClassTarget::Options));
    assert!(matches!(action, RunAction::FetchOptions { provider: DataProvider::Yahoo, credential: OptionCredential::NoCredential }));
    let (state, _) = run_step(state, RunEvent::OptionsFetched);
    let (state, _) = run_step(state, RunEvent::SignalEvaluated { hold: false });
    let (state, action) = run_step(state, RunEvent::TradePrepared(PrepareOutcome::Skip("no contract".to_string())));
    assert!(matches!(&action, RunAction::MarkRun(RunNote::Skipped(r)) if r == "no contract"));
    let (_, action) = run_step(state, RunEvent::Failed(AppError::Internal("db".to_string())));
    assert!(matches!(action, RunAction::Finish(RunEnd::Failed(AppError::Internal(m))) if m == "db"));
    let (_, action) = drive(None, vec![strategy(ExecutionMode::AlpacaPaper, AssetClassTarget::Equity, &[])]);
    assert!(matches!(action, RunAction::SyncBroker));
    let (_, action) = drive(None, vec![strategy(ExecutionMode::LocalPaper, AssetClassTarget::Equity, &[])]);
    assert!(matches!(action, RunAction::Finish(RunEnd::Done)));
}
