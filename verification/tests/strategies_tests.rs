use alpaca_trading3web::strategies::{
    DeltaNeutral, GammaScalping, PutCallParity, StrategyManager, StrategyState, StrategyTrait, VwapReversion,
};

#[test]
fn all_strategies_start_idle() {
    let m = StrategyManager::new();
    let all = m.get_all_strategies();
    assert_eq!(all.len(), 5);
    for (i, s) in all.iter().enumerate() {
        assert_eq!(s.id, i as u32 + 1);
        assert_eq!(s.state, StrategyState::Idle);
    }
    assert_eq!(all[0].name, "Listing Arbitrage");
    assert_eq!(all[4].name, "Put-Call Parity");
    assert_eq!(m.get_state(0), None);
    assert_eq!(m.get_state(6), None);
}

#[test]
fn start_stop_round_trip() {
    let mut m = StrategyManager::new();
    assert_eq!(m.start_strategy(2), Ok(()));
    assert_eq!(m.get_state(2), Some(StrategyState::Running));
    assert_eq!(m.start_strategy(2), Err("Strategy is already running".to_string()));
    assert_eq!(m.stop_strategy(2), Ok(()));
    assert_eq!(m.get_state(2), Some(StrategyState::Idle));
    assert_eq!(m.stop_strategy(2), Err("Strategy is not running".to_string()));
    assert_eq!(m.start_strategy(9), Err("Strategy not found".to_string()));
    assert_eq!(m.stop_strategy(0), Err("Strategy not found".to_string()));
}

#[test]
fn failed_strategy_can_restart() {
    let mut m = StrategyManager::new();
    m.start_strategy(4).unwrap();
    m.mark_error(4);
    assert_eq!(m.get_state(4), Some(StrategyState::Error));
    assert_eq!(m.stop_strategy(4), Err("Strategy is not running".to_string()));
    assert_eq!(m.start_strategy(4), Ok(()));
}

#[test]
fn stop_all_reports_running_ones_in_order() {
    let mut m = StrategyManager::new();
    m.start_strategy(5).unwrap();
    m.start_strategy(1).unwrap();
    m.start_strategy(3).unwrap();
    m.mark_error(3);
    let results = m.stop_all_strategies();
    assert_eq!(results, vec![(1, "stopped".to_string()), (5, "stopped".to_string())]);
    for id in 1..=5 {
        assert_ne!(m.get_state(id), Some(StrategyState::Running));
    }
    assert_eq!(m.get_state(3), Some(StrategyState::Error));
    assert!(m.stop_all_strategies().is_empty());
}

#[test]
fn strategy_names() {
    assert_eq!(DeltaNeutral::new().name(), "0DTE Delta-Neutral");
    assert_eq!(GammaScalping::new().name(), "Gamma Scalping");
    assert_eq!(PutCallParity::new().name(), "Put-Call Parity");
    assert_eq!(VwapReversion::new().name(), "VWAP Mean Reversion");
}
