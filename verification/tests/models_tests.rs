use alpaca_trading3web::models::{
    asset_class_target_from_str, asset_class_target_to_str, credential_environment_from_str,
    credential_environment_to_str, execution_mode_from_str, execution_mode_to_str, option_entry_style_from_str,
    option_entry_style_to_str, option_structure_label, option_structure_preset_from_str,
    option_structure_preset_to_str, provider_from_str, strategy_kind_from_str, trade_side_from_str, trade_side_to_str,
    Account, AssetClassTarget, CredentialEnvironment, DataProvider, ExecutionMode, OptionEntryStyle,
    OptionStructurePreset, Position, StrategyKind, TradeSide,
};

#[test]
fn test_account_debug() {
    let account = Account {
        id: "test".to_string(),
        account_number: "123".to_string(),
        status: "ACTIVE".to_string(),
        currency: "USD".to_string(),
        buying_power: "0".to_string(),
        cash: "0".to_string(),
        portfolio_value: "0".to_string(),
        equity: "0".to_string(),
    };
    let debug_str = format!("{:?}", account);
    assert!(debug_str.contains("Account"));
    assert!(debug_str.contains("test"));
}

#[test]
fn test_position_debug() {
    let position = Position {
        asset_id: "test-id".to_string(),
        symbol: "GOOGL".to_string(),
        qty: "1".to_string(),
        avg_entry_price: "100".to_string(),
        market_value: "100".to_string(),
        current_price: "100".to_string(),
        unrealized_pl: "0".to_string(),
        unrealized_plpc: "0".to_string(),
    };
    let debug_str = format!("{:?}", position);
    assert!(debug_str.contains("Position"));
    assert!(debug_str.contains("GOOGL"));
}

#[test]
fn stored_names_round_trip() {
    for v in [CredentialEnvironment::Paper, CredentialEnvironment::Live] {
        assert_eq!(credential_environment_from_str(credential_environment_to_str(v)), Ok(v));
    }
    for v in [ExecutionMode::LocalPaper, ExecutionMode::AlpacaPaper, ExecutionMode::AlpacaLive] {
        assert_eq!(execution_mode_from_str(execution_mode_to_str(v)), Ok(v));
    }
    for v in [AssetClassTarget::Equity, AssetClassTarget::Options] {
        assert_eq!(asset_class_target_from_str(asset_class_target_to_str(v)), Ok(v));
        assert_eq!(v.as_str(), asset_class_target_to_str(v));
    }
    for v in [OptionEntryStyle::LongCall, OptionEntryStyle::LongPut] {
        assert_eq!(option_entry_style_from_str(option_entry_style_to_str(v)), Ok(v));
    }
    for v in [OptionStructurePreset::Single, OptionStructurePreset::BullCallSpread, OptionStructurePreset::BearPutSpread] {
        assert_eq!(option_structure_preset_from_str(option_structure_preset_to_str(v)), Ok(v));
        assert_eq!(option_structure_label(v), option_structure_preset_to_str(v));
    }
    for v in [TradeSide::Buy, TradeSide::Sell] {
        assert_eq!(trade_side_from_str(trade_side_to_str(v)), Ok(v));
    }
    for v in [DataProvider::Yahoo, DataProvider::Alpaca] {
        assert_eq!(provider_from_str(v.as_str()), Ok(v));
    }
    for v in [StrategyKind::VwapReflexive, StrategyKind::RsiMeanReversion, StrategyKind::SmaTrend] {
        assert_eq!(strategy_kind_from_str(v.as_str()), Ok(v));
    }
}

#[test]
fn stored_names_exact_text() {
    assert_eq!(execution_mode_to_str(ExecutionMode::AlpacaLive), "alpaca_live");
    assert_eq!(option_structure_preset_to_str(OptionStructurePreset::BearPutSpread), "bear_put_spread");
    assert_eq!(StrategyKind::RsiMeanReversion.as_str(), "rsi_mean_reversion");
    assert_eq!(DataProvider::Yahoo.as_str(), "yahoo");
}

#[test]
fn unknown_names_are_refused() {
    assert_eq!(credential_environment_from_str("Paper"), Err("unknown environment Paper".to_string()));
    assert_eq!(execution_mode_from_str("live"), Err("unknown execution mode live".to_string()));
    assert_eq!(asset_class_target_from_str(""), Err("unknown asset class target ".to_string()));
    assert_eq!(option_entry_style_from_str("x"), Err("unknown option entry style x".to_string()));
    assert_eq!(option_structure_preset_from_str("y"), Err("unknown option structure preset y".to_string()));
    assert_eq!(trade_side_from_str("hold"), Err("unknown trade side hold".to_string()));
    assert_eq!(provider_from_str("google"), Err("unknown provider google".to_string()));
    assert_eq!(strategy_kind_from_str("z"), Err("unknown strategy kind z".to_string()));
}

#[test]
fn broker_modes() {
    assert!(!ExecutionMode::LocalPaper.requires_external_broker());
    assert!(ExecutionMode::AlpacaPaper.requires_external_broker());
    assert!(ExecutionMode::AlpacaLive.requires_external_broker());
}
