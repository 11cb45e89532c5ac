//! The records exchanged with the broker and stored for strategies, the
//! enumerations they use, and their stored text forms.
use vstd::prelude::*;
use crate::text::{str_equal, string_of};

verus! {

#[derive(Debug)]
pub struct Account {
    pub id: String,
    pub account_number: String,
    pub status: String,
    pub currency: String,
    pub buying_power: String,
    pub cash: String,
    pub portfolio_value: String,
    pub equity: String,
}

#[derive(Debug)]
pub struct Position {
    pub asset_id: String,
    pub symbol: String,
    pub qty: String,
    pub avg_entry_price: String,
    pub market_value: String,
    pub current_price: String,
    pub unrealized_pl: String,
    pub unrealized_plpc: String,
}

#[derive(Debug)]
pub struct Order {
    pub id: String,
    pub client_order_id: String,
    pub symbol: String,
    pub qty: String,
    pub side: String,
    pub order_type: String,
    pub time_in_force: String,
    pub status: String,
}

#[derive(Debug, Clone, Copy, PartialEq, Eq, Structural)]
pub enum CredentialEnvironment {
    Paper,
    Live,
}

#[derive(Debug, Clone, Copy, PartialEq, Eq, Structural)]
pub enum ExecutionMode {
    LocalPaper,
    AlpacaPaper,
    AlpacaLive,
}

#[derive(Debug, Clone, Copy, PartialEq, Eq, Structural)]
pub enum AssetClassTarget {
    Equity,
    Options,
}

#[derive(Debug, Clone, Copy, PartialEq, Eq, Structural)]
pub enum OptionEntryStyle {
    LongCall,
    LongPut,
}

#[derive(Debug, Clone, Copy, PartialEq, Eq, Structural)]
pub enum OptionStructurePreset {
    Single,
    BullCallSpread,
    BearPutSpread,
}

#[derive(Debug, Clone, Copy, PartialEq, Eq, Structural)]
pub enum TradeSide {
    Buy,
    Sell,
}

#[derive(Debug, Clone, Copy, PartialEq, Eq, Structural)]
pub enum DataProvider {
    Yahoo,
    Alpaca,
}

#[derive(Debug, Clone, Copy, PartialEq, Eq, Structural)]
pub enum StrategyKind {
    VwapReflexive,
    RsiMeanReversion,
    SmaTrend,
}

impl ExecutionMode {
    /// Whether orders of this mode go to the broker rather than the local ledger.
    pub fn requires_external_broker(&self) -> (r: bool)
        ensures
            r == (*self != ExecutionMode::LocalPaper),
    {
        match self {
            ExecutionMode::LocalPaper => false,
            _ => true,
        }
    }
}

// ------------------------------------------------------------------
// Stored text forms
// ------------------------------------------------------------------

pub open spec fn environment_text(v: CredentialEnvironment) -> Seq<char> {
    match v {
        CredentialEnvironment::Paper => "paper"@,
        CredentialEnvironment::Live => "live"@,
    }
}

pub open spec fn execution_mode_text(v: ExecutionMode) -> Seq<char> {
    match v {
        ExecutionMode::LocalPaper => "local_paper"@,
        ExecutionMode::AlpacaPaper => "alpaca_paper"@,
        ExecutionMode::AlpacaLive => "alpaca_live"@,
    }
}

pub open spec fn asset_class_text(v: AssetClassTarget) -> Seq<char> {
    match v {
        AssetClassTarget::Equity => "equity"@,
        AssetClassTarget::Options => "options"@,
    }
}

pub open spec fn entry_style_text(v: OptionEntryStyle) -> Seq<char> {
    match v {
        OptionEntryStyle::LongCall => "long_call"@,
        OptionEntryStyle::LongPut => "long_put"@,
    }
}

pub open spec fn preset_text(v: OptionStructurePreset) -> Seq<char> {
    match v {
        OptionStructurePreset::Single => "single"@,
        OptionStructurePreset::BullCallSpread => "bull_call_spread"@,
        OptionStructurePreset::BearPutSpread => "bear_put_spread"@,
    }
}

pub open spec fn side_text(v: TradeSide) -> Seq<char> {
    match v {
        TradeSide::Buy => "buy"@,
        TradeSide::Sell => "sell"@,
    }
}

pub open spec fn provider_text(v: DataProvider) -> Seq<char> {
    match v {
        DataProvider::Yahoo => "yahoo"@,
        DataProvider::Alpaca => "alpaca"@,
    }
}

pub open spec fn kind_text(v: StrategyKind) -> Seq<char> {
    match v {
        StrategyKind::VwapReflexive => "vwap_reflexive"@,
        StrategyKind::RsiMeanReversion => "rsi_mean_reversion"@,
        StrategyKind::SmaTrend => "sma_trend"@,
    }
}

pub fn credential_environment_to_str(value: CredentialEnvironment) -> (s: &'static str)
    ensures
        s@ == environment_text(value),
{
    match value {
        CredentialEnvironment::Paper => "paper",
        CredentialEnvironment::Live => "live",
    }
}

pub fn execution_mode_to_str(value: ExecutionMode) -> (s: &'static str)
    ensures
        s@ == execution_mode_text(value),
{
    match value {
        ExecutionMode::LocalPaper => "local_paper",
        ExecutionMode::AlpacaPaper => "alpaca_paper",
        ExecutionMode::AlpacaLive => "alpaca_live",
    }
}

pub fn asset_class_target_to_str(value: AssetClassTarget) -> (s: &'static str)
    ensures
        s@ == asset_class_text(value),
{
    match value {
        AssetClassTarget::Equity => "equity",
        AssetClassTarget::Options => "options",
    }
}

pub fn option_entry_style_to_str(value: OptionEntryStyle) -> (s: &'static str)
    ensures
        s@ == entry_style_text(value),
{
    match value {
        OptionEntryStyle::LongCall => "long_call",
        OptionEntryStyle::LongPut => "long_put",
    }
}

pub fn option_structure_preset_to_str(value: OptionStructurePreset) -> (s: &'static str)
    ensures
        s@ == preset_text(value),
{
    match value {
        OptionStructurePreset::Single => "single",
        OptionStructurePreset::BullCallSpread => "bull_call_spread",
        OptionStructurePreset::BearPutSpread => "bear_put_spread",
    }
}

/// The label of an option structure, as it appears in spread symbols.
pub fn option_structure_label(preset: OptionStructurePreset) -> (s: &'static str)
    ensures
        s@ == preset_text(preset),
{
    match preset {
        OptionStructurePreset::Single => "single",
        OptionStructurePreset::BullCallSpread => "bull_call_spread",
        OptionStructurePreset::BearPutSpread => "bear_put_spread",
    }
}

pub fn trade_side_to_str(value: TradeSide) -> (s: &'static str)
    ensures
        s@ == side_text(value),
{
    match value {
        TradeSide::Buy => "buy",
        TradeSide::Sell => "sell",
    }
}

impl DataProvider {
    pub fn as_str(&self) -> (s: &'static str)
        ensures
            s@ == provider_text(*self),
    {
        match self {
            DataProvider::Yahoo => "yahoo",
            DataProvider::Alpaca => "alpaca",
        }
    }
}

impl StrategyKind {
    pub fn as_str(&self) -> (s: &'static str)
        ensures
            s@ == kind_text(*self),
    {
        match self {
            StrategyKind::VwapReflexive => "vwap_reflexive",
            StrategyKind::RsiMeanReversion => "rsi_mean_reversion",
            StrategyKind::SmaTrend => "sma_trend",
        }
    }
}

impl AssetClassTarget {
    pub fn as_str(&self) -> (s: &'static str)
        ensures
            s@ == asset_class_text(*self),
    {
        asset_class_target_to_str(*self)
    }
}

/// The error for a stored text that names no known value: `what`, a space,
/// and the text.
pub open spec fn unknown_text(what: Seq<char>, value: Seq<char>) -> Seq<char> {
    "unknown "@ + what + " "@ + value
}

fn unknown_value(what: &str, value: &str) -> (e: String)
    ensures
        e@ == unknown_text(what@, value@),
{
    string_of("unknown ").concat(what).concat(" ").concat(value)
}

pub fn provider_from_str(value: &str) -> (r: Result<DataProvider, String>)
    ensures
        r matches Ok(p) ==> provider_text(p) == value@,
        r is Err <==> (forall|p: DataProvider| provider_text(p) != value@),
        r matches Err(e) ==> e@ == unknown_text("provider"@, value@),
{
    proof {
        reveal_strlit("yahoo");
        reveal_strlit("alpaca");
    }
    if str_equal(value, "yahoo") {
        Ok(DataProvider::Yahoo)
    } else if str_equal(value, "alpaca") {
        Ok(DataProvider::Alpaca)
    } else {
        proof {
            assert forall|p: DataProvider| provider_text(p) != value@ by {
                match p {
                    DataProvider::Yahoo => {},
                    DataProvider::Alpaca => {},
                }
            }
        }
        Err(unknown_value("provider", value))
    }
}

pub fn credential_environment_from_str(value: &str) -> (r: Result<CredentialEnvironment, String>)
    ensures
        r matches Ok(p) ==> environment_text(p) == value@,
        r is Err <==> (forall|p: CredentialEnvironment| environment_text(p) != value@),
        r matches Err(e) ==> e@ == unknown_text("environment"@, value@),
{
    if str_equal(value, "paper") {
        Ok(CredentialEnvironment::Paper)
    } else if str_equal(value, "live") {
        Ok(CredentialEnvironment::Live)
    } else {
        proof {
            assert forall|p: CredentialEnvironment| environment_text(p) != value@ by {
                match p {
                    CredentialEnvironment::Paper => {},
                    CredentialEnvironment::Live => {},
                }
            }
        }
        Err(unknown_value("environment", value))
    }
}

pub fn execution_mode_from_str(value: &str) -> (r: Result<ExecutionMode, String>)
    ensures
        r matches Ok(p) ==> execution_mode_text(p) == value@,
        r is Err <==> (forall|p: ExecutionMode| execution_mode_text(p) != value@),
        r matches Err(e) ==> e@ == unknown_text("execution mode"@, value@),
{
    if str_equal(value, "local_paper") {
        assert(execution_mode_text(ExecutionMode::LocalPaper) == value@);
        Ok(ExecutionMode::LocalPaper)
    } else if str_equal(value, "alpaca_paper") {
        assert(execution_mode_text(ExecutionMode::AlpacaPaper) == value@);
        Ok(ExecutionMode::AlpacaPaper)
    } else if str_equal(value, "alpaca_live") {
        assert(execution_mode_text(ExecutionMode::AlpacaLive) == value@);
        Ok(ExecutionMode::AlpacaLive)
    } else {
        proof {
            assert forall|p: ExecutionMode| execution_mode_text(p) != value@ by {
                match p {
                    ExecutionMode::LocalPaper => {},
                    ExecutionMode::AlpacaPaper => {},
                    ExecutionMode::AlpacaLive => {},
                }
            }
        }
        Err(unknown_value("execution mode", value))
    }
}

pub fn asset_class_target_from_str(value: &str) -> (r: Result<AssetClassTarget, String>)
    ensures
        r matches Ok(p) ==> asset_class_text(p) == value@,
        r is Err <==> (forall|p: AssetClassTarget| asset_class_text(p) != value@),
        r matches Err(e) ==> e@ == unknown_text("asset class target"@, value@),
{
    if str_equal(value, "equity") {
        Ok(AssetClassTarget::Equity)
    } else if str_equal(value, "options") {
        Ok(AssetClassTarget::Options)
    } else {
        proof {
            assert forall|p: AssetClassTarget| asset_class_text(p) != value@ by {
                match p {
                    AssetClassTarget::Equity => {},
                    AssetClassTarget::Options => {},
                }
            }
        }
        Err(unknown_value("asset class target", value))
    }
}

pub fn option_entry_style_from_str(value: &str) -> (r: Result<OptionEntryStyle, String>)
    ensures
        r matches Ok(p) ==> entry_style_text(p) == value@,
        r is Err <==> (forall|p: OptionEntryStyle| entry_style_text(p) != value@),
        r matches Err(e) ==> e@ == unknown_text("option entry style"@, value@),
{
    if str_equal(value, "long_call") {
        Ok(OptionEntryStyle::LongCall)
    } else if str_equal(value, "long_put") {
        Ok(OptionEntryStyle::LongPut)
    } else {
        proof {
            assert forall|p: OptionEntryStyle| entry_style_text(p) != value@ by {
                match p {
                    OptionEntryStyle::LongCall => {},
                    OptionEntryStyle::LongPut => {},
                }
            }
        }
        Err(unknown_value("option entry style", value))
    }
}

pub fn option_structure_preset_from_str(value: &str) -> (r: Result<OptionStructurePreset, String>)
    ensures
        r matches Ok(p) ==> preset_text(p) == value@,
        r is Err <==> (forall|p: OptionStructurePreset| preset_text(p) != value@),
        r matches Err(e) ==> e@ == unknown_text("option structure preset"@, value@),
{
    if str_equal(value, "single") {
        assert(preset_text(OptionStructurePreset::Single) == value@);
        Ok(OptionStructurePreset::Single)
    } else if str_equal(value, "bull_call_spread") {
        assert(preset_text(OptionStructurePreset::BullCallSpread) == value@);
        Ok(OptionStructurePreset::BullCallSpread)
    } else if str_equal(value, "bear_put_spread") {
        assert(preset_text(OptionStructurePreset::BearPutSpread) == value@);
        Ok(OptionStructurePreset::BearPutSpread)
    } else {
        proof {
            assert forall|p: OptionStructurePreset| preset_text(p) != value@ by {
                match p {
                    OptionStructurePreset::Single => {},
                    OptionStructurePreset::BullCallSpread => {},
                    OptionStructurePreset::BearPutSpread => {},
                }
            }
        }
        Err(unknown_value("option structure preset", value))
    }
}

pub fn strategy_kind_from_str(value: &str) -> (r: Result<StrategyKind, String>)
    ensures
        r matches Ok(p) ==> kind_text(p) == value@,
        r is Err <==> (forall|p: StrategyKind| kind_text(p) != value@),
        r matches Err(e) ==> e@ == unknown_text("strategy kind"@, value@),
{
    if str_equal(value, "vwap_reflexive") {
        assert(kind_text(StrategyKind::VwapReflexive) == value@);
        Ok(StrategyKind::VwapReflexive)
    } else if str_equal(value, "rsi_mean_reversion") {
        assert(kind_text(StrategyKind::RsiMeanReversion) == value@);
        Ok(StrategyKind::RsiMeanReversion)
    } else if str_equal(value, "sma_trend") {
        assert(kind_text(StrategyKind::SmaTrend) == value@);
        Ok(StrategyKind::SmaTrend)
    } else {
        proof {
            assert forall|p: StrategyKind| kind_text(p) != value@ by {
                match p {
                    StrategyKind::VwapReflexive => {},
                    StrategyKind::RsiMeanReversion => {},
                    StrategyKind::SmaTrend => {},
                }
            }
        }
        Err(unknown_value("strategy kind", value))
    }
}

pub fn trade_side_from_str(value: &str) -> (r: Result<TradeSide, String>)
    ensures
        r matches Ok(p) ==> side_text(p) == value@,
        r is Err <==> (forall|p: TradeSide| side_text(p) != value@),
        r matches Err(e) ==> e@ == unknown_text("trade side"@, value@),
{
    if str_equal(value, "buy") {
        Ok(TradeSide::Buy)
    } else if str_equal(value, "sell") {
        Ok(TradeSide::Sell)
    } else {
        proof {
            assert forall|p: TradeSide| side_text(p) != value@ by {
                match p {
                    TradeSide::Buy => {},
                    TradeSide::Sell => {},
                }
            }
        }
        Err(unknown_value("trade side", value))
    }
}


// ------------------------------------------------------------------
// Laws
// ------------------------------------------------------------------

/// Each stored text names one value only, so reading back the text that was
/// written for a value gives that value: `*_from_str(*_to_str(x)) == Ok(x)`.
pub proof fn law_stored_names_round_trip()
    ensures
        forall|a: CredentialEnvironment, b: CredentialEnvironment| environment_text(a) == environment_text(b) ==> a == b,
        forall|a: ExecutionMode, b: ExecutionMode| execution_mode_text(a) == execution_mode_text(b) ==> a == b,
        forall|a: AssetClassTarget, b: AssetClassTarget| asset_class_text(a) == asset_class_text(b) ==> a == b,
        forall|a: OptionEntryStyle, b: OptionEntryStyle| entry_style_text(a) == entry_style_text(b) ==> a == b,
        forall|a: OptionStructurePreset, b: OptionStructurePreset| preset_text(a) == preset_text(b) ==> a == b,
        forall|a: TradeSide, b: TradeSide| side_text(a) == side_text(b) ==> a == b,
        forall|a: DataProvider, b: DataProvider| provider_text(a) == provider_text(b) ==> a == b,
        forall|a: StrategyKind, b: StrategyKind| kind_text(a) == kind_text(b) ==> a == b,
{
    reveal_strlit("paper");
    reveal_strlit("live");
    reveal_strlit("local_paper");
    reveal_strlit("alpaca_paper");
    reveal_strlit("alpaca_live");
    reveal_strlit("equity");
    reveal_strlit("options");
    reveal_strlit("long_call");
    reveal_strlit("long_put");
    reveal_strlit("single");
    reveal_strlit("bull_call_spread");
    reveal_strlit("bear_put_spread");
    reveal_strlit("buy");
    reveal_strlit("sell");
    reveal_strlit("yahoo");
    reveal_strlit("alpaca");
    reveal_strlit("vwap_reflexive");
    reveal_strlit("rsi_mean_reversion");
    reveal_strlit("sma_trend");
    assert forall|a: CredentialEnvironment, b: CredentialEnvironment| environment_text(a) == environment_text(b) implies a == b by {
        assert(environment_text(a).len() == environment_text(b).len());
    }
    assert forall|a: ExecutionMode, b: ExecutionMode| execution_mode_text(a) == execution_mode_text(b) implies a == b by {
        assert(execution_mode_text(a).len() == execution_mode_text(b).len());
        assert(execution_mode_text(a)[0] == execution_mode_text(b)[0]);
    }
    assert forall|a: AssetClassTarget, b: AssetClassTarget| asset_class_text(a) == asset_class_text(b) implies a == b by {
        assert(asset_class_text(a).len() == asset_class_text(b).len());
    }
    assert forall|a: OptionEntryStyle, b: OptionEntryStyle| entry_style_text(a) == entry_style_text(b) implies a == b by {
        assert(entry_style_text(a).len() == entry_style_text(b).len());
    }
    assert forall|a: OptionStructurePreset, b: OptionStructurePreset| preset_text(a) == preset_text(b) implies a == b by {
        assert(preset_text(a).len() == preset_text(b).len());
    }
    assert forall|a: TradeSide, b: TradeSide| side_text(a) == side_text(b) implies a == b by {
        assert(side_text(a).len() == side_text(b).len());
    }
    assert forall|a: DataProvider, b: DataProvider| provider_text(a) == provider_text(b) implies a == b by {
        assert(provider_text(a).len() == provider_text(b).len());
    }
    assert forall|a: StrategyKind, b: StrategyKind| kind_text(a) == kind_text(b) implies a == b by {
        assert(kind_text(a).len() == kind_text(b).len());
    }
}


/// Each value is stored as its own word, and each word reads back as that
/// value: a buy is "buy" and a sell "sell"; a paper credential "paper" and a
/// live one "live"; the execution modes "local_paper", "alpaca_paper" and
/// "alpaca_live"; the asset classes "equity" and "options"; the entry styles
/// "long_call" and "long_put"; the presets "single", "bull_call_spread" and
/// "bear_put_spread"; the providers "yahoo" and "alpaca"; the strategy kinds
/// "vwap_reflexive", "rsi_mean_reversion" and "sma_trend".
pub proof fn law_stored_names_are_their_words()
    ensures
        forall|v: TradeSide| side_text(v) == "buy"@ <==> v == TradeSide::Buy,
        forall|v: TradeSide| side_text(v) == "sell"@ <==> v == TradeSide::Sell,
        forall|v: CredentialEnvironment| environment_text(v) == "paper"@ <==> v == CredentialEnvironment::Paper,
        forall|v: CredentialEnvironment| environment_text(v) == "live"@ <==> v == CredentialEnvironment::Live,
        forall|v: ExecutionMode| execution_mode_text(v) == "local_paper"@ <==> v == ExecutionMode::LocalPaper,
        forall|v: ExecutionMode| execution_mode_text(v) == "alpaca_paper"@ <==> v == ExecutionMode::AlpacaPaper,
        forall|v: ExecutionMode| execution_mode_text(v) == "alpaca_live"@ <==> v == ExecutionMode::AlpacaLive,
        forall|v: AssetClassTarget| asset_class_text(v) == "equity"@ <==> v == AssetClassTarget::Equity,
        forall|v: AssetClassTarget| asset_class_text(v) == "options"@ <==> v == AssetClassTarget::Options,
        forall|v: OptionEntryStyle| entry_style_text(v) == "long_call"@ <==> v == OptionEntryStyle::LongCall,
        forall|v: OptionEntryStyle| entry_style_text(v) == "long_put"@ <==> v == OptionEntryStyle::LongPut,
        forall|v: OptionStructurePreset| preset_text(v) == "single"@ <==> v == OptionStructurePreset::Single,
        forall|v: OptionStructurePreset| preset_text(v) == "bull_call_spread"@ <==> v == OptionStructurePreset::BullCallSpread,
        forall|v: OptionStructurePreset| preset_text(v) == "bear_put_spread"@ <==> v == OptionStructurePreset::BearPutSpread,
        forall|v: DataProvider| provider_text(v) == "yahoo"@ <==> v == DataProvider::Yahoo,
        forall|v: DataProvider| provider_text(v) == "alpaca"@ <==> v == DataProvider::Alpaca,
        forall|v: StrategyKind| kind_text(v) == "vwap_reflexive"@ <==> v == StrategyKind::VwapReflexive,
        forall|v: StrategyKind| kind_text(v) == "rsi_mean_reversion"@ <==> v == StrategyKind::RsiMeanReversion,
        forall|v: StrategyKind| kind_text(v) == "sma_trend"@ <==> v == StrategyKind::SmaTrend,
{
    reveal_strlit("buy");
    reveal_strlit("sell");
    reveal_strlit("paper");
    reveal_strlit("live");
    reveal_strlit("local_paper");
    reveal_strlit("alpaca_paper");
    reveal_strlit("alpaca_live");
    reveal_strlit("equity");
    reveal_strlit("options");
    reveal_strlit("long_call");
    reveal_strlit("long_put");
    reveal_strlit("single");
    reveal_strlit("bull_call_spread");
    reveal_strlit("bear_put_spread");
    reveal_strlit("yahoo");
    reveal_strlit("alpaca");
    reveal_strlit("vwap_reflexive");
    reveal_strlit("rsi_mean_reversion");
    reveal_strlit("sma_trend");
    assert forall|v: TradeSide| side_text(v) == "buy"@ <==> v == TradeSide::Buy by {
        if side_text(v) == "buy"@ {
            assert(side_text(v).len() == "buy"@.len());
            assert(side_text(v)[0] == "buy"@[0]);
        }
    }
    assert forall|v: TradeSide| side_text(v) == "sell"@ <==> v == TradeSide::Sell by {
        if side_text(v) == "sell"@ {
            assert(side_text(v).len() == "sell"@.len());
            assert(side_text(v)[0] == "sell"@[0]);
        }
    }
    assert forall|v: CredentialEnvironment| environment_text(v) == "paper"@ <==> v == CredentialEnvironment::Paper by {
        if environment_text(v) == "paper"@ {
            assert(environment_text(v).len() == "paper"@.len());
            assert(environment_text(v)[0] == "paper"@[0]);
        }
    }
    assert forall|v: CredentialEnvironment| environment_text(v) == "live"@ <==> v == CredentialEnvironment::Live by {
        if environment_text(v) == "live"@ {
            assert(environment_text(v).len() == "live"@.len());
            assert(environment_text(v)[0] == "live"@[0]);
        }
    }
    assert forall|v: ExecutionMode| execution_mode_text(v) == "local_paper"@ <==> v == ExecutionMode::LocalPaper by {
        if execution_mode_text(v) == "local_paper"@ {
            assert(execution_mode_text(v).len() == "local_paper"@.len());
            assert(execution_mode_text(v)[0] == "local_paper"@[0]);
        }
    }
    assert forall|v: ExecutionMode| execution_mode_text(v) == "alpaca_paper"@ <==> v == ExecutionMode::AlpacaPaper by {
        if execution_mode_text(v) == "alpaca_paper"@ {
            assert(execution_mode_text(v).len() == "alpaca_paper"@.len());
            assert(execution_mode_text(v)[0] == "alpaca_paper"@[0]);
        }
    }
    assert forall|v: ExecutionMode| execution_mode_text(v) == "alpaca_live"@ <==> v == ExecutionMode::AlpacaLive by {
        if execution_mode_text(v) == "alpaca_live"@ {
            assert(execution_mode_text(v).len() == "alpaca_live"@.len());
            assert(execution_mode_text(v)[0] == "alpaca_live"@[0]);
        }
    }
    assert forall|v: AssetClassTarget| asset_class_text(v) == "equity"@ <==> v == AssetClassTarget::Equity by {
        if asset_class_text(v) == "equity"@ {
            assert(asset_class_text(v).len() == "equity"@.len());
            assert(asset_class_text(v)[0] == "equity"@[0]);
        }
    }
    assert forall|v: AssetClassTarget| asset_class_text(v) == "options"@ <==> v == AssetClassTarget::Options by {
        if asset_class_text(v) == "options"@ {
            assert(asset_class_text(v).len() == "options"@.len());
            assert(asset_class_text(v)[0] == "options"@[0]);
        }
    }
    assert forall|v: OptionEntryStyle| entry_style_text(v) == "long_call"@ <==> v == OptionEntryStyle::LongCall by {
        if entry_style_text(v) == "long_call"@ {
            assert(entry_style_text(v).len() == "long_call"@.len());
            assert(entry_style_text(v)[0] == "long_call"@[0]);
        }
    }
    assert forall|v: OptionEntryStyle| entry_style_text(v) == "long_put"@ <==> v == OptionEntryStyle::LongPut by {
        if entry_style_text(v) == "long_put"@ {
            assert(entry_style_text(v).len() == "long_put"@.len());
            assert(entry_style_text(v)[0] == "long_put"@[0]);
        }
    }
    assert forall|v: OptionStructurePreset| preset_text(v) == "single"@ <==> v == OptionStructurePreset::Single by {
        if preset_text(v) == "single"@ {
            assert(preset_text(v).len() == "single"@.len());
            assert(preset_text(v)[0] == "single"@[0]);
        }
    }
    assert forall|v: OptionStructurePreset| preset_text(v) == "bull_call_spread"@ <==> v == OptionStructurePreset::BullCallSpread by {
        if preset_text(v) == "bull_call_spread"@ {
            assert(preset_text(v).len() == "bull_call_spread"@.len());
            assert(preset_text(v)[0] == "bull_call_spread"@[0]);
        }
    }
    assert forall|v: OptionStructurePreset| preset_text(v) == "bear_put_spread"@ <==> v == OptionStructurePreset::BearPutSpread by {
        if preset_text(v) == "bear_put_spread"@ {
            assert(preset_text(v).len() == "bear_put_spread"@.len());
            assert(preset_text(v)[0] == "bear_put_spread"@[0]);
        }
    }
    assert forall|v: DataProvider| provider_text(v) == "yahoo"@ <==> v == DataProvider::Yahoo by {
        if provider_text(v) == "yahoo"@ {
            assert(provider_text(v).len() == "yahoo"@.len());
            assert(provider_text(v)[0] == "yahoo"@[0]);
        }
    }
    assert forall|v: DataProvider| provider_text(v) == "alpaca"@ <==> v == DataProvider::Alpaca by {
        if provider_text(v) == "alpaca"@ {
            assert(provider_text(v).len() == "alpaca"@.len());
            assert(provider_text(v)[0] == "alpaca"@[0]);
        }
    }
    assert forall|v: StrategyKind| kind_text(v) == "vwap_reflexive"@ <==> v == StrategyKind::VwapReflexive by {
        if kind_text(v) == "vwap_reflexive"@ {
            assert(kind_text(v).len() == "vwap_reflexive"@.len());
            assert(kind_text(v)[0] == "vwap_reflexive"@[0]);
        }
    }
    assert forall|v: StrategyKind| kind_text(v) == "rsi_mean_reversion"@ <==> v == StrategyKind::RsiMeanReversion by {
        if kind_text(v) == "rsi_mean_reversion"@ {
            assert(kind_text(v).len() == "rsi_mean_reversion"@.len());
            assert(kind_text(v)[0] == "rsi_mean_reversion"@[0]);
        }
    }
    assert forall|v: StrategyKind| kind_text(v) == "sma_trend"@ <==> v == StrategyKind::SmaTrend by {
        if kind_text(v) == "sma_trend"@ {
            assert(kind_text(v).len() == "sma_trend"@.len());
            assert(kind_text(v)[0] == "sma_trend"@[0]);
        }
    }
}

} // verus!
