//! The decisions taken while a strategy runs over its symbols: which symbols
//! it visits, which provider serves quotes and option chains, whether a
//! signal may lead to a trade and whether that trade goes to the broker.
//! Fetching quotes, evaluating signals and placing orders is up to the caller.
use vstd::prelude::*;
use crate::models::{AssetClassTarget, CredentialEnvironment, DataProvider, ExecutionMode};
use crate::records::{lemma_texts_push, texts};
use crate::routes::AppError;
use crate::text::{str_equal, string_of};

verus! {

/// The symbols a run visits, in order: the one asked for, or else every
/// symbol the strategy watches.
pub fn run_symbols(symbol_override: Option<&str>, watched: &Vec<String>) -> (v: Vec<String>)
    ensures
        symbol_override matches Some(s) ==> texts(v@) == seq![s@],
        symbol_override is None ==> texts(v@) == texts(watched@),
{
    match symbol_override {
        Some(s) => {
            let mut v: Vec<String> = Vec::new();
            v.push(string_of(s));
            proof {
                assert(texts(v@) =~= seq![s@]);
            }
            v
        },
        None => {
            let mut v: Vec<String> = Vec::new();
            let mut i: usize = 0;
            while i < watched.len()
                invariant
                    i <= watched.len(),
                    texts(v@) == texts(watched@).take(i as int),
                decreases watched.len() - i,
            {
                let ghost before = v@;
                let item = watched[i].clone();
                v.push(item);
                proof {
                    lemma_texts_push(before, item);
                    assert(texts(v@) =~= texts(watched@).take(i + 1));
                }
                i = i + 1;
            }
            proof {
                assert(texts(watched@).take(watched.len() as int) =~= texts(watched@));
            }
            v
        },
    }
}

/// Quotes and candles come from the broker when a data credential is at
/// hand, and from Yahoo otherwise.
pub fn data_provider_for(has_data_credential: bool) -> (p: DataProvider)
    ensures
        p == (if has_data_credential { DataProvider::Alpaca } else { DataProvider::Yahoo }),
{
    if has_data_credential {
        DataProvider::Alpaca
    } else {
        DataProvider::Yahoo
    }
}

/// Option chains of an options strategy that trades at the broker come from
/// the broker; every other run uses the quote provider.
pub fn option_provider_for(target: AssetClassTarget, mode: ExecutionMode, provider: DataProvider) -> (p: DataProvider)
    ensures
        p == (if target == AssetClassTarget::Options && mode != ExecutionMode::LocalPaper {
            DataProvider::Alpaca
        } else {
            provider
        }),
{
    if target == AssetClassTarget::Options && mode.requires_external_broker() {
        DataProvider::Alpaca
    } else {
        provider
    }
}

/// The provider a trade is recorded under: the option provider for an
/// options strategy, the quote provider otherwise.
pub fn trade_provider_for(target: AssetClassTarget, option_provider: DataProvider, provider: DataProvider) -> (p: DataProvider)
    ensures
        p == (if target == AssetClassTarget::Options { option_provider } else { provider }),
{
    if target == AssetClassTarget::Options {
        option_provider
    } else {
        provider
    }
}

/// Whether a signal leads to a trade.
pub enum TradeGate {
    /// The signal says hold: no trade; the run only records the signal.
    Hold,
    /// The trade is skipped for the reason given, which the run records.
    Skip(String),
    /// A trade is prepared; for broker modes it also becomes an order.
    Prepare { needs_broker_order: bool },
}

pub open spec fn missing_credential_text() -> Seq<char> {
    "Missing Alpaca trading credential"@
}

pub open spec fn not_live_text() -> Seq<char> {
    "Live mode selected but credential is not live"@
}

/// Decides what a signal leads to. A hold signal trades nothing. A broker
/// mode needs a trading credential, and live mode a live one; otherwise the
/// trade is skipped with the reason. The local ledger needs neither.
pub fn trade_gate(
    is_hold: bool,
    mode: ExecutionMode,
    trading_credential: Option<CredentialEnvironment>,
) -> (g: TradeGate)
    ensures
        is_hold ==> g is Hold,
        !is_hold && mode == ExecutionMode::LocalPaper ==> g == (TradeGate::Prepare { needs_broker_order: false }),
        !is_hold && mode != ExecutionMode::LocalPaper && trading_credential is None
            ==> (g matches TradeGate::Skip(m) && m@ == missing_credential_text()),
        !is_hold && mode == ExecutionMode::AlpacaLive && trading_credential == Some(CredentialEnvironment::Paper)
            ==> (g matches TradeGate::Skip(m) && m@ == not_live_text()),
        !is_hold && mode != ExecutionMode::LocalPaper && trading_credential is Some
            && !(mode == ExecutionMode::AlpacaLive && trading_credential == Some(CredentialEnvironment::Paper))
            ==> g == (TradeGate::Prepare { needs_broker_order: true }),
{
    if is_hold {
        return TradeGate::Hold;
    }
    if !mode.requires_external_broker() {
        return TradeGate::Prepare { needs_broker_order: false };
    }
    match trading_credential {
        None => TradeGate::Skip(string_of("Missing Alpaca trading credential")),
        Some(env) => {
            if mode == ExecutionMode::AlpacaLive && env != CredentialEnvironment::Live {
                TradeGate::Skip(string_of("Live mode selected but credential is not live"))
            } else {
                TradeGate::Prepare { needs_broker_order: true }
            }
        },
    }
}

/// A broker sync is only done for strategies that trade at the broker.
pub fn check_broker_sync(mode: ExecutionMode) -> (r: Result<(), AppError>)
    ensures
        r is Ok <==> mode != ExecutionMode::LocalPaper,
        r matches Err(e) ==> (e matches AppError::ValidationError(m)
            && m@ == "strategy is not configured for Alpaca execution"@),
{
    if mode.requires_external_broker() {
        Ok(())
    } else {
        Err(AppError::ValidationError(string_of("strategy is not configured for Alpaca execution")))
    }
}


/// The phrase that a switch to live trading must carry.
pub open spec fn live_phrase() -> Seq<char> {
    "TRADE REAL MONEY"@
}

/// A change of a strategy to live trading is refused unless it carries the
/// confirmation phrase; other changes pass.
pub fn check_live_confirmation(mode: Option<ExecutionMode>, confirmation: Option<&str>) -> (r: Result<(), AppError>)
    ensures
        r is Err <==> (mode == Some(ExecutionMode::AlpacaLive) && !(confirmation matches Some(c) && c@ == live_phrase())),
        r matches Err(e) ==> (e matches AppError::ValidationError(m)
            && m@ == "live trading requires the confirmation phrase TRADE REAL MONEY"@),
{
    let confirmed = match confirmation {
        Some(c) => str_equal(c, "TRADE REAL MONEY"),
        None => false,
    };
    if mode == Some(ExecutionMode::AlpacaLive) && !confirmed {
        return Err(AppError::ValidationError(string_of("live trading requires the confirmation phrase TRADE REAL MONEY")));
    }
    Ok(())
}


// ------------------------------------------------------------------
// One run of a strategy, step by step
// ------------------------------------------------------------------

/// What the run needs of a stored strategy: its execution mode, what it
/// trades, and the symbols it watches.
pub struct StrategyInfo {
    pub mode: ExecutionMode,
    pub target: AssetClassTarget,
    pub watched: Vec<String>,
}

/// What the run needs of the strategy as it is reloaded for each symbol.
pub struct LatestInfo {
    pub mode: ExecutionMode,
    pub target: AssetClassTarget,
}

/// What a prepared trade came to: ready (with or without an order for the
/// broker), or skipped for the reason given.
pub enum PrepareOutcome {
    Ready { broker_order: bool },
    Skip(String),
}

/// What the caller reports back after doing an action.
pub enum RunEvent {
    /// The strategy was looked up; none when it does not exist.
    StrategyLoaded(Option<StrategyInfo>),
    /// The broker credentials were resolved: the environment of the trading
    /// credential, and whether a data credential exists.
    CredentialsResolved { trading: Option<CredentialEnvironment>, data: bool },
    /// The quote and the candles of the symbol were fetched.
    QuoteFetched,
    /// The strategy was reloaded; none when it no longer exists.
    LatestLoaded(Option<LatestInfo>),
    /// The option chain was fetched and stored, or its fetch failed and was
    /// logged; the run goes on either way.
    OptionsFetched,
    /// The position was read and the strategy's signal evaluated.
    SignalEvaluated { hold: bool },
    TradePrepared(PrepareOutcome),
    /// The run was marked with the note asked for.
    RunMarked,
    /// The broker's answer to the order: the order's id, or its failure message.
    OrderSubmitted(Result<String, String>),
    /// The fill reconciliation: its failure message, if any.
    FillReconciled(Result<(), String>),
    /// The market snapshot and the trade were stored.
    TradeRecorded,
    /// The broker sync was done, or its failure was logged.
    BrokerSynced,
    /// A step failed with an error, which ends the run.
    Failed(AppError),
}

/// Which credential goes with an option chain request.
#[derive(Debug, Clone, Copy, PartialEq, Eq, Structural)]
pub enum OptionCredential {
    Trading,
    Data,
    NoCredential,
}

/// A note the run is marked with when a symbol ends without a trade.
pub enum RunNote {
    MissingCredential,
    NotLive,
    Skipped(String),
    SubmissionFailed(String),
    FillFailed(String),
}

/// How a run ends.
pub enum RunEnd {
    Done,
    StrategyMissing,
    Failed(AppError),
}

/// What the caller is to do next. Actions about a symbol concern the
/// state's current symbol.
pub enum RunAction {
    LoadStrategy,
    ResolveCredentials,
    FetchQuote { provider: DataProvider, with_data_credential: bool },
    LoadLatest,
    FetchOptions { provider: DataProvider, credential: OptionCredential },
    EvaluateSignal,
    PrepareTrade { needs_broker_order: bool },
    /// Store the market snapshot and mark the run with the signal's reason.
    MarkSignal,
    MarkRun(RunNote),
    SubmitOrder,
    /// Wait for the fill of the order with this id.
    PollFill { order_id: String },
    /// Store the market snapshot and the trade, under the provider given;
    /// `reconciled` says whether the broker's fill replaces quantity and price.
    RecordTrade { provider: DataProvider, reconciled: bool },
    SyncBroker,
    Finish(RunEnd),
}

/// Which event the run waits for.
#[derive(Debug, Clone, Copy, PartialEq, Eq, Structural)]
pub enum Stage {
    Load,
    Resolve,
    Quote,
    Latest,
    Options,
    Signal,
    Prepare,
    Mark,
    Submit,
    Poll,
    Record,
    Sync,
    Finished,
}

/// The state of a run.
pub struct RunState {
    pub symbol_override: Option<String>,
    pub initial_mode: ExecutionMode,
    pub watched: Vec<String>,
    pub index: usize,
    pub trading: Option<CredentialEnvironment>,
    pub has_data_credential: bool,
    pub latest_mode: ExecutionMode,
    pub latest_target: AssetClassTarget,
    pub stage: Stage,
}

/// How many symbols the run visits.
pub open spec fn symbol_count(s: RunState) -> nat {
    if s.symbol_override is Some { 1 } else { s.watched@.len() }
}

/// The symbol the run is at.
pub open spec fn current_symbol_of(s: RunState) -> Option<Seq<char>> {
    match s.symbol_override {
        Some(o) => if s.index == 0 { Some(o@) } else { None },
        None => if s.index < s.watched@.len() { Some(s.watched@[s.index as int]@) } else { None },
    }
}

pub open spec fn quote_provider(s: RunState) -> DataProvider {
    if s.has_data_credential { DataProvider::Alpaca } else { DataProvider::Yahoo }
}

pub open spec fn chain_provider(s: RunState) -> DataProvider {
    if s.latest_target == AssetClassTarget::Options && s.latest_mode != ExecutionMode::LocalPaper {
        DataProvider::Alpaca
    } else {
        quote_provider(s)
    }
}

pub open spec fn recorded_provider(s: RunState) -> DataProvider {
    if s.latest_target == AssetClassTarget::Options { chain_provider(s) } else { quote_provider(s) }
}

pub open spec fn chain_credential(s: RunState) -> OptionCredential {
    if chain_provider(s) == DataProvider::Alpaca {
        if s.trading is Some {
            OptionCredential::Trading
        } else if s.has_data_credential {
            OptionCredential::Data
        } else {
            OptionCredential::NoCredential
        }
    } else {
        OptionCredential::NoCredential
    }
}

/// Starting a symbol: credentials are resolved for a broker mode; the local
/// ledger fetches from Yahoo without credentials.
pub open spec fn begin_symbol(s: RunState) -> (RunState, RunAction) {
    if s.initial_mode != ExecutionMode::LocalPaper {
        (RunState { stage: Stage::Resolve, ..s }, RunAction::ResolveCredentials)
    } else {
        (
            RunState { stage: Stage::Quote, trading: None, has_data_credential: false, ..s },
            RunAction::FetchQuote { provider: DataProvider::Yahoo, with_data_credential: false },
        )
    }
}

/// After the symbols: a broker strategy syncs with the broker, then the run is done.
pub open spec fn end_of_symbols(s: RunState) -> (RunState, RunAction) {
    if s.initial_mode != ExecutionMode::LocalPaper {
        (RunState { stage: Stage::Sync, ..s }, RunAction::SyncBroker)
    } else {
        (RunState { stage: Stage::Finished, ..s }, RunAction::Finish(RunEnd::Done))
    }
}

/// Moving on to the next symbol, or ending.
pub open spec fn next_symbol(s: RunState) -> (RunState, RunAction) {
    let t = RunState { index: (s.index + 1) as usize, ..s };
    if s.index + 1 < symbol_count(s) {
        begin_symbol(t)
    } else {
        end_of_symbols(t)
    }
}

/// Whether the run, at its stage, takes the event.
pub open spec fn accepts_event(stage: Stage, e: RunEvent) -> bool {
    match e {
        RunEvent::Failed(_) => stage != Stage::Finished && stage != Stage::Sync,
        RunEvent::StrategyLoaded(_) => stage == Stage::Load,
        RunEvent::CredentialsResolved { .. } => stage == Stage::Resolve,
        RunEvent::QuoteFetched => stage == Stage::Quote,
        RunEvent::LatestLoaded(_) => stage == Stage::Latest,
        RunEvent::OptionsFetched => stage == Stage::Options,
        RunEvent::SignalEvaluated { .. } => stage == Stage::Signal,
        RunEvent::TradePrepared(_) => stage == Stage::Prepare,
        RunEvent::RunMarked => stage == Stage::Mark,
        RunEvent::OrderSubmitted(_) => stage == Stage::Submit,
        RunEvent::FillReconciled(_) => stage == Stage::Poll,
        RunEvent::TradeRecorded => stage == Stage::Record,
        RunEvent::BrokerSynced => stage == Stage::Sync,
    }
}

/// One step of a run: from the state and the event the caller reports, the
/// next state and what to do next.
pub open spec fn run_transition(s: RunState, e: RunEvent) -> (RunState, RunAction) {
    match e {
        RunEvent::Failed(err) => (RunState { stage: Stage::Finished, ..s }, RunAction::Finish(RunEnd::Failed(err))),
        RunEvent::StrategyLoaded(None) => (RunState { stage: Stage::Finished, ..s }, RunAction::Finish(RunEnd::StrategyMissing)),
        RunEvent::StrategyLoaded(Some(info)) => {
            let t = RunState { initial_mode: info.mode, watched: info.watched, index: 0, ..s };
            if symbol_count(t) == 0 { end_of_symbols(t) } else { begin_symbol(t) }
        },
        RunEvent::CredentialsResolved { trading, data } => {
            let t = RunState { trading: trading, has_data_credential: data, stage: Stage::Quote, ..s };
            (t, RunAction::FetchQuote { provider: quote_provider(t), with_data_credential: data })
        },
        RunEvent::QuoteFetched => (RunState { stage: Stage::Latest, ..s }, RunAction::LoadLatest),
        RunEvent::LatestLoaded(None) => (RunState { stage: Stage::Finished, ..s }, RunAction::Finish(RunEnd::StrategyMissing)),
        RunEvent::LatestLoaded(Some(l)) => {
            let t = RunState { latest_mode: l.mode, latest_target: l.target, ..s };
            if l.target == AssetClassTarget::Options {
                (
                    RunState { stage: Stage::Options, ..t },
                    RunAction::FetchOptions { provider: chain_provider(t), credential: chain_credential(t) },
                )
            } else {
                (RunState { stage: Stage::Signal, ..t }, RunAction::EvaluateSignal)
            }
        },
        RunEvent::OptionsFetched => (RunState { stage: Stage::Signal, ..s }, RunAction::EvaluateSignal),
        RunEvent::SignalEvaluated { hold } => {
            if hold {
                (RunState { stage: Stage::Mark, ..s }, RunAction::MarkSignal)
            } else if s.latest_mode == ExecutionMode::LocalPaper {
                (RunState { stage: Stage::Prepare, ..s }, RunAction::PrepareTrade { needs_broker_order: false })
            } else if s.trading is None {
                (RunState { stage: Stage::Mark, ..s }, RunAction::MarkRun(RunNote::MissingCredential))
            } else if s.latest_mode == ExecutionMode::AlpacaLive && s.trading != Some(CredentialEnvironment::Live) {
                (RunState { stage: Stage::Mark, ..s }, RunAction::MarkRun(RunNote::NotLive))
            } else {
                (RunState { stage: Stage::Prepare, ..s }, RunAction::PrepareTrade { needs_broker_order: true })
            }
        },
        RunEvent::TradePrepared(PrepareOutcome::Skip(reason)) =>
            (RunState { stage: Stage::Mark, ..s }, RunAction::MarkRun(RunNote::Skipped(reason))),
        RunEvent::TradePrepared(PrepareOutcome::Ready { broker_order }) => {
            if s.latest_mode != ExecutionMode::LocalPaper && broker_order {
                (RunState { stage: Stage::Submit, ..s }, RunAction::SubmitOrder)
            } else {
                (
                    RunState { stage: Stage::Record, ..s },
                    RunAction::RecordTrade { provider: recorded_provider(s), reconciled: false },
                )
            }
        },
        RunEvent::OrderSubmitted(Err(m)) =>
            (RunState { stage: Stage::Mark, ..s }, RunAction::MarkRun(RunNote::SubmissionFailed(m))),
        RunEvent::OrderSubmitted(Ok(order_id)) =>
            (RunState { stage: Stage::Poll, ..s }, RunAction::PollFill { order_id }),
        RunEvent::FillReconciled(Err(m)) =>
            (RunState { stage: Stage::Mark, ..s }, RunAction::MarkRun(RunNote::FillFailed(m))),
        RunEvent::FillReconciled(Ok(())) =>
            (RunState { stage: Stage::Record, ..s }, RunAction::RecordTrade { provider: recorded_provider(s), reconciled: true }),
        RunEvent::RunMarked => next_symbol(s),
        RunEvent::TradeRecorded => next_symbol(s),
        RunEvent::BrokerSynced => (RunState { stage: Stage::Finished, ..s }, RunAction::Finish(RunEnd::Done)),
    }
}

impl RunState {
    /// A run of a strategy, for one symbol or for all the symbols it
    /// watches, and its first action: looking the strategy up.
    pub fn start(symbol_override: Option<String>) -> (r: (RunState, RunAction))
        ensures
            r.0.symbol_override == symbol_override,
            r.0.stage == Stage::Load,
            r.0.index == 0,
            r.1 == RunAction::LoadStrategy,
    {
        let s = RunState {
            symbol_override,
            initial_mode: ExecutionMode::LocalPaper,
            watched: Vec::new(),
            index: 0,
            trading: None,
            has_data_credential: false,
            latest_mode: ExecutionMode::LocalPaper,
            latest_target: AssetClassTarget::Equity,
            stage: Stage::Load,
        };
        (s, RunAction::LoadStrategy)
    }

    /// Whether the run, at its stage, takes the event.
    pub fn accepts(&self, e: &RunEvent) -> (r: bool)
        ensures
            r == accepts_event(self.stage, *e),
    {
        match e {
            RunEvent::Failed(_) => self.stage != Stage::Finished && self.stage != Stage::Sync,
            RunEvent::StrategyLoaded(_) => self.stage == Stage::Load,
            RunEvent::CredentialsResolved { .. } => self.stage == Stage::Resolve,
            RunEvent::QuoteFetched => self.stage == Stage::Quote,
            RunEvent::LatestLoaded(_) => self.stage == Stage::Latest,
            RunEvent::OptionsFetched => self.stage == Stage::Options,
            RunEvent::SignalEvaluated { .. } => self.stage == Stage::Signal,
            RunEvent::TradePrepared(_) => self.stage == Stage::Prepare,
            RunEvent::RunMarked => self.stage == Stage::Mark,
            RunEvent::OrderSubmitted(_) => self.stage == Stage::Submit,
            RunEvent::FillReconciled(_) => self.stage == Stage::Poll,
            RunEvent::TradeRecorded => self.stage == Stage::Record,
            RunEvent::BrokerSynced => self.stage == Stage::Sync,
        }
    }

    /// The symbol the run is at.
    pub fn current_symbol(&self) -> (r: Option<String>)
        ensures
            match r {
                Some(t) => current_symbol_of(*self) == Some(t@),
                None => current_symbol_of(*self) is None,
            },
    {
        match &self.symbol_override {
            Some(o) => if self.index == 0 { Some(o.clone()) } else { None },
            None => if self.index < self.watched.len() { Some(self.watched[self.index].clone()) } else { None },
        }
    }
}

fn begin_symbol_exec(s: RunState) -> (r: (RunState, RunAction))
    ensures
        r == begin_symbol(s),
{
    if s.initial_mode.requires_external_broker() {
        (RunState { stage: Stage::Resolve, ..s }, RunAction::ResolveCredentials)
    } else {
        (
            RunState { stage: Stage::Quote, trading: None, has_data_credential: false, ..s },
            RunAction::FetchQuote { provider: DataProvider::Yahoo, with_data_credential: false },
        )
    }
}

fn end_of_symbols_exec(s: RunState) -> (r: (RunState, RunAction))
    ensures
        r == end_of_symbols(s),
{
    if s.initial_mode.requires_external_broker() {
        (RunState { stage: Stage::Sync, ..s }, RunAction::SyncBroker)
    } else {
        (RunState { stage: Stage::Finished, ..s }, RunAction::Finish(RunEnd::Done))
    }
}

fn count_exec(s: &RunState) -> (n: usize)
    ensures
        n == symbol_count(*s),
{
    if s.symbol_override.is_some() { 1 } else { s.watched.len() }
}

fn next_symbol_exec(s: RunState) -> (r: (RunState, RunAction))
    requires
        s.index < usize::MAX,
    ensures
        r == next_symbol(s),
{
    let n = count_exec(&s);
    let i = s.index + 1;
    let t = RunState { index: i, ..s };
    if i < n {
        begin_symbol_exec(t)
    } else {
        end_of_symbols_exec(t)
    }
}

fn quote_provider_exec(s: &RunState) -> (p: DataProvider)
    ensures
        p == quote_provider(*s),
{
    data_provider_for(s.has_data_credential)
}

fn chain_provider_exec(s: &RunState) -> (p: DataProvider)
    ensures
        p == chain_provider(*s),
{
    option_provider_for(s.latest_target, s.latest_mode, quote_provider_exec(s))
}

fn recorded_provider_exec(s: &RunState) -> (p: DataProvider)
    ensures
        p == recorded_provider(*s),
{
    trade_provider_for(s.latest_target, chain_provider_exec(s), quote_provider_exec(s))
}

fn chain_credential_exec(s: &RunState) -> (c: OptionCredential)
    ensures
        c == chain_credential(*s),
{
    if chain_provider_exec(s) == DataProvider::Alpaca {
        if s.trading.is_some() {
            OptionCredential::Trading
        } else if s.has_data_credential {
            OptionCredential::Data
        } else {
            OptionCredential::NoCredential
        }
    } else {
        OptionCredential::NoCredential
    }
}

/// One step of a run (see [`run_transition`]).
pub fn run_step(s: RunState, e: RunEvent) -> (r: (RunState, RunAction))
    requires
        accepts_event(s.stage, e),
        s.index < usize::MAX,
    ensures
        r == run_transition(s, e),
{
    match e {
        RunEvent::Failed(err) => (RunState { stage: Stage::Finished, ..s }, RunAction::Finish(RunEnd::Failed(err))),
        RunEvent::StrategyLoaded(None) => (RunState { stage: Stage::Finished, ..s }, RunAction::Finish(RunEnd::StrategyMissing)),
        RunEvent::StrategyLoaded(Some(info)) => {
            let t = RunState { initial_mode: info.mode, watched: info.watched, index: 0, ..s };
            if count_exec(&t) == 0 { end_of_symbols_exec(t) } else { begin_symbol_exec(t) }
        },
        RunEvent::CredentialsResolved { trading, data } => {
            let t = RunState { trading: trading, has_data_credential: data, stage: Stage::Quote, ..s };
            let p = quote_provider_exec(&t);
            (t, RunAction::FetchQuote { provider: p, with_data_credential: data })
        },
        RunEvent::QuoteFetched => (RunState { stage: Stage::Latest, ..s }, RunAction::LoadLatest),
        RunEvent::LatestLoaded(None) => (RunState { stage: Stage::Finished, ..s }, RunAction::Finish(RunEnd::StrategyMissing)),
        RunEvent::LatestLoaded(Some(l)) => {
            let t = RunState { latest_mode: l.mode, latest_target: l.target, ..s };
            if l.target == AssetClassTarget::Options {
                let p = chain_provider_exec(&t);
                let c = chain_credential_exec(&t);
                (RunState { stage: Stage::Options, ..t }, RunAction::FetchOptions { provider: p, credential: c })
            } else {
                (RunState { stage: Stage::Signal, ..t }, RunAction::EvaluateSignal)
            }
        },
        RunEvent::OptionsFetched => (RunState { stage: Stage::Signal, ..s }, RunAction::EvaluateSignal),
        RunEvent::SignalEvaluated { hold } => {
            if hold {
                (RunState { stage: Stage::Mark, ..s }, RunAction::MarkSignal)
            } else if !s.latest_mode.requires_external_broker() {
                (RunState { stage: Stage::Prepare, ..s }, RunAction::PrepareTrade { needs_broker_order: false })
            } else if s.trading.is_none() {
                (RunState { stage: Stage::Mark, ..s }, RunAction::MarkRun(RunNote::MissingCredential))
            } else if s.latest_mode == ExecutionMode::AlpacaLive && s.trading != Some(CredentialEnvironment::Live) {
                (RunState { stage: Stage::Mark, ..s }, RunAction::MarkRun(RunNote::NotLive))
            } else {
                (RunState { stage: Stage::Prepare, ..s }, RunAction::PrepareTrade { needs_broker_order: true })
            }
        },
        RunEvent::TradePrepared(PrepareOutcome::Skip(reason)) =>
            (RunState { stage: Stage::Mark, ..s }, RunAction::MarkRun(RunNote::Skipped(reason))),
        RunEvent::TradePrepared(PrepareOutcome::Ready { broker_order }) => {
            if s.latest_mode.requires_external_broker() && broker_order {
                (RunState { stage: Stage::Submit, ..s }, RunAction::SubmitOrder)
            } else {
                let p = recorded_provider_exec(&s);
                (RunState { stage: Stage::Record, ..s }, RunAction::RecordTrade { provider: p, reconciled: false })
            }
        },
        RunEvent::OrderSubmitted(Err(m)) =>
            (RunState { stage: Stage::Mark, ..s }, RunAction::MarkRun(RunNote::SubmissionFailed(m))),
        RunEvent::OrderSubmitted(Ok(order_id)) =>
            (RunState { stage: Stage::Poll, ..s }, RunAction::PollFill { order_id }),
        RunEvent::FillReconciled(Err(m)) =>
            (RunState { stage: Stage::Mark, ..s }, RunAction::MarkRun(RunNote::FillFailed(m))),
        RunEvent::FillReconciled(Ok(())) => {
            let p = recorded_provider_exec(&s);
            (RunState { stage: Stage::Record, ..s }, RunAction::RecordTrade { provider: p, reconciled: true })
        },
        RunEvent::RunMarked => next_symbol_exec(s),
        RunEvent::TradeRecorded => next_symbol_exec(s),
        RunEvent::BrokerSynced => (RunState { stage: Stage::Finished, ..s }, RunAction::Finish(RunEnd::Done)),
    }
}

/// The text a run is marked with for a note.
pub open spec fn note_text(n: RunNote) -> Seq<char> {
    match n {
        RunNote::MissingCredential => missing_credential_text(),
        RunNote::NotLive => not_live_text(),
        RunNote::Skipped(reason) => reason@,
        RunNote::SubmissionFailed(m) => "Alpaca order submission failed: "@ + m@,
        RunNote::FillFailed(m) => "Alpaca fill reconciliation failed: "@ + m@,
    }
}

impl RunNote {
    /// The text the run is marked with.
    pub fn text(&self) -> (t: String)
        ensures
            t@ == note_text(*self),
    {
        match self {
            RunNote::MissingCredential => string_of("Missing Alpaca trading credential"),
            RunNote::NotLive => string_of("Live mode selected but credential is not live"),
            RunNote::Skipped(reason) => reason.clone(),
            RunNote::SubmissionFailed(m) => string_of("Alpaca order submission failed: ").concat(m.as_str()),
            RunNote::FillFailed(m) => string_of("Alpaca fill reconciliation failed: ").concat(m.as_str()),
        }
    }
}

/// The error of a run whose strategy does not exist.
pub fn missing_strategy_error(strategy_id: &str) -> (e: AppError)
    ensures
        e matches AppError::NotFound(m) && m@ == "strategy "@ + strategy_id@,
{
    AppError::NotFound(string_of("strategy ").concat(strategy_id))
}


/// Whether a run that is about to place or follow a broker order holds a
/// trading credential, a live one for live trading.
pub open spec fn order_credential_ok(s: RunState) -> bool {
    (s.stage == Stage::Prepare || s.stage == Stage::Submit || s.stage == Stage::Poll)
        && s.latest_mode != ExecutionMode::LocalPaper
        ==> (s.trading is Some && !(s.latest_mode == ExecutionMode::AlpacaLive
            && s.trading != Some(CredentialEnvironment::Live)))
}

/// A run never sends an order to the broker without a trading credential,
/// nor a live order with a paper credential: every step keeps that so, and
/// an order is only ever submitted from a state where it holds.
pub proof fn law_orders_need_a_fitting_credential(s: RunState, e: RunEvent)
    requires
        order_credential_ok(s),
        accepts_event(s.stage, e),
    ensures
        order_credential_ok(run_transition(s, e).0),
        run_transition(s, e).1 == RunAction::SubmitOrder ==> s.latest_mode != ExecutionMode::LocalPaper
            && s.trading is Some
            && !(s.latest_mode == ExecutionMode::AlpacaLive && s.trading != Some(CredentialEnvironment::Live)),
{
}

/// The run visits every symbol it was started with: once a symbol ends, by a
/// recorded trade or by a note, the run moves on to the next symbol and
/// begins it (credentials for a broker strategy, a Yahoo quote for the local
/// ledger); only after the last symbol does it sync the broker or finish.
pub proof fn law_run_visits_every_symbol(s: RunState, e: RunEvent)
    requires
        e is TradeRecorded || e is RunMarked,
        s.index < usize::MAX,
    ensures
        ({
            let (t, a) = run_transition(s, e);
            &&& t.symbol_override == s.symbol_override
            &&& t.watched == s.watched
            &&& t.initial_mode == s.initial_mode
            &&& t.index == s.index + 1
            &&& s.index + 1 < symbol_count(s) ==> {
                &&& current_symbol_of(t) is Some
                &&& s.symbol_override is None ==> current_symbol_of(t) == Some(s.watched@[s.index + 1]@)
                &&& s.initial_mode != ExecutionMode::LocalPaper ==> a == RunAction::ResolveCredentials
                    && t.stage == Stage::Resolve
                &&& s.initial_mode == ExecutionMode::LocalPaper
                    ==> a == (RunAction::FetchQuote { provider: DataProvider::Yahoo, with_data_credential: false })
                    && t.stage == Stage::Quote
            }
            &&& s.index + 1 >= symbol_count(s) ==> {
                &&& s.initial_mode != ExecutionMode::LocalPaper ==> a == RunAction::SyncBroker
                &&& s.initial_mode == ExecutionMode::LocalPaper ==> a == RunAction::Finish(RunEnd::Done)
            }
        }),
{
}

/// Where a run's data comes from: quotes from the broker exactly when a data
/// credential was found, and from Yahoo otherwise; the option chain of an
/// options strategy from the broker when it trades at the broker, else from
/// the quote provider, sent with the trading credential when there is one,
/// else the data credential, and with none to Yahoo; a trade is recorded
/// under the chain's provider for an options strategy and under the quote
/// provider otherwise.
pub proof fn law_run_providers(s: RunState, e: RunEvent)
    ensures
        e matches RunEvent::CredentialsResolved { trading, data } ==> run_transition(s, e).1 == (RunAction::FetchQuote {
            provider: if data { DataProvider::Alpaca } else { DataProvider::Yahoo },
            with_data_credential: data,
        }),
        match e {
            RunEvent::LatestLoaded(Some(l)) => l.target == AssetClassTarget::Options ==> {
                let quote = if s.has_data_credential { DataProvider::Alpaca } else { DataProvider::Yahoo };
                let chain = if l.mode != ExecutionMode::LocalPaper { DataProvider::Alpaca } else { quote };
                run_transition(s, e).1 == (RunAction::FetchOptions {
                    provider: chain,
                    credential: if chain == DataProvider::Yahoo {
                        OptionCredential::NoCredential
                    } else if s.trading is Some {
                        OptionCredential::Trading
                    } else if s.has_data_credential {
                        OptionCredential::Data
                    } else {
                        OptionCredential::NoCredential
                    },
                })
            },
            _ => true,
        },
        (e matches RunEvent::FillReconciled(Ok(_))
            || (e matches RunEvent::TradePrepared(PrepareOutcome::Ready { broker_order })
                && !(s.latest_mode != ExecutionMode::LocalPaper && broker_order))) ==> {
            let quote = if s.has_data_credential { DataProvider::Alpaca } else { DataProvider::Yahoo };
            let recorded = if s.latest_target == AssetClassTarget::Options && s.latest_mode != ExecutionMode::LocalPaper {
                DataProvider::Alpaca
            } else {
                quote
            };
            run_transition(s, e).1 == (RunAction::RecordTrade { provider: recorded, reconciled: e is FillReconciled })
        },
{
}

/// What a signal leads to: a hold records the signal; otherwise the local
/// ledger prepares a trade, and a broker strategy is marked "Missing Alpaca
/// trading credential" without a trading credential, "Live mode selected but
/// credential is not live" in live mode with a paper one, and else prepares
/// an order. The notes of failed orders carry the broker's message.
pub proof fn law_run_gates(s: RunState, hold: bool, m: String)
    ensures
        ({
            let a = run_transition(s, RunEvent::SignalEvaluated { hold }).1;
            &&& hold ==> a == RunAction::MarkSignal
            &&& !hold && s.latest_mode == ExecutionMode::LocalPaper
                ==> a == (RunAction::PrepareTrade { needs_broker_order: false })
            &&& !hold && s.latest_mode != ExecutionMode::LocalPaper && s.trading is None
                ==> (a matches RunAction::MarkRun(n) && note_text(n) == "Missing Alpaca trading credential"@)
            &&& !hold && s.latest_mode == ExecutionMode::AlpacaLive && s.trading == Some(CredentialEnvironment::Paper)
                ==> (a matches RunAction::MarkRun(n) && note_text(n) == "Live mode selected but credential is not live"@)
            &&& !hold && s.latest_mode != ExecutionMode::LocalPaper && s.trading is Some
                && !(s.latest_mode == ExecutionMode::AlpacaLive && s.trading == Some(CredentialEnvironment::Paper))
                ==> a == (RunAction::PrepareTrade { needs_broker_order: true })
        }),
        run_transition(s, RunEvent::OrderSubmitted(Err(m))).1 matches RunAction::MarkRun(n)
            && note_text(n) == "Alpaca order submission failed: "@ + m@,
        run_transition(s, RunEvent::FillReconciled(Err(m))).1 matches RunAction::MarkRun(n)
            && note_text(n) == "Alpaca fill reconciliation failed: "@ + m@,
        run_transition(s, RunEvent::StrategyLoaded(None)).1 == RunAction::Finish(RunEnd::StrategyMissing),
{
    match s.trading {
        Some(CredentialEnvironment::Paper) => {},
        Some(CredentialEnvironment::Live) => {},
        None => {},
    }
}

/// How a run ends: a failed step ends it with that step's error, a missing
/// strategy (at the start or when reloaded) ends it as missing, and the
/// broker sync after the symbols ends it done; once ended, it stays ended.
pub proof fn law_run_ends(s: RunState, err: AppError)
    ensures
        run_transition(s, RunEvent::Failed(err)).1 == RunAction::Finish(RunEnd::Failed(err)),
        run_transition(s, RunEvent::Failed(err)).0.stage == Stage::Finished,
        run_transition(s, RunEvent::StrategyLoaded(None)).1 == RunAction::Finish(RunEnd::StrategyMissing),
        run_transition(s, RunEvent::LatestLoaded(None)).1 == RunAction::Finish(RunEnd::StrategyMissing),
        run_transition(s, RunEvent::BrokerSynced).1 == RunAction::Finish(RunEnd::Done),
        forall|e: RunEvent| !accepts_event(Stage::Finished, e),
{
}

/// How a run begins: with the strategy found, it visits the symbol asked
/// for, or else the strategy's watched symbols from the first one on; a
/// broker strategy first resolves its credentials, the local ledger fetches
/// a Yahoo quote; a strategy with nothing to visit goes straight to the end.
pub proof fn law_run_starts(s: RunState, info: StrategyInfo)
    requires
        s.stage == Stage::Load,
    ensures
        ({
            let (t, a) = run_transition(s, RunEvent::StrategyLoaded(Some(info)));
            &&& t.index == 0
            &&& t.watched == info.watched
            &&& t.initial_mode == info.mode
            &&& t.symbol_override == s.symbol_override
            &&& (s.symbol_override is Some || info.watched@.len() > 0) ==> {
                &&& current_symbol_of(t) == Some(match s.symbol_override {
                    Some(o) => o@,
                    None => info.watched@[0]@,
                })
                &&& info.mode != ExecutionMode::LocalPaper ==> a == RunAction::ResolveCredentials
                &&& info.mode == ExecutionMode::LocalPaper
                    ==> a == (RunAction::FetchQuote { provider: DataProvider::Yahoo, with_data_credential: false })
            }
            &&& (s.symbol_override is None && info.watched@.len() == 0) ==> {
                &&& info.mode != ExecutionMode::LocalPaper ==> a == RunAction::SyncBroker
                &&& info.mode == ExecutionMode::LocalPaper ==> a == RunAction::Finish(RunEnd::Done)
            }
        }),
{
}

} // verus!
