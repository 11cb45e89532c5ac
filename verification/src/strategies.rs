//! The five built-in strategies and the run state of each.
//!
//! The manager decides which state changes a request is allowed to make;
//! starting and aborting the background work of a strategy is up to the caller.
use vstd::prelude::*;
use crate::text::string_of;

verus! {

#[derive(Debug, Clone, Copy, PartialEq, Eq, Structural)]
pub enum StrategyState {
    Idle,
    Running,
    Error,
}

#[derive(Debug, Clone)]
pub struct Strategy {
    pub id: u32,
    pub name: String,
    pub description: String,
    pub state: StrategyState,
}

/// The run state of strategies 1 to 5 (slot `i` holds strategy `i + 1`).
pub struct StrategyManager {
    states: Vec<StrategyState>,
}

/// The number of built-in strategies; their ids are 1 to this number.
pub open spec fn strategy_count() -> nat {
    5
}

pub open spec fn is_strategy_id(id: u32) -> bool {
    1 <= id <= 5
}

pub open spec fn catalog_name(id: u32) -> Seq<char> {
    if id == 1 {
        "Listing Arbitrage"@
    } else if id == 2 {
        "VWAP Mean Reversion"@
    } else if id == 3 {
        "0DTE Delta-Neutral"@
    } else if id == 4 {
        "Gamma Scalping"@
    } else {
        "Put-Call Parity"@
    }
}

pub open spec fn catalog_description(id: u32) -> Seq<char> {
    if id == 1 {
        "Snipes new $SPY options via Black-Scholes valuation gaps and Kronos trend filtering."@
    } else if id == 2 {
        "Automated entries on standard deviation price extensions from the VWAP."@
    } else if id == 3 {
        "Harvests theta decay on same-day expiry options via automated spreads."@
    } else if id == 4 {
        "Dynamic delta hedging to profit from realized volatility."@
    } else {
        "Arbitrages discrepancies between synthesized and market option prices."@
    }
}

fn catalog_entry(id: u32) -> (r: (String, String))
    requires
        is_strategy_id(id),
    ensures
        r.0@ == catalog_name(id),
        r.1@ == catalog_description(id),
{
    if id == 1 {
        (string_of("Listing Arbitrage"), string_of("Snipes new $SPY options via Black-Scholes valuation gaps and Kronos trend filtering."))
    } else if id == 2 {
        (string_of("VWAP Mean Reversion"), string_of("Automated entries on standard deviation price extensions from the VWAP."))
    } else if id == 3 {
        (string_of("0DTE Delta-Neutral"), string_of("Harvests theta decay on same-day expiry options via automated spreads."))
    } else if id == 4 {
        (string_of("Gamma Scalping"), string_of("Dynamic delta hedging to profit from realized volatility."))
    } else {
        (string_of("Put-Call Parity"), string_of("Arbitrages discrepancies between synthesized and market option prices."))
    }
}

/// Whether a start request is granted to a strategy in state `s` (none for
/// an unknown id): any known strategy that is not running may start.
pub open spec fn start_allowed(s: Option<StrategyState>) -> bool {
    s matches Some(st) && st != StrategyState::Running
}

/// Whether a stop request is granted: only a running strategy may stop.
pub open spec fn stop_allowed(s: Option<StrategyState>) -> bool {
    s == Some(StrategyState::Running)
}

/// The state after a start request.
pub open spec fn state_after_start(s: Option<StrategyState>) -> Option<StrategyState> {
    if start_allowed(s) { Some(StrategyState::Running) } else { s }
}

/// The state after a stop request; stopping all strategies applies it to each.
pub open spec fn state_after_stop(s: Option<StrategyState>) -> Option<StrategyState> {
    if stop_allowed(s) { Some(StrategyState::Idle) } else { s }
}

/// A strategy that a start made running can be stopped, which leaves it idle.
pub proof fn law_start_then_stop(s: Option<StrategyState>)
    requires
        start_allowed(s),
    ensures
        stop_allowed(state_after_start(s)),
        state_after_stop(state_after_start(s)) == Some(StrategyState::Idle),
{
}

/// A strategy cannot be started twice: once a start is granted, a second
/// one is refused and changes nothing.
pub proof fn law_no_double_start(s: Option<StrategyState>)
    ensures
        !start_allowed(state_after_start(s)),
        state_after_start(state_after_start(s)) == state_after_start(s),
{
}

/// After stopping, nothing is running; stopping again changes nothing.
pub proof fn law_stop_leaves_nothing_running(s: Option<StrategyState>)
    ensures
        state_after_stop(s) != Some(StrategyState::Running),
        state_after_stop(state_after_stop(s)) == state_after_stop(s),
{
}

/// The life of a strategy: a start is granted to an idle strategy and to
/// one that failed, which then runs; a stop only to a running one, which
/// then is idle; every other request leaves the state as it was.
pub proof fn law_strategy_lifecycle(s: Option<StrategyState>)
    ensures
        start_allowed(s) <==> (s == Some(StrategyState::Idle) || s == Some(StrategyState::Error)),
        stop_allowed(s) <==> s == Some(StrategyState::Running),
        state_after_start(s) == if s == Some(StrategyState::Idle) || s == Some(StrategyState::Error) {
            Some(StrategyState::Running)
        } else {
            s
        },
        state_after_stop(s) == if s == Some(StrategyState::Running) { Some(StrategyState::Idle) } else { s },
{
}

impl StrategyManager {
    pub closed spec fn wf(&self) -> bool {
        self.states@.len() == strategy_count()
    }

    /// The state of strategy `id`; none for an unknown id.
    pub closed spec fn state_of(&self, id: u32) -> Option<StrategyState> {
        if is_strategy_id(id) {
            Some(self.states@[id - 1])
        } else {
            None
        }
    }

    /// All strategies idle.
    pub fn new() -> (m: StrategyManager)
        ensures
            m.wf(),
            forall|id: u32| is_strategy_id(id) ==> m.state_of(id) == Some(StrategyState::Idle),
            forall|id: u32| !is_strategy_id(id) ==> m.state_of(id) is None,
    {
        let mut states: Vec<StrategyState> = Vec::new();
        let mut i: usize = 0;
        while i < 5
            invariant
                i <= 5,
                states@.len() == i,
                forall|j: int| 0 <= j < i ==> states@[j] == StrategyState::Idle,
            decreases 5 - i,
        {
            states.push(StrategyState::Idle);
            i = i + 1;
        }
        StrategyManager { states }
    }

    pub fn get_state(&self, strategy_id: u32) -> (r: Option<StrategyState>)
        requires
            self.wf(),
        ensures
            r == self.state_of(strategy_id),
    {
        if 1 <= strategy_id && strategy_id <= 5 {
            Some(self.states[(strategy_id - 1) as usize])
        } else {
            None
        }
    }

    /// Marks a strategy running. Refused, with no change, for an unknown id
    /// ("Strategy not found") and for a strategy already running
    /// ("Strategy is already running"). A strategy in the error state may be
    /// started again.
    pub fn start_strategy(&mut self, strategy_id: u32) -> (r: Result<(), String>)
        requires
            old(self).wf(),
        ensures
            final(self).wf(),
            old(self).state_of(strategy_id) is None ==> (r matches Err(e) && e@ == "Strategy not found"@),
            old(self).state_of(strategy_id) == Some(StrategyState::Running)
                ==> (r matches Err(e) && e@ == "Strategy is already running"@),
            r is Ok <==> start_allowed(old(self).state_of(strategy_id)),
            final(self).state_of(strategy_id) == state_after_start(old(self).state_of(strategy_id)),
            forall|id: u32| id != strategy_id ==> final(self).state_of(id) == old(self).state_of(id),
            r is Err ==> final(self).state_of(strategy_id) == old(self).state_of(strategy_id),
    {
        match self.get_state(strategy_id) {
            None => Err(string_of("Strategy not found")),
            Some(StrategyState::Running) => Err(string_of("Strategy is already running")),
            Some(_) => {
                self.states.set((strategy_id - 1) as usize, StrategyState::Running);
                Ok(())
            },
        }
    }

    /// Marks a running strategy idle. Refused, with no change, for an unknown
    /// id ("Strategy not found") and for a strategy that is not running
    /// ("Strategy is not running").
    pub fn stop_strategy(&mut self, strategy_id: u32) -> (r: Result<(), String>)
        requires
            old(self).wf(),
        ensures
            final(self).wf(),
            old(self).state_of(strategy_id) is None ==> (r matches Err(e) && e@ == "Strategy not found"@),
            (old(self).state_of(strategy_id) matches Some(s) && s != StrategyState::Running)
                ==> (r matches Err(e) && e@ == "Strategy is not running"@),
            r is Ok <==> stop_allowed(old(self).state_of(strategy_id)),
            final(self).state_of(strategy_id) == state_after_stop(old(self).state_of(strategy_id)),
            forall|id: u32| id != strategy_id ==> final(self).state_of(id) == old(self).state_of(id),
            r is Err ==> final(self).state_of(strategy_id) == old(self).state_of(strategy_id),
    {
        match self.get_state(strategy_id) {
            None => Err(string_of("Strategy not found")),
            Some(StrategyState::Running) => {
                self.states.set((strategy_id - 1) as usize, StrategyState::Idle);
                Ok(())
            },
            Some(_) => Err(string_of("Strategy is not running")),
        }
    }

    /// Records that the work of a known strategy failed.
    pub fn mark_error(&mut self, strategy_id: u32)
        requires
            old(self).wf(),
        ensures
            final(self).wf(),
            is_strategy_id(strategy_id) ==> final(self).state_of(strategy_id) == Some(StrategyState::Error),
            forall|id: u32| id != strategy_id ==> final(self).state_of(id) == old(self).state_of(id),
            !is_strategy_id(strategy_id) ==> final(self).state_of(strategy_id) == old(self).state_of(strategy_id),
    {
        if 1 <= strategy_id && strategy_id <= 5 {
            self.states.set((strategy_id - 1) as usize, StrategyState::Error);
        }
    }

    /// Stops every running strategy, in increasing id order, and reports each
    /// with the outcome "stopped".
    pub fn stop_all_strategies(&mut self) -> (results: Vec<(u32, String)>)
        requires
            old(self).wf(),
        ensures
            final(self).wf(),
            forall|id: u32| final(self).state_of(id) == state_after_stop(old(self).state_of(id)),
            forall|i: int| 0 <= i < results@.len() ==> (#[trigger] results@[i]).1@ == "stopped"@,
            forall|i: int, j: int| 0 <= i < j < results@.len() ==> results@[i].0 < results@[j].0,
            forall|id: u32| (exists|i: int| 0 <= i < results@.len() && (#[trigger] results@[i]).0 == id)
                <==> old(self).state_of(id) == Some(StrategyState::Running),
    {
        let mut results: Vec<(u32, String)> = Vec::new();
        let mut id: u32 = 1;
        while id <= 5
            invariant
                1 <= id <= 6,
                self.wf(),
                forall|k: u32| is_strategy_id(k) && k >= id ==> self.state_of(k) == old(self).state_of(k),
                forall|k: u32| is_strategy_id(k) && k < id ==> self.state_of(k) == (
                    if old(self).state_of(k) == Some(StrategyState::Running) {
                        Some(StrategyState::Idle)
                    } else {
                        old(self).state_of(k)
                    }),
                forall|i: int| 0 <= i < results@.len() ==> (#[trigger] results@[i]).1@ == "stopped"@,
                forall|i: int| 0 <= i < results@.len() ==> (#[trigger] results@[i]).0 < id,
                forall|i: int, j: int| 0 <= i < j < results@.len() ==> results@[i].0 < results@[j].0,
                forall|k: u32| k < id ==> ((exists|i: int| 0 <= i < results@.len() && (#[trigger] results@[i]).0 == k)
                    <==> old(self).state_of(k) == Some(StrategyState::Running)),
            decreases 6 - id,
        {
            let ghost before = results@;
            if self.get_state(id) == Some(StrategyState::Running) {
                let r = self.stop_strategy(id);
                assert(r is Ok);
                results.push((id, string_of("stopped")));
                proof {
                    assert(results@[results@.len() - 1].0 == id);
                    assert forall|k: u32| k < id + 1 implies ((exists|i: int| 0 <= i < results@.len() && (#[trigger] results@[i]).0 == k)
                        <==> old(self).state_of(k) == Some(StrategyState::Running)) by {
                        if exists|i: int| 0 <= i < results@.len() && (#[trigger] results@[i]).0 == k {
                            let i = choose|i: int| 0 <= i < results@.len() && (#[trigger] results@[i]).0 == k;
                            if i < before.len() {
                                assert(before[i].0 == k);
                            }
                        }
                        if k < id && old(self).state_of(k) == Some(StrategyState::Running) {
                            let i = choose|i: int| 0 <= i < before.len() && (#[trigger] before[i]).0 == k;
                            assert(results@[i].0 == k);
                        }
                    }
                }
            } else {
                proof {
                    assert forall|k: u32| k < id + 1 implies ((exists|i: int| 0 <= i < results@.len() && (#[trigger] results@[i]).0 == k)
                        <==> old(self).state_of(k) == Some(StrategyState::Running)) by {
                        if k == id {
                            assert(forall|i: int| 0 <= i < results@.len() ==> (#[trigger] results@[i]).0 < id);
                        }
                    }
                }
            }
            id = id + 1;
        }
        proof {
            assert forall|k: u32| (exists|i: int| 0 <= i < results@.len() && (#[trigger] results@[i]).0 == k)
                <==> old(self).state_of(k) == Some(StrategyState::Running) by {
                if k >= 6 {
                    assert(forall|i: int| 0 <= i < results@.len() ==> (#[trigger] results@[i]).0 < 6);
                }
            }
        }
        results
    }

    /// The five strategies, in id order, with their names, descriptions and
    /// current states.
    pub fn get_all_strategies(&self) -> (r: Vec<Strategy>)
        requires
            self.wf(),
        ensures
            r@.len() == 5,
            forall|i: int| 0 <= i < 5 ==> {
                &&& (#[trigger] r@[i]).id == i + 1
                &&& r@[i].name@ == catalog_name((i + 1) as u32)
                &&& r@[i].description@ == catalog_description((i + 1) as u32)
                &&& Some(r@[i].state) == self.state_of((i + 1) as u32)
            },
    {
        let mut r: Vec<Strategy> = Vec::new();
        let mut id: u32 = 1;
        while id <= 5
            invariant
                1 <= id <= 6,
                self.wf(),
                r@.len() == id - 1,
                forall|i: int| 0 <= i < id - 1 ==> {
                    &&& (#[trigger] r@[i]).id == i + 1
                    &&& r@[i].name@ == catalog_name((i + 1) as u32)
                    &&& r@[i].description@ == catalog_description((i + 1) as u32)
                    &&& Some(r@[i].state) == self.state_of((i + 1) as u32)
                },
            decreases 6 - id,
        {
            let (name, description) = catalog_entry(id);
            let state = self.states[(id - 1) as usize];
            r.push(Strategy { id, name, description, state });
            id = id + 1;
        }
        r
    }
}

/// A strategy known by its display name.
pub trait StrategyTrait {
    fn name(&self) -> &str;
}

pub struct DeltaNeutral {
    pub name: String,
}

pub struct GammaScalping {
    pub name: String,
}

pub struct PutCallParity {
    pub name: String,
}

pub struct VwapReversion {
    pub name: String,
}

impl DeltaNeutral {
    pub fn new() -> (s: Self)
        ensures
            s.name@ == "0DTE Delta-Neutral"@,
    {
        DeltaNeutral { name: string_of("0DTE Delta-Neutral") }
    }
}

impl GammaScalping {
    pub fn new() -> (s: Self)
        ensures
            s.name@ == "Gamma Scalping"@,
    {
        GammaScalping { name: string_of("Gamma Scalping") }
    }
}

impl PutCallParity {
    pub fn new() -> (s: Self)
        ensures
            s.name@ == "Put-Call Parity"@,
    {
        PutCallParity { name: string_of("Put-Call Parity") }
    }
}

impl VwapReversion {
    pub fn new() -> (s: Self)
        ensures
            s.name@ == "VWAP Mean Reversion"@,
    {
        VwapReversion { name: string_of("VWAP Mean Reversion") }
    }
}

impl StrategyTrait for DeltaNeutral {
    fn name(&self) -> (r: &str)
        ensures
            r@ == self.name@,
    {
        self.name.as_str()
    }
}

impl StrategyTrait for GammaScalping {
    fn name(&self) -> (r: &str)
        ensures
            r@ == self.name@,
    {
        self.name.as_str()
    }
}

impl StrategyTrait for PutCallParity {
    fn name(&self) -> (r: &str)
        ensures
            r@ == self.name@,
    {
        self.name.as_str()
    }
}

impl StrategyTrait for VwapReversion {
    fn name(&self) -> (r: &str)
        ensures
            r@ == self.name@,
    {
        self.name.as_str()
    }
}

} // verus!
