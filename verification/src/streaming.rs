//! Decisions of the live price feeds: which symbols are watched, what a
//! client may subscribe to and how often it may ask, which events a client
//! is sent, and which contracts are listed first.
use vstd::prelude::*;
use crate::models::{provider_text, CredentialEnvironment, DataProvider};
use crate::records::{lemma_texts_push, texts};
use crate::text::{ascii_digit, is_ascii_digit, str_equal, string_of};
use vstd::utf8::encode_utf8;

verus! {

// ------------------------------------------------------------------
// Symbol sets
// ------------------------------------------------------------------

pub open spec fn text_set(v: Seq<String>) -> Set<Seq<char>> {
    Set::new(|t: Seq<char>| exists|i: int| 0 <= i < v.len() && (#[trigger] v[i])@ == t)
}

pub open spec fn distinct_texts(v: Seq<String>) -> bool {
    forall|i: int, j: int| 0 <= i < j < v.len() ==> (#[trigger] v[i])@ != (#[trigger] v[j])@
}

/// A set of symbols without repeats.
pub struct SymbolSet {
    items: Vec<String>,
}

impl SymbolSet {
    pub closed spec fn view(&self) -> Set<Seq<char>> {
        text_set(self.items@)
    }

    pub closed spec fn wf(&self) -> bool {
        distinct_texts(self.items@)
    }

    pub closed spec fn size(&self) -> nat {
        self.items@.len()
    }

    pub proof fn lemma_size(&self)
        requires
            self.wf(),
        ensures
            self.view().finite(),
            self.view().len() == self.size(),
    {
        lemma_distinct_text_set_len(self.items@);
    }

    pub fn new() -> (s: Self)
        ensures
            s.wf(),
            s.view() == Set::<Seq<char>>::empty(),
            s.size() == 0,
    {
        let s = SymbolSet { items: Vec::new() };
        assert(s.view() =~= Set::<Seq<char>>::empty());
        s
    }

    pub fn len(&self) -> (n: usize)
        ensures
            n == self.size(),
    {
        self.items.len()
    }

    fn position(&self, sym: &str) -> (r: Option<usize>)
        ensures
            r matches Some(i) ==> i < self.items@.len() && self.items@[i as int]@ == sym@,
            r is None ==> !self.view().contains(sym@),
    {
        let mut i: usize = 0;
        while i < self.items.len()
            invariant
                i <= self.items.len(),
                forall|k: int| 0 <= k < i ==> self.items@[k]@ != sym@,
            decreases self.items.len() - i,
        {
            if str_equal(self.items[i].as_str(), sym) {
                return Some(i);
            }
            i = i + 1;
        }
        None
    }

    pub fn contains(&self, sym: &str) -> (r: bool)
        ensures
            r == self.view().contains(sym@),
    {
        self.position(sym).is_some()
    }

    /// Adds a symbol; tells whether it was new.
    pub fn insert(&mut self, sym: String) -> (added: bool)
        requires
            old(self).wf(),
        ensures
            final(self).wf(),
            final(self).view() == old(self).view().insert(sym@),
            added == !old(self).view().contains(sym@),
            final(self).size() == old(self).size() + if added { 1nat } else { 0nat },
    {
        if self.contains(sym.as_str()) {
            assert(self.view().insert(sym@) =~= self.view());
            false
        } else {
            let ghost before = self.items@;
            self.items.push(sym);
            proof {
                assert forall|i: int, j: int| 0 <= i < j < self.items@.len() implies (#[trigger] self.items@[i])@ != (#[trigger] self.items@[j])@ by {
                    if j == before.len() {
                        assert(before[i]@ != sym@);
                    } else {
                        assert(before[i] == self.items@[i] && before[j] == self.items@[j]);
                    }
                }
                assert forall|t: Seq<char>| self.view().contains(t) <==> old(self).view().contains(t) || t == sym@ by {
                    if self.view().contains(t) {
                        let i = choose|i: int| 0 <= i < self.items@.len() && (#[trigger] self.items@[i])@ == t;
                        if i < before.len() {
                            assert(before[i]@ == t);
                        }
                    }
                    if old(self).view().contains(t) {
                        let i = choose|i: int| 0 <= i < before.len() && (#[trigger] before[i])@ == t;
                        assert(self.items@[i]@ == t);
                    }
                    if t == sym@ {
                        assert(self.items@[before.len() as int]@ == t);
                    }
                }
                assert(self.view() =~= old(self).view().insert(sym@));
            }
            true
        }
    }

    /// Removes a symbol if present.
    pub fn remove(&mut self, sym: &str)
        requires
            old(self).wf(),
        ensures
            final(self).wf(),
            final(self).view() == old(self).view().remove(sym@),
    {
        match self.position(sym) {
            None => {
                assert(self.view().remove(sym@) =~= self.view());
            },
            Some(i) => {
                let ghost before = self.items@;
                self.items.remove(i);
                proof {
                    assert forall|a: int, b: int| 0 <= a < b < self.items@.len() implies (#[trigger] self.items@[a])@ != (#[trigger] self.items@[b])@ by {
                        let a0 = if a < i { a } else { a + 1 };
                        let b0 = if b < i { b } else { b + 1 };
                        assert(self.items@[a] == before[a0] && self.items@[b] == before[b0]);
                    }
                    assert forall|t: Seq<char>| self.view().contains(t) <==> (old(self).view().contains(t) && t != sym@) by {
                        if self.view().contains(t) {
                            let k = choose|k: int| 0 <= k < self.items@.len() && (#[trigger] self.items@[k])@ == t;
                            let k0 = if k < i { k } else { k + 1 };
                            assert(before[k0]@ == t);
                            assert(k0 != i);
                        }
                        if old(self).view().contains(t) && t != sym@ {
                            let k = choose|k: int| 0 <= k < before.len() && (#[trigger] before[k])@ == t;
                            assert(k != i);
                            if k < i {
                                assert(self.items@[k]@ == t);
                            } else {
                                assert(self.items@[k - 1]@ == t);
                            }
                        }
                    }
                    assert(self.view() =~= old(self).view().remove(sym@));
                }
            },
        }
    }

    /// The symbols, each once.
    pub fn to_vec(&self) -> (v: Vec<String>)
        requires
            self.wf(),
        ensures
            text_set(v@) == self.view(),
            distinct_texts(v@),
    {
        let mut v: Vec<String> = Vec::new();
        let mut i: usize = 0;
        while i < self.items.len()
            invariant
                i <= self.items.len(),
                v@.len() == i,
                forall|k: int| 0 <= k < i ==> (#[trigger] v@[k])@ == self.items@[k]@,
            decreases self.items.len() - i,
        {
            v.push(self.items[i].clone());
            i = i + 1;
        }
        proof {
            assert forall|t: Seq<char>| text_set(v@).contains(t) <==> self.view().contains(t) by {
                if text_set(v@).contains(t) {
                    let k = choose|k: int| 0 <= k < v@.len() && (#[trigger] v@[k])@ == t;
                    assert(self.items@[k]@ == t);
                }
                if self.view().contains(t) {
                    let k = choose|k: int| 0 <= k < self.items@.len() && (#[trigger] self.items@[k])@ == t;
                    assert(v@[k]@ == t);
                }
            }
            assert(text_set(v@) =~= self.view());
            assert forall|a: int, b: int| 0 <= a < b < v@.len() implies (#[trigger] v@[a])@ != (#[trigger] v@[b])@ by {
                assert(self.items@[a]@ == v@[a]@ && self.items@[b]@ == v@[b]@);
            }
        }
        v
    }

    /// Whether the set holds exactly the symbols of `v`.
    pub fn same_as(&self, v: &Vec<String>) -> (r: bool)
        ensures
            r == (self.view() == text_set(v@)),
    {
        let mut i: usize = 0;
        while i < v.len()
            invariant
                i <= v.len(),
                forall|k: int| 0 <= k < i ==> self.view().contains(#[trigger] v@[k]@),
            decreases v.len() - i,
        {
            if !self.contains(v[i].as_str()) {
                proof {
                    assert(text_set(v@).contains(v@[i as int]@));
                }
                return false;
            }
            i = i + 1;
        }
        let mut k: usize = 0;
        while k < self.items.len()
            invariant
                k <= self.items.len(),
                forall|j: int| 0 <= j < k ==> text_set(v@).contains(#[trigger] self.items@[j]@),
            decreases self.items.len() - k,
        {
            if !list_contains(v.as_slice(), self.items[k].as_str()) {
                proof {
                    assert(self.view().contains(self.items@[k as int]@));
                }
                return false;
            }
            k = k + 1;
        }
        proof {
            assert forall|t: Seq<char>| self.view().contains(t) <==> text_set(v@).contains(t) by {
                if self.view().contains(t) {
                    let j = choose|j: int| 0 <= j < self.items@.len() && (#[trigger] self.items@[j])@ == t;
                    assert(text_set(v@).contains(self.items@[j]@));
                }
                if text_set(v@).contains(t) {
                    let j = choose|j: int| 0 <= j < v@.len() && (#[trigger] v@[j])@ == t;
                    assert(self.view().contains(v@[j]@));
                }
            }
            assert(self.view() =~= text_set(v@));
        }
        true
    }

    /// The set of the symbols of `v`.
    pub fn from_vec(v: &Vec<String>) -> (s: Self)
        ensures
            s.wf(),
            s.view() == text_set(v@),
    {
        let mut s = SymbolSet::new();
        let mut i: usize = 0;
        while i < v.len()
            invariant
                i <= v.len(),
                s.wf(),
                s.view() == text_set(v@.take(i as int)),
            decreases v.len() - i,
        {
            s.insert(v[i].clone());
            proof {
                let a = v@.take(i + 1);
                let b = v@.take(i as int);
                assert forall|t: Seq<char>| text_set(a).contains(t) <==> (text_set(b).contains(t) || t == v@[i as int]@) by {
                    if text_set(a).contains(t) {
                        let k = choose|k: int| 0 <= k < a.len() && (#[trigger] a[k])@ == t;
                        if k < i {
                            assert(b[k]@ == t);
                        }
                    }
                    if text_set(b).contains(t) {
                        let k = choose|k: int| 0 <= k < b.len() && (#[trigger] b[k])@ == t;
                        assert(a[k]@ == t);
                    }
                    if t == v@[i as int]@ {
                        assert(a[i as int]@ == t);
                    }
                }
                assert(s.view() =~= text_set(a));
            }
            i = i + 1;
        }
        assert(v@.take(v.len() as int) =~= v@);
        s
    }
}

proof fn lemma_distinct_text_set_len(v: Seq<String>)
    requires
        distinct_texts(v),
    ensures
        text_set(v).finite(),
        text_set(v).len() == v.len(),
    decreases v.len(),
{
    if v.len() == 0 {
        assert(text_set(v) =~= Set::<Seq<char>>::empty());
    } else {
        let p = v.drop_last();
        assert(distinct_texts(p)) by {
            assert forall|i: int, j: int| 0 <= i < j < p.len() implies (#[trigger] p[i])@ != (#[trigger] p[j])@ by {
                assert(p[i] == v[i] && p[j] == v[j]);
            }
        }
        lemma_distinct_text_set_len(p);
        assert(text_set(v) =~= text_set(p).insert(v.last()@)) by {
            assert forall|t: Seq<char>| text_set(v).contains(t) <==> (text_set(p).contains(t) || t == v.last()@) by {
                if text_set(v).contains(t) {
                    let i = choose|i: int| 0 <= i < v.len() && (#[trigger] v[i])@ == t;
                    if i < p.len() {
                        assert(p[i]@ == t);
                    }
                }
                if text_set(p).contains(t) {
                    let i = choose|i: int| 0 <= i < p.len() && (#[trigger] p[i])@ == t;
                    assert(v[i]@ == t);
                }
            }
        }
        assert(!text_set(p).contains(v.last()@)) by {
            if text_set(p).contains(v.last()@) {
                let i = choose|i: int| 0 <= i < p.len() && (#[trigger] p[i])@ == v.last()@;
                assert(v[i]@ != v[v.len() - 1]@);
            }
        }
    }
}

// ------------------------------------------------------------------
// The shared watch list
// ------------------------------------------------------------------

/// The symbols that some client has asked to watch. Symbols stay once added.
pub struct WsManager {
    active_symbols: SymbolSet,
}

impl WsManager {
    pub closed spec fn wf(&self) -> bool {
        self.active_symbols.wf()
    }

    pub closed spec fn active(&self) -> Set<Seq<char>> {
        self.active_symbols.view()
    }

    pub fn new() -> (m: Self)
        ensures
            m.wf(),
            m.active() == Set::<Seq<char>>::empty(),
    {
        WsManager { active_symbols: SymbolSet::new() }
    }

    /// The watched symbols, each once.
    pub fn get_active_symbols(&self) -> (v: Vec<String>)
        requires
            self.wf(),
        ensures
            text_set(v@) == self.active(),
            distinct_texts(v@),
    {
        self.active_symbols.to_vec()
    }

    pub fn add_symbols(&mut self, symbols: &[String])
        requires
            old(self).wf(),
        ensures
            final(self).wf(),
            final(self).active() == old(self).active().union(text_set(symbols@)),
    {
        let mut i: usize = 0;
        while i < symbols.len()
            invariant
                i <= symbols.len(),
                self.wf(),
                self.active() == old(self).active().union(text_set(symbols@.take(i as int))),
            decreases symbols.len() - i,
        {
            self.active_symbols.insert(symbols[i].clone());
            proof {
                assert(text_set(symbols@.take(i + 1)) =~= text_set(symbols@.take(i as int)).insert(symbols@[i as int]@)) by {
                    let a = symbols@.take(i + 1);
                    let b = symbols@.take(i as int);
                    assert forall|t: Seq<char>| text_set(a).contains(t) <==> (text_set(b).contains(t) || t == symbols@[i as int]@) by {
                        if text_set(a).contains(t) {
                            let k = choose|k: int| 0 <= k < a.len() && (#[trigger] a[k])@ == t;
                            if k < i {
                                assert(b[k]@ == t);
                            }
                        }
                        if text_set(b).contains(t) {
                            let k = choose|k: int| 0 <= k < b.len() && (#[trigger] b[k])@ == t;
                            assert(a[k]@ == t);
                        }
                        if t == symbols@[i as int]@ {
                            assert(a[i as int]@ == t);
                        }
                    }
                }
                assert(self.active() =~= old(self).active().union(text_set(symbols@.take(i + 1))));
            }
            i = i + 1;
        }
        assert(symbols@.take(symbols.len() as int) =~= symbols@);
    }

    /// Symbols are kept watched when a client lets them go, so that the feed
    /// does not resubscribe to them again and again.
    pub fn remove_symbols(&mut self, symbols: &[String])
        ensures
            final(self).active() == old(self).active(),
            final(self).wf() == old(self).wf(),
    {
    }
}

// ------------------------------------------------------------------
// One client connection
// ------------------------------------------------------------------

/// Most requests a client may make within one second.
pub open spec fn max_requests_per_second() -> u64 {
    5
}

/// Most symbols one client may subscribe to.
pub open spec fn max_client_symbols() -> nat {
    100
}

/// The state of one client connection: its subscriptions and its request
/// count in the current one-second window.
pub struct ClientSession {
    subscribed: SymbolSet,
    window_start_nanos: u128,
    request_count: u64,
}

/// What a client may receive.
pub enum WsUpdateKind {
    Trade { symbol: String },
    Quote { symbol: String },
    Error,
    SubscriptionStatus,
}

/// The subscriptions after a client asks for `syms` in order, starting from
/// `start`: each symbol is added unless the client already holds one hundred.
pub open spec fn subscribed_after(start: Set<Seq<char>>, syms: Seq<Seq<char>>) -> Set<Seq<char>>
    decreases syms.len(),
{
    if syms.len() == 0 {
        start
    } else {
        let before = subscribed_after(start, syms.drop_last());
        if before.len() >= max_client_symbols() {
            before
        } else {
            before.insert(syms.last())
        }
    }
}

/// The symbols that a subscription adds, in the order they are asked for:
/// those not yet held, while the client holds fewer than one hundred.
pub open spec fn added_by(start: Set<Seq<char>>, syms: Seq<Seq<char>>) -> Seq<Seq<char>>
    decreases syms.len(),
{
    if syms.len() == 0 {
        Seq::empty()
    } else {
        let before = subscribed_after(start, syms.drop_last());
        let prev = added_by(start, syms.drop_last());
        if before.len() < max_client_symbols() && !before.contains(syms.last()) {
            prev.push(syms.last())
        } else {
            prev
        }
    }
}

proof fn lemma_added_by_full(start: Set<Seq<char>>, syms: Seq<Seq<char>>, n: int)
    requires
        0 <= n <= syms.len(),
        subscribed_after(start, syms.take(n)).len() >= max_client_symbols(),
    ensures
        added_by(start, syms) == added_by(start, syms.take(n)),
    decreases syms.len(),
{
    if syms.len() == n {
        assert(syms.take(n) =~= syms);
    } else {
        assert(syms.drop_last().take(n) =~= syms.take(n));
        lemma_added_by_full(start, syms.drop_last(), n);
        lemma_subscribed_after_full(start, syms.drop_last(), n);
    }
}

/// Once the client holds one hundred symbols, later requests add nothing.
proof fn lemma_subscribed_after_full(start: Set<Seq<char>>, syms: Seq<Seq<char>>, n: int)
    requires
        0 <= n <= syms.len(),
        subscribed_after(start, syms.take(n)).len() >= max_client_symbols(),
    ensures
        subscribed_after(start, syms) == subscribed_after(start, syms.take(n)),
    decreases syms.len(),
{
    if syms.len() == n {
        assert(syms.take(n) =~= syms);
    } else {
        assert(syms.drop_last().take(n) =~= syms.take(n));
        lemma_subscribed_after_full(start, syms.drop_last(), n);
    }
}

/// Subscribing adds only symbols that were asked for, to a finite set.
proof fn lemma_subscribed_after_bounds(start: Set<Seq<char>>, syms: Seq<Seq<char>>)
    requires
        start.finite(),
    ensures
        subscribed_after(start, syms).finite(),
        start.subset_of(subscribed_after(start, syms)),
        subscribed_after(start, syms).subset_of(start.union(syms.to_set())),
        start.len() <= max_client_symbols() ==> subscribed_after(start, syms).len() <= max_client_symbols(),
    decreases syms.len(),
{
    if syms.len() > 0 {
        let d = syms.drop_last();
        lemma_subscribed_after_bounds(start, d);
        assert(syms.to_set().contains(syms.last())) by {
            assert(syms[syms.len() - 1] == syms.last());
        }
        assert forall|t: Seq<char>| d.to_set().contains(t) implies syms.to_set().contains(t) by {
            let k = choose|k: int| 0 <= k < d.len() && d[k] == t;
            assert(syms[k] == t);
        }
    }
}

/// A client never holds more than one hundred symbols.
pub proof fn law_subscription_cap(start: Set<Seq<char>>, syms: Seq<Seq<char>>)
    requires
        start.finite(),
        start.len() <= max_client_symbols(),
    ensures
        subscribed_after(start, syms).len() <= max_client_symbols(),
{
    lemma_subscribed_after_bounds(start, syms);
}

proof fn lemma_subscribed_after_identity(start: Set<Seq<char>>, syms: Seq<Seq<char>>)
    requires
        start.len() >= max_client_symbols() || forall|i: int| 0 <= i < syms.len() ==> start.contains(#[trigger] syms[i]),
    ensures
        subscribed_after(start, syms) == start,
    decreases syms.len(),
{
    if syms.len() > 0 {
        let d = syms.drop_last();
        assert forall|i: int| 0 <= i < d.len() implies (start.len() >= max_client_symbols() || start.contains(#[trigger] d[i])) by {
            assert(d[i] == syms[i]);
        }
        lemma_subscribed_after_identity(start, d);
        if start.len() < max_client_symbols() {
            assert(start.contains(syms[syms.len() - 1]));
            assert(start.insert(syms.last()) =~= start);
        }
    }
}

proof fn lemma_subscribed_after_covers(start: Set<Seq<char>>, syms: Seq<Seq<char>>)
    ensures
        subscribed_after(start, syms).len() >= max_client_symbols()
            || forall|i: int| 0 <= i < syms.len() ==> subscribed_after(start, syms).contains(#[trigger] syms[i]),
    decreases syms.len(),
{
    if syms.len() > 0 {
        let d = syms.drop_last();
        lemma_subscribed_after_covers(start, d);
        let before = subscribed_after(start, d);
        if before.len() < max_client_symbols() {
            assert forall|i: int| 0 <= i < syms.len() implies subscribed_after(start, syms).contains(#[trigger] syms[i]) by {
                if i < syms.len() - 1 {
                    assert(d[i] == syms[i]);
                    assert(before.contains(d[i]));
                }
            }
        }
    }
}

/// Subscribing takes every symbol asked for, and nothing else, unless the
/// client reaches one hundred symbols on the way: then it holds exactly one
/// hundred, all of them symbols it held or asked for.
pub proof fn law_subscribe_takes_all_until_full(start: Set<Seq<char>>, syms: Seq<Seq<char>>)
    requires
        start.finite(),
        start.len() <= 100,
    ensures
        start.subset_of(subscribed_after(start, syms)),
        subscribed_after(start, syms).subset_of(start.union(syms.to_set())),
        subscribed_after(start, syms) == start.union(syms.to_set()) || subscribed_after(start, syms).len() == 100,
{
    lemma_subscribed_after_bounds(start, syms);
    lemma_subscribed_after_covers(start, syms);
    let r = subscribed_after(start, syms);
    if r.len() < 100 {
        assert forall|t: Seq<char>| start.union(syms.to_set()).contains(t) implies r.contains(t) by {
            if syms.to_set().contains(t) {
                let k = choose|k: int| 0 <= k < syms.len() && syms[k] == t;
                assert(r.contains(syms[k]));
            }
        }
        assert(r =~= start.union(syms.to_set()));
    }
}

/// Asking again for the same symbols changes nothing.
pub proof fn law_subscribe_is_idempotent(start: Set<Seq<char>>, syms: Seq<Seq<char>>)
    ensures
        subscribed_after(subscribed_after(start, syms), syms) == subscribed_after(start, syms),
{
    lemma_subscribed_after_covers(start, syms);
    lemma_subscribed_after_identity(subscribed_after(start, syms), syms);
}

/// Unsubscribing from the symbols of a subscription undoes it: what remains
/// is what was held before, less those symbols.
pub proof fn law_unsubscribe_undoes_subscribe(start: Set<Seq<char>>, symbols: Seq<String>)
    requires
        start.finite(),
    ensures
        subscribed_after(start, texts(symbols)).difference(text_set(symbols)) == start.difference(text_set(symbols)),
{
    lemma_subscribed_after_bounds(start, texts(symbols));
    assert forall|t: Seq<char>| texts(symbols).to_set().contains(t) implies text_set(symbols).contains(t) by {
        let k = choose|k: int| 0 <= k < texts(symbols).len() && texts(symbols)[k] == t;
        assert(symbols[k]@ == t);
    }
    assert(subscribed_after(start, texts(symbols)).difference(text_set(symbols)) =~= start.difference(text_set(symbols)));
}

impl ClientSession {
    pub closed spec fn wf(&self) -> bool {
        &&& self.subscribed.wf()
        &&& self.subscribed.size() <= max_client_symbols()
    }

    pub closed spec fn subscriptions(&self) -> Set<Seq<char>> {
        self.subscribed.view()
    }

    pub closed spec fn window_start(&self) -> u128 {
        self.window_start_nanos
    }

    pub closed spec fn count(&self) -> u64 {
        self.request_count
    }

    /// How many symbols the client holds.
    pub closed spec fn subscription_count(&self) -> nat {
        self.subscribed.size()
    }

    /// A well-formed session holds a finite set of at most one hundred symbols.
    pub proof fn lemma_subscriptions_bounded(&self)
        requires
            self.wf(),
        ensures
            self.subscriptions().finite(),
            self.subscriptions().len() <= max_client_symbols(),
    {
        self.subscribed.lemma_size();
    }

    /// A fresh connection opened at `now_nanos`.
    pub fn new(now_nanos: u128) -> (s: Self)
        ensures
            s.wf(),
            s.subscriptions() == Set::<Seq<char>>::empty(),
            s.subscriptions().finite(),
            s.subscriptions().len() <= max_client_symbols(),
            s.window_start() == now_nanos,
            s.count() == 0,
    {
        ClientSession { subscribed: SymbolSet::new(), window_start_nanos: now_nanos, request_count: 0 }
    }

    /// Counts a request arriving at `now_nanos` and tells whether it may be
    /// served: a request within one second of the window start adds to the
    /// count, a later one starts a new window with a count of one; requests
    /// beyond five in a window are refused (and still counted).
    pub fn admit_request(&mut self, now_nanos: u128) -> (allowed: bool)
        requires
            old(self).wf(),
        ensures
            final(self).wf(),
            final(self).subscriptions() == old(self).subscriptions(),
            now_nanos >= old(self).window_start() && now_nanos - old(self).window_start() < 1_000_000_000 ==> {
                &&& final(self).window_start() == old(self).window_start()
                &&& final(self).count() == if old(self).count() == u64::MAX { u64::MAX } else { (old(self).count() + 1) as u64 }
            },
            !(now_nanos >= old(self).window_start() && now_nanos - old(self).window_start() < 1_000_000_000) ==> {
                &&& final(self).window_start() == now_nanos
                &&& final(self).count() == 1
            },
            allowed == (final(self).count() <= max_requests_per_second()),
    {
        if now_nanos >= self.window_start_nanos && now_nanos - self.window_start_nanos < 1_000_000_000 {
            self.request_count = self.request_count.saturating_add(1);
        } else {
            self.window_start_nanos = now_nanos;
            self.request_count = 1;
        }
        self.request_count <= 5
    }

    /// Subscribes to symbols in order, stopping once the client holds one
    /// hundred; returns the symbols that were new, in order.
    pub fn subscribe(&mut self, symbols: Vec<String>) -> (added: Vec<String>)
        requires
            old(self).wf(),
        ensures
            final(self).wf(),
            old(self).subscriptions().subset_of(final(self).subscriptions()),
            final(self).subscriptions() == old(self).subscriptions().union(text_set(added@)),
            text_set(added@).disjoint(old(self).subscriptions()),
            distinct_texts(added@),
            text_set(added@).subset_of(text_set(symbols@)),
            final(self).subscriptions() == subscribed_after(old(self).subscriptions(), texts(symbols@)),
            texts(added@) == added_by(old(self).subscriptions(), texts(symbols@)),
            final(self).subscription_count() <= max_client_symbols(),
            final(self).subscriptions().finite(),
            final(self).subscriptions().len() <= max_client_symbols(),
    {
        let mut added: Vec<String> = Vec::new();
        let mut i: usize = 0;
        let ghost start = self.subscriptions();
        while i < symbols.len()
            invariant
                i <= symbols.len(),
                self.wf(),
                start == old(self).subscriptions(),
                self.subscriptions() == start.union(text_set(added@)),
                text_set(added@).disjoint(start),
                distinct_texts(added@),
                text_set(added@).subset_of(text_set(symbols@.take(i as int))),
                self.subscriptions() == subscribed_after(start, texts(symbols@).take(i as int)),
                texts(added@) == added_by(start, texts(symbols@).take(i as int)),
            decreases symbols.len() - i,
        {
            proof {
                self.subscribed.lemma_size();
            }
            if self.subscribed.len() >= 100 {
                proof {
                    lemma_subscribed_after_full(start, texts(symbols@), i as int);
                    lemma_added_by_full(start, texts(symbols@), i as int);
                    self.lemma_subscriptions_bounded();
                }
                return added;
            }
            let sym = symbols[i].clone();
            let ghost before = added@;
            let ghost subs_before = self.subscriptions();
            let fresh = self.subscribed.insert(sym.clone());
            if fresh {
                added.push(sym);
                proof {
                    lemma_texts_push(before, sym);
                }
            }
            proof {
                let a = symbols@.take(i + 1);
                let b = symbols@.take(i as int);
                assert(a[i as int] == symbols@[i as int]);
                assert forall|t: Seq<char>| text_set(b).contains(t) implies text_set(a).contains(t) by {
                    let k = choose|k: int| 0 <= k < b.len() && (#[trigger] b[k])@ == t;
                    assert(a[k]@ == t);
                }
                if fresh {
                    assert forall|t: Seq<char>| text_set(added@).contains(t) <==> (text_set(before).contains(t) || t == sym@) by {
                        if text_set(added@).contains(t) {
                            let k = choose|k: int| 0 <= k < added@.len() && (#[trigger] added@[k])@ == t;
                            if k < before.len() {
                                assert(before[k]@ == t);
                            }
                        }
                        if text_set(before).contains(t) {
                            let k = choose|k: int| 0 <= k < before.len() && (#[trigger] before[k])@ == t;
                            assert(added@[k]@ == t);
                        }
                        if t == sym@ {
                            assert(added@[before.len() as int]@ == t);
                        }
                    }
                    assert forall|x: int, y: int| 0 <= x < y < added@.len() implies (#[trigger] added@[x])@ != (#[trigger] added@[y])@ by {
                        if y == before.len() {
                            assert(text_set(before).contains(before[x]@));
                            assert(subs_before.contains(before[x]@));
                        } else {
                            assert(before[x] == added@[x] && before[y] == added@[y]);
                        }
                    }
                    assert(text_set(added@).contains(sym@));
                    assert(text_set(a).contains(sym@)) by {
                        assert(a[i as int]@ == sym@);
                    }
                    assert(self.subscriptions() =~= start.union(text_set(added@)));
                } else {
                    assert(self.subscriptions() =~= subs_before);
                }
                let ts = texts(symbols@);
                assert(ts.take(i + 1).drop_last() =~= ts.take(i as int));
                assert(ts.take(i + 1).last() == sym@);
                assert(self.subscriptions() =~= subs_before.insert(sym@));
            }
            i = i + 1;
        }
        assert(symbols@.take(symbols.len() as int) =~= symbols@);
        assert(texts(symbols@).take(symbols.len() as int) =~= texts(symbols@));
        proof {
            self.lemma_subscriptions_bounded();
        }
        added
    }

    /// Drops each of the symbols from the client's subscriptions.
    pub fn unsubscribe(&mut self, symbols: &Vec<String>)
        requires
            old(self).wf(),
        ensures
            final(self).wf(),
            final(self).subscriptions() == old(self).subscriptions().difference(text_set(symbols@)),
            final(self).subscriptions().finite(),
            final(self).subscriptions().len() <= max_client_symbols(),
    {
        let mut i: usize = 0;
        while i < symbols.len()
            invariant
                i <= symbols.len(),
                self.wf(),
                self.subscribed.size() <= old(self).subscribed.size(),
                self.subscriptions() == old(self).subscriptions().difference(text_set(symbols@.take(i as int))),
            decreases symbols.len() - i,
        {
            let ghost before = self.subscriptions();
            proof {
                self.subscribed.lemma_size();
            }
            self.subscribed.remove(symbols[i].as_str());
            proof {
                self.subscribed.lemma_size();
                let a = symbols@.take(i + 1);
                let b = symbols@.take(i as int);
                assert forall|t: Seq<char>| text_set(a).contains(t) <==> (text_set(b).contains(t) || t == symbols@[i as int]@) by {
                    if text_set(a).contains(t) {
                        let k = choose|k: int| 0 <= k < a.len() && (#[trigger] a[k])@ == t;
                        if k < i {
                            assert(b[k]@ == t);
                        }
                    }
                    if text_set(b).contains(t) {
                        let k = choose|k: int| 0 <= k < b.len() && (#[trigger] b[k])@ == t;
                        assert(a[k]@ == t);
                    }
                    if t == symbols@[i as int]@ {
                        assert(a[i as int]@ == t);
                    }
                }
                assert(self.subscriptions() =~= old(self).subscriptions().difference(text_set(a)));
                vstd::set_lib::lemma_len_subset(self.subscriptions(), before);
            }
            i = i + 1;
        }
        assert(symbols@.take(symbols.len() as int) =~= symbols@);
        proof {
            self.lemma_subscriptions_bounded();
        }
    }

    /// The client's subscriptions, each once.
    pub fn subscribed_symbols(&self) -> (v: Vec<String>)
        requires
            self.wf(),
        ensures
            text_set(v@) == self.subscriptions(),
            distinct_texts(v@),
    {
        self.subscribed.to_vec()
    }

    /// Whether a broadcast update goes to this client: trades and quotes of
    /// subscribed symbols do; errors and status replies are never broadcast.
    pub fn should_send(&self, update: &WsUpdateKind) -> (r: bool)
        ensures
            r == match update {
                WsUpdateKind::Trade { symbol } => self.subscriptions().contains(symbol@),
                WsUpdateKind::Quote { symbol } => self.subscriptions().contains(symbol@),
                _ => false,
            },
    {
        match update {
            WsUpdateKind::Trade { symbol } => self.subscribed.contains(symbol.as_str()),
            WsUpdateKind::Quote { symbol } => self.subscribed.contains(symbol.as_str()),
            _ => false,
        }
    }
}

/// A request that a client sends.
pub enum WsAction {
    Subscribe { symbols: Vec<String> },
    Unsubscribe { symbols: Vec<String> },
}

/// What serving a request yields: the symbols that the client newly holds
/// (which the shared feed now watches too) and the client's subscriptions,
/// which are sent back to it.
pub struct ActionReply {
    pub newly_added: Vec<String>,
    pub subscribed: Vec<String>,
}

impl ClientSession {
    /// Serves a subscribe or unsubscribe request of this client. The symbols
    /// a subscription adds are handed to the shared feed.
    pub fn apply_action(&mut self, feed: &mut WsManager, action: WsAction) -> (r: ActionReply)
        requires
            old(self).wf(),
            old(feed).wf(),
        ensures
            final(self).wf(),
            final(feed).wf(),
            final(self).subscriptions().finite(),
            final(self).subscriptions().len() <= max_client_symbols(),
            match action {
                WsAction::Subscribe { symbols } => {
                    &&& final(self).subscriptions() == subscribed_after(old(self).subscriptions(), texts(symbols@))
                    &&& texts(r.newly_added@) == added_by(old(self).subscriptions(), texts(symbols@))
                    &&& text_set(r.newly_added@) == final(self).subscriptions().difference(old(self).subscriptions())
                    &&& final(feed).active() == old(feed).active().union(text_set(r.newly_added@))
                },
                WsAction::Unsubscribe { symbols } => {
                    &&& final(self).subscriptions() == old(self).subscriptions().difference(text_set(symbols@))
                    &&& r.newly_added@.len() == 0
                    &&& final(feed).active() == old(feed).active()
                },
            },
            text_set(r.subscribed@) == final(self).subscriptions(),
            distinct_texts(r.subscribed@),
    {
        match action {
            WsAction::Subscribe { symbols } => {
                let newly_added = self.subscribe(symbols);
                feed.add_symbols(newly_added.as_slice());
                let subscribed = self.subscribed_symbols();
                proof {
                    assert(text_set(newly_added@) =~= self.subscriptions().difference(old(self).subscriptions()));
                }
                ActionReply { newly_added, subscribed }
            },
            WsAction::Unsubscribe { symbols } => {
                self.unsubscribe(&symbols);
                let subscribed = self.subscribed_symbols();
                ActionReply { newly_added: Vec::new(), subscribed }
            },
        }
    }
}

/// The message sent to a client that asks too often.
pub fn rate_limit_message() -> (s: String)
    ensures
        s@ == "Rate limit exceeded (5 requests per second)"@,
{
    string_of("Rate limit exceeded (5 requests per second)")
}

// ------------------------------------------------------------------
// Upstream feed subscriptions
// ------------------------------------------------------------------

/// Whether a symbol looks like an option contract: more than ten bytes long
/// and holding a digit.
pub open spec fn looks_like_option(s: Seq<char>) -> bool {
    encode_utf8(s).len() > 10 && exists|i: int| 0 <= i < s.len() && is_ascii_digit(#[trigger] s[i])
}

/// The symbols of `v` that belong on the options feed (`is_options`) or on
/// the stock feed (otherwise), in order.
pub open spec fn feed_symbols(v: Seq<String>, is_options: bool) -> Seq<String>
    decreases v.len(),
{
    if v.len() == 0 {
        v
    } else if looks_like_option(v.last()@) == is_options {
        feed_symbols(v.drop_last(), is_options).push(v.last())
    } else {
        feed_symbols(v.drop_last(), is_options)
    }
}

/// Each symbol goes to exactly one upstream feed: the options feed takes the
/// symbols of more than ten bytes that hold a digit (contract symbols), the
/// stock feed every other; between them the two feeds hold all the symbols.
pub proof fn law_feeds_split_the_symbols(v: Seq<String>, x: String)
    ensures
        feed_symbols(v, true).len() + feed_symbols(v, false).len() == v.len(),
        feed_symbols(v, true).contains(x) <==> v.contains(x)
            && encode_utf8(x@).len() > 10 && exists|i: int| 0 <= i < x@.len() && '0' <= #[trigger] x@[i] <= '9',
        feed_symbols(v, false).contains(x) <==> v.contains(x)
            && !(encode_utf8(x@).len() > 10 && exists|i: int| 0 <= i < x@.len() && '0' <= #[trigger] x@[i] <= '9'),
    decreases v.len(),
{
    if v.len() > 0 {
        let d = v.drop_last();
        law_feeds_split_the_symbols(d, x);
        assert(v == d.push(v.last()));
        assert(v.contains(x) <==> (d.contains(x) || v.last() == x)) by {
            if v.contains(x) {
                let k = choose|k: int| 0 <= k < v.len() && v[k] == x;
                if k < d.len() { assert(d[k] == x); }
            }
            if d.contains(x) {
                let k = choose|k: int| 0 <= k < d.len() && d[k] == x;
                assert(v[k] == x);
            }
            assert(v[v.len() - 1] == v.last());
        }
        let ft = feed_symbols(d, true);
        let ff = feed_symbols(d, false);
        assert(ft.push(v.last()).contains(x) <==> (ft.contains(x) || v.last() == x)) by {
            let p = ft.push(v.last());
            if p.contains(x) {
                let k = choose|k: int| 0 <= k < p.len() && p[k] == x;
                if k < ft.len() { assert(ft[k] == x); }
            }
            if ft.contains(x) {
                let k = choose|k: int| 0 <= k < ft.len() && ft[k] == x;
                assert(p[k] == x);
            }
            assert(p[p.len() - 1] == v.last());
        }
        assert(ff.push(v.last()).contains(x) <==> (ff.contains(x) || v.last() == x)) by {
            let p = ff.push(v.last());
            if p.contains(x) {
                let k = choose|k: int| 0 <= k < p.len() && p[k] == x;
                if k < ff.len() { assert(ff[k] == x); }
            }
            if ff.contains(x) {
                let k = choose|k: int| 0 <= k < ff.len() && ff[k] == x;
                assert(p[k] == x);
            }
            assert(p[p.len() - 1] == v.last());
        }
    }
}

fn has_ascii_digit(s: &str) -> (r: bool)
    ensures
        r == exists|i: int| 0 <= i < s@.len() && is_ascii_digit(#[trigger] s@[i]),
{
    let cs = crate::text::chars_of(s);
    let mut i: usize = 0;
    while i < cs.len()
        invariant
            i <= cs.len(),
            cs@ == s@,
            forall|k: int| 0 <= k < i ==> !is_ascii_digit(#[trigger] cs@[k]),
        decreases cs.len() - i,
    {
        if ascii_digit(cs[i]) {
            return true;
        }
        i = i + 1;
    }
    false
}

/// The symbols that belong on one upstream feed: option-like symbols on the
/// options feed, the others on the stock feed; order is kept.
pub fn symbols_for_feed(symbols: &Vec<String>, is_options: bool) -> (out: Vec<String>)
    ensures
        texts(out@) == texts(feed_symbols(symbols@, is_options)),
{
    let mut out: Vec<String> = Vec::new();
    let mut i: usize = 0;
    while i < symbols.len()
        invariant
            i <= symbols.len(),
            texts(out@) == texts(feed_symbols(symbols@.take(i as int), is_options)),
        decreases symbols.len() - i,
    {
        let s = symbols[i].as_str();
        let is_opt = s.as_bytes().len() > 10 && has_ascii_digit(s);
        let ghost before = out@;
        proof {
            assert(symbols@.take(i + 1).drop_last() =~= symbols@.take(i as int));
            assert(is_opt == looks_like_option(symbols@[i as int]@));
        }
        if is_opt == is_options {
            out.push(symbols[i].clone());
            proof {
                let f = feed_symbols(symbols@.take(i + 1), is_options);
                assert(texts(out@) =~= texts(f)) by {
                    assert(f == feed_symbols(symbols@.take(i as int), is_options).push(symbols@[i as int]));
                    assert(texts(before).len() == texts(feed_symbols(symbols@.take(i as int), is_options)).len());
                    assert forall|k: int| 0 <= k < out@.len() implies texts(out@)[k] == texts(f)[k] by {
                        if k < before.len() {
                            assert(texts(out@)[k] == texts(before)[k]);
                            assert(texts(f)[k] == texts(feed_symbols(symbols@.take(i as int), is_options))[k]);
                        }
                    }
                }
            }
        }
        i = i + 1;
    }
    assert(symbols@.take(symbols.len() as int) =~= symbols@);
    out
}

// ------------------------------------------------------------------
// Upstream messages
// ------------------------------------------------------------------

// ------------------------------------------------------------------
// Realtime streams of the server
// ------------------------------------------------------------------

/// The market data stream of a credential's environment.
pub fn market_stream_url(environment: CredentialEnvironment) -> (u: &'static str)
    ensures
        u@ == (if environment == CredentialEnvironment::Paper {
            "wss://stream.data.alpaca.markets/v2/iex"@
        } else {
            "wss://stream.data.alpaca.markets/v2/sip"@
        }),
{
    match environment {
        CredentialEnvironment::Paper => "wss://stream.data.alpaca.markets/v2/iex",
        CredentialEnvironment::Live => "wss://stream.data.alpaca.markets/v2/sip",
    }
}

/// The trade update stream of a credential's environment.
pub fn broker_stream_url(environment: CredentialEnvironment) -> (u: &'static str)
    ensures
        u@ == (if environment == CredentialEnvironment::Paper {
            "wss://paper-api.alpaca.markets/stream"@
        } else {
            "wss://api.alpaca.markets/stream"@
        }),
{
    match environment {
        CredentialEnvironment::Paper => "wss://paper-api.alpaca.markets/stream",
        CredentialEnvironment::Live => "wss://api.alpaca.markets/stream",
    }
}

/// The key a market stream is known by: the provider's name, a colon and the symbol.
pub open spec fn market_stream_key(provider: DataProvider, symbol: Seq<char>) -> Seq<char> {
    provider_text(provider) + ":"@ + symbol
}

/// The streams the server runs: market streams by key and broker streams by
/// credential id. A stream is started only by the request that claims it,
/// and can be claimed again once it has ended.
pub struct StreamRegistry {
    market: SymbolSet,
    broker: SymbolSet,
}

impl StreamRegistry {
    pub closed spec fn wf(&self) -> bool {
        self.market.wf() && self.broker.wf()
    }

    pub closed spec fn market_streams(&self) -> Set<Seq<char>> {
        self.market.view()
    }

    pub closed spec fn broker_streams(&self) -> Set<Seq<char>> {
        self.broker.view()
    }

    pub fn new() -> (r: Self)
        ensures
            r.wf(),
            r.market_streams() == Set::<Seq<char>>::empty(),
            r.broker_streams() == Set::<Seq<char>>::empty(),
    {
        StreamRegistry { market: SymbolSet::new(), broker: SymbolSet::new() }
    }

    /// Claims the market stream of a provider and symbol; tells whether the
    /// caller is to start it (it was not running).
    pub fn claim_market(&mut self, provider: DataProvider, symbol: &str) -> (start: bool)
        requires
            old(self).wf(),
        ensures
            final(self).wf(),
            start == !old(self).market_streams().contains(market_stream_key(provider, symbol@)),
            final(self).market_streams() == old(self).market_streams().insert(market_stream_key(provider, symbol@)),
            final(self).broker_streams() == old(self).broker_streams(),
    {
        let key = string_of(provider.as_str()).concat(":").concat(symbol);
        self.market.insert(key)
    }

    /// Records that a market stream has ended.
    pub fn release_market(&mut self, provider: DataProvider, symbol: &str)
        requires
            old(self).wf(),
        ensures
            final(self).wf(),
            final(self).market_streams() == old(self).market_streams().remove(market_stream_key(provider, symbol@)),
            final(self).broker_streams() == old(self).broker_streams(),
    {
        let key = string_of(provider.as_str()).concat(":").concat(symbol);
        self.market.remove(key.as_str());
    }

    /// Claims the broker stream of a credential; tells whether the caller is
    /// to start it.
    pub fn claim_broker(&mut self, credential_id: &str) -> (start: bool)
        requires
            old(self).wf(),
        ensures
            final(self).wf(),
            start == !old(self).broker_streams().contains(credential_id@),
            final(self).broker_streams() == old(self).broker_streams().insert(credential_id@),
            final(self).market_streams() == old(self).market_streams(),
    {
        self.broker.insert(string_of(credential_id))
    }

    /// Records that a broker stream has ended.
    pub fn release_broker(&mut self, credential_id: &str)
        requires
            old(self).wf(),
        ensures
            final(self).wf(),
            final(self).broker_streams() == old(self).broker_streams().remove(credential_id@),
            final(self).market_streams() == old(self).market_streams(),
    {
        self.broker.remove(credential_id);
    }
}

/// A stream is started once: a second claim of a running stream is refused,
/// and a claim after its release starts it again.
pub proof fn law_streams_start_once(running: Set<Seq<char>>, key: Seq<char>)
    ensures
        running.insert(key).contains(key),
        !running.insert(key).remove(key).contains(key),
{
}

/// One tick of an upstream feed. When the watched symbols differ from those
/// the feed last saw, they become the ones last seen, and those that belong
/// on this feed are returned to be subscribed (nothing when there are none).
pub fn feed_tick(last: &mut SymbolSet, current: &Vec<String>, is_options: bool) -> (r: Option<Vec<String>>)
    requires
        old(last).wf(),
    ensures
        final(last).wf(),
        old(last).view() == text_set(current@) ==> r is None && final(last).view() == old(last).view(),
        old(last).view() != text_set(current@) ==> {
            &&& final(last).view() == text_set(current@)
            &&& feed_symbols(current@, is_options).len() == 0 ==> r is None
            &&& feed_symbols(current@, is_options).len() > 0
                ==> (r matches Some(v) && texts(v@) == texts(feed_symbols(current@, is_options)))
        },
{
    if last.same_as(current) {
        return None;
    }
    *last = SymbolSet::from_vec(current);
    let filtered = symbols_for_feed(current, is_options);
    proof {
        assert(filtered@.len() == texts(filtered@).len());
        assert(feed_symbols(current@, is_options).len() == texts(feed_symbols(current@, is_options)).len());
    }
    if filtered.len() == 0 {
        None
    } else {
        Some(filtered)
    }
}

#[derive(Debug, Clone, Copy, PartialEq, Eq, Structural)]
pub enum MessageKind {
    Trade,
    Quote,
    Other,
}

/// The kind of an upstream message by its `T` field: `t` or `trd` for a
/// trade, `q` or `qte` for a quote.
pub fn message_kind(t: &str) -> (k: MessageKind)
    ensures
        k == MessageKind::Trade <==> (t@ == "t"@ || t@ == "trd"@),
        k == MessageKind::Quote <==> (t@ == "q"@ || t@ == "qte"@),
{
    proof {
        reveal_strlit("t");
        reveal_strlit("trd");
        reveal_strlit("q");
        reveal_strlit("qte");
        assert("q"@[0] != "t"@[0]);
        assert("q"@.len() != "trd"@.len());
        assert("qte"@.len() != "t"@.len());
        assert("qte"@[0] != "trd"@[0]);
    }
    if str_equal(t, "t") || str_equal(t, "trd") {
        MessageKind::Trade
    } else if str_equal(t, "q") || str_equal(t, "qte") {
        MessageKind::Quote
    } else {
        MessageKind::Other
    }
}

// ------------------------------------------------------------------
// Server-sent event routing
// ------------------------------------------------------------------

/// What the routing of a realtime event reads of it.
#[allow(inconsistent_fields)]
pub enum EventRoute {
    Market { provider: DataProvider, symbol: String },
    BrokerSync { credential_id: String, strategy_ids: Vec<String> },
    Status { channel: String, provider: Option<DataProvider>, symbol: Option<String> },
    Log { strategy_id: String },
}

pub open spec fn texts_contain(v: Seq<String>, t: Seq<char>) -> bool {
    exists|i: int| 0 <= i < v.len() && (#[trigger] v[i])@ == t
}

/// Whether an event goes to a stream opened for `provider` and `symbol`,
/// following strategies `strategy_ids` and, when given, credential
/// `credential_id`.
pub open spec fn event_matches(
    event: EventRoute,
    provider: DataProvider,
    symbol: Seq<char>,
    strategy_ids: Seq<String>,
    credential_id: Option<Seq<char>>,
) -> bool {
    match event {
        EventRoute::Market { provider: p, symbol: s } => p == provider && s@ == symbol,
        EventRoute::BrokerSync { credential_id: c, strategy_ids: ids } =>
            credential_id == Some(c@)
            || exists|i: int| 0 <= i < ids@.len() && texts_contain(strategy_ids, (#[trigger] ids@[i])@),
        EventRoute::Status { channel, provider: p, symbol: s } =>
            if channel@ == "market"@ {
                p == Some(provider) && (s matches Some(x) && x@ == symbol)
            } else if channel@ == "broker"@ {
                credential_id is Some
            } else {
                true
            },
        EventRoute::Log { strategy_id } => texts_contain(strategy_ids, strategy_id@),
    }
}

/// Market data goes only to the streams of its own provider and symbol: a
/// market event, or a status event on the market channel, reaches a stream
/// exactly when the stream was opened for that provider and that symbol,
/// whatever strategies or credential the stream follows.
pub proof fn law_market_events_reach_their_symbol(
    event: EventRoute,
    provider: DataProvider,
    symbol: Seq<char>,
    strategy_ids: Seq<String>,
    credential_id: Option<Seq<char>>,
)
    ensures
        match event {
            EventRoute::Market { provider: p, symbol: s } =>
                event_matches(event, provider, symbol, strategy_ids, credential_id) <==> (p == provider && s@ == symbol),
            EventRoute::Status { channel: c, provider: p, symbol: s } =>
                c@ == "market"@ ==> (event_matches(event, provider, symbol, strategy_ids, credential_id)
                    <==> (p == Some(provider) && s is Some && s.unwrap()@ == symbol)),
            _ => true,
        },
{
}

/// Account events go to the streams that follow them: a strategy's log
/// reaches a stream exactly when the stream follows that strategy; a broker
/// sync, when the stream watches its credential or follows one of its
/// strategies; a broker status, when the stream watches some credential; and
/// a status of any other channel but the market's reaches every stream.
pub proof fn law_account_events_reach_their_followers(
    event: EventRoute,
    provider: DataProvider,
    symbol: Seq<char>,
    strategy_ids: Seq<String>,
    credential_id: Option<Seq<char>>,
)
    ensures
        match event {
            EventRoute::Log { strategy_id } =>
                event_matches(event, provider, symbol, strategy_ids, credential_id)
                    <==> exists|k: int| 0 <= k < strategy_ids.len() && (#[trigger] strategy_ids[k])@ == strategy_id@,
            EventRoute::BrokerSync { credential_id: c, strategy_ids: ids } =>
                event_matches(event, provider, symbol, strategy_ids, credential_id)
                    <==> (credential_id == Some(c@) || exists|i: int, k: int| 0 <= i < ids@.len() && 0 <= k < strategy_ids.len()
                        && (#[trigger] ids@[i])@ == (#[trigger] strategy_ids[k])@),
            EventRoute::Status { channel: c, provider: p, symbol: s } =>
                (c@ == "broker"@ ==> (event_matches(event, provider, symbol, strategy_ids, credential_id) <==> credential_id is Some))
                && (c@ != "market"@ && c@ != "broker"@ ==> event_matches(event, provider, symbol, strategy_ids, credential_id)),
            _ => true,
        },
{
    reveal_strlit("market");
    reveal_strlit("broker");
    match event {
        EventRoute::BrokerSync { credential_id: c, strategy_ids: ids } => {
            if exists|i: int| 0 <= i < ids@.len() && texts_contain(strategy_ids, (#[trigger] ids@[i])@) {
                let i = choose|i: int| 0 <= i < ids@.len() && texts_contain(strategy_ids, (#[trigger] ids@[i])@);
                let k = choose|k: int| 0 <= k < strategy_ids.len() && (#[trigger] strategy_ids[k])@ == ids@[i]@;
                assert(0 <= i < ids@.len() && 0 <= k < strategy_ids.len() && ids@[i]@ == strategy_ids[k]@);
            }
            if exists|i: int, k: int| 0 <= i < ids@.len() && 0 <= k < strategy_ids.len()
                && (#[trigger] ids@[i])@ == (#[trigger] strategy_ids[k])@ {
                let (i, k) = choose|i: int, k: int| 0 <= i < ids@.len() && 0 <= k < strategy_ids.len()
                    && (#[trigger] ids@[i])@ == (#[trigger] strategy_ids[k])@;
                assert(texts_contain(strategy_ids, ids@[i]@));
            }
        },
        EventRoute::Status { channel: c, .. } => {
            if c@ == "broker"@ {
                assert(c@ != "market"@) by { assert(c@[0] != "market"@[0]); }
            }
        },
        _ => {},
    }
}

fn list_contains(v: &[String], t: &str) -> (r: bool)
    ensures
        r == texts_contain(v@, t@),
{
    let mut i: usize = 0;
    while i < v.len()
        invariant
            i <= v.len(),
            forall|k: int| 0 <= k < i ==> (#[trigger] v@[k])@ != t@,
        decreases v.len() - i,
    {
        if str_equal(v[i].as_str(), t) {
            return true;
        }
        i = i + 1;
    }
    false
}

pub fn stream_matches(
    event: &EventRoute,
    provider: DataProvider,
    symbol: &str,
    strategy_ids: &[String],
    credential_id: Option<&str>,
) -> (r: bool)
    ensures
        r == event_matches(*event, provider, symbol@, strategy_ids@, match credential_id {
            Some(c) => Some(c@),
            None => None,
        }),
{
    proof {
        reveal_strlit("market");
        reveal_strlit("broker");
    }
    match event {
        EventRoute::Market { provider: p, symbol: s } => *p == provider && str_equal(s.as_str(), symbol),
        EventRoute::BrokerSync { credential_id: c, strategy_ids: ids } => {
            let same_credential = match credential_id {
                Some(cid) => str_equal(cid, c.as_str()),
                None => false,
            };
            if same_credential {
                return true;
            }
            let mut i: usize = 0;
            #[verifier::loop_isolation(false)]
            while i < ids.len()
                invariant
                    i <= ids.len(),
                    forall|k: int| 0 <= k < i ==> !texts_contain(strategy_ids@, (#[trigger] ids@[k])@),
                decreases ids.len() - i,
            {
                if list_contains(strategy_ids, ids[i].as_str()) {
                    proof {
                        assert(texts_contain(strategy_ids@, ids@[i as int]@));
                    }
                    return true;
                }
                i = i + 1;
            }
            false
        },
        EventRoute::Status { channel, provider: p, symbol: s } => {
            if str_equal(channel.as_str(), "market") {
                let same_provider = match p {
                    Some(x) => *x == provider,
                    None => false,
                };
                let same_symbol = match s {
                    Some(x) => str_equal(x.as_str(), symbol),
                    None => false,
                };
                same_provider && same_symbol
            } else if str_equal(channel.as_str(), "broker") {
                credential_id.is_some()
            } else {
                true
            }
        },
        EventRoute::Log { strategy_id } => list_contains(strategy_ids, strategy_id.as_str()),
    }
}

// ------------------------------------------------------------------
// Option contract listing
// ------------------------------------------------------------------

/// An option contract as the listing sees it. `volume_rank` stands for the
/// traded volume: contracts with more volume have a larger rank.
pub struct OptionContractSnapshot {
    pub contract_symbol: String,
    pub option_type: String,
    pub expiration: String,
    pub volume_rank: u64,
}

pub open spec fn ranks(v: Seq<OptionContractSnapshot>) -> Seq<u64> {
    v.map_values(|c: OptionContractSnapshot| c.volume_rank)
}

/// `p` lists the positions of `keys` by decreasing key, equal keys in their
/// input order: the order a stable sort by decreasing key gives.
pub open spec fn is_stable_descending(keys: Seq<u64>, p: Seq<int>) -> bool {
    &&& p.len() == keys.len()
    &&& forall|i: int| 0 <= i < p.len() ==> 0 <= #[trigger] p[i] < keys.len()
    &&& forall|i: int, j: int| 0 <= i < j < p.len() ==> p[i] != p[j]
    &&& forall|i: int, j: int| 0 <= i < j < p.len() ==> (keys[p[i]] > keys[p[j]] || (keys[p[i]] == keys[p[j]] && p[i] < p[j]))
}

/// Every position of `keys` occurs in an order that `is_stable_descending` describes.
proof fn lemma_stable_descending_covers(keys: Seq<u64>, p: Seq<int>, k: int)
    requires
        is_stable_descending(keys, p),
        0 <= k < keys.len(),
    ensures
        exists|m: int| 0 <= m < p.len() && p[m] == k,
{
    broadcast use vstd::seq_lib::seq_to_set_is_finite;
    assert(p.no_duplicates()) by {
        assert forall|i: int, j: int| 0 <= i < p.len() && 0 <= j < p.len() && i != j implies p[i] != p[j] by {
            if i < j {
                assert(p[i] != p[j]);
            } else {
                assert(p[j] != p[i]);
            }
        }
    }
    p.unique_seq_to_set();
    vstd::set_lib::lemma_int_range(0, keys.len() as int);
    let range = vstd::set_lib::set_int_range(0, keys.len() as int);
    assert(p.to_set().subset_of(range)) by {
        assert forall|x: int| p.to_set().contains(x) implies range.contains(x) by {
            let m = choose|m: int| 0 <= m < p.len() && p[m] == x;
            assert(0 <= p[m] < keys.len());
        }
    }
    vstd::set_lib::lemma_subset_equality(p.to_set(), range);
    assert(range.contains(k));
    assert(p.to_set().contains(k));
}

/// No contract left out of the listing trades more than one listed: every
/// contract beyond the first `n` of the order has at most the volume of the
/// `n`-th.
pub proof fn law_top_contracts_have_most_volume(keys: Seq<u64>, p: Seq<int>, n: int, k: int)
    requires
        is_stable_descending(keys, p),
        0 < n <= p.len(),
        0 <= k < keys.len(),
        forall|i: int| 0 <= i < n ==> p[i] != k,
    ensures
        keys[k] <= keys[p[n - 1]],
{
    lemma_stable_descending_covers(keys, p, k);
    let m = choose|m: int| 0 <= m < p.len() && p[m] == k;
    assert(m >= n);
    assert(keys[p[n - 1]] > keys[p[m]] || keys[p[n - 1]] == keys[p[m]]);
}

/// The twenty contracts with the largest volume, largest first; contracts
/// of equal volume keep their order.
pub fn top_option_contracts(contracts: Vec<OptionContractSnapshot>) -> (top: Vec<OptionContractSnapshot>)
    ensures
        top@.len() == if contracts@.len() < 20 { contracts@.len() as int } else { 20 },
        exists|p: Seq<int>| is_stable_descending(ranks(contracts@), p)
            && forall|i: int| 0 <= i < top@.len() ==> #[trigger] top@[i] == contracts@[p[i]],
{
    let ghost input = contracts@;
    let ghost keys = ranks(input);
    let mut sorted: Vec<OptionContractSnapshot> = Vec::new();
    let ghost mut perm: Seq<int> = Seq::empty();
    for c in it: contracts
        invariant
            it.seq() == input,
            keys == ranks(input),
            sorted@.len() == it.index(),
            perm.len() == it.index(),
            forall|i: int| 0 <= i < perm.len() ==> 0 <= #[trigger] perm[i] < it.index(),
            forall|i: int, j: int| 0 <= i < j < perm.len() ==> perm[i] != perm[j],
            forall|i: int| 0 <= i < perm.len() ==> #[trigger] sorted@[i] == input[perm[i]],
            forall|i: int, j: int| 0 <= i < j < perm.len() ==> (keys[perm[i]] > keys[perm[j]] || (keys[perm[i]] == keys[perm[j]] && perm[i] < perm[j])),
    {
        let ghost k = it.index() as int;
        proof {
            assert(c == input[k]);
            assert(keys[k] == c.volume_rank);
        }
        let mut q: usize = 0;
        while q < sorted.len() && sorted[q].volume_rank >= c.volume_rank
            invariant
                q <= sorted@.len(),
                forall|i: int| 0 <= i < q ==> (#[trigger] sorted@[i]).volume_rank >= c.volume_rank,
            decreases sorted.len() - q,
        {
            q = q + 1;
        }
        let ghost old_sorted = sorted@;
        let ghost old_perm = perm;
        proof {
            // Keys of `sorted` are in decreasing order, so all from `q` on are below `c`'s.
            assert forall|j: int| q <= j < old_sorted.len() implies (#[trigger] old_sorted[j]).volume_rank < c.volume_rank by {
                if j > q {
                    assert(old_sorted[q as int] == input[old_perm[q as int]]);
                    assert(old_sorted[j] == input[old_perm[j]]);
                    assert(keys[old_perm[q as int]] == old_sorted[q as int].volume_rank);
                    assert(keys[old_perm[j]] == old_sorted[j].volume_rank);
                }
            }
            perm = old_perm.insert(q as int, k);
        }
        sorted.insert(q, c);
        proof {
            assert forall|i: int| 0 <= i < perm.len() implies #[trigger] sorted@[i] == input[perm[i]] by {
                if i < q {
                    assert(sorted@[i] == old_sorted[i] && perm[i] == old_perm[i]);
                } else if i > q {
                    assert(sorted@[i] == old_sorted[i - 1] && perm[i] == old_perm[i - 1]);
                }
            }
            assert forall|i: int| 0 <= i < perm.len() implies 0 <= #[trigger] perm[i] < k + 1 by {
                if i < q {
                    assert(perm[i] == old_perm[i]);
                } else if i > q {
                    assert(perm[i] == old_perm[i - 1]);
                }
            }
            assert forall|i: int, j: int| 0 <= i < j < perm.len() implies perm[i] != perm[j]
                && (keys[perm[i]] > keys[perm[j]] || (keys[perm[i]] == keys[perm[j]] && perm[i] < perm[j])) by {
                let pi = if i < q { old_perm[i] } else if i == q { k } else { old_perm[i - 1] };
                let pj = if j < q { old_perm[j] } else if j == q { k } else { old_perm[j - 1] };
                assert(perm[i] == pi && perm[j] == pj);
                if i < q && j == q {
                    assert(old_sorted[i] == input[old_perm[i]]);
                    assert(keys[old_perm[i]] == old_sorted[i].volume_rank);
                    assert(old_sorted[i].volume_rank >= c.volume_rank);
                } else if i == q && j > q {
                    assert(old_sorted[j - 1] == input[old_perm[j - 1]]);
                    assert(keys[old_perm[j - 1]] == old_sorted[j - 1].volume_rank);
                    assert(old_sorted[j - 1].volume_rank < c.volume_rank);
                }
            }
        }
    }
    if sorted.len() > 20 {
        sorted.truncate(20);
    }
    proof {
        assert(is_stable_descending(ranks(input), perm));
        assert forall|i: int| 0 <= i < sorted@.len() implies #[trigger] sorted@[i] == input[perm[i]] by {}
    }
    sorted
}

} // verus!
