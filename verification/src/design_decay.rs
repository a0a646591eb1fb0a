//! Signal-strength budgeting for the bus router: how much reach the carrier
//! has left, tracked as a running ledger.
//!
//! A [`DecayLedger`] is seeded with the debt the signal arrives with, carries
//! the headroom it must leave for whatever comes after, and is debited per
//! cell by the carrier's decay. A station is inserted only when the budget
//! would run out before the next place a station could stand.

use vstd::prelude::*;

verus! {

/// Dust cells a strongly-powered source lights before the signal dies: the
/// first dust cell downstream of a repeater reads 15, the `n`-th `16 - n`.
pub const DUST_REACH: u32 = 15;

/// The dust budget the router plans against: one cell short of the reach,
/// so an off-by-one anywhere degrades a margin instead of dropping a word.
pub const DUST_BUDGET: u32 = 14;

/// Cells a run keeps in hand for a crossing stamped into it later, which can
/// move its refresh up to one cell.
pub const CROSSING_ALLOWANCE: u32 = 1;

/// What carries the signal along a segment.
#[derive(Clone, Copy, PartialEq, Eq, Debug, Structural)]
pub enum Carrier {
    /// Redstone dust: loses one strength per cell and never refreshes.
    Dust,
    /// Every stage re-emits full strength (repeater line, comparator chain).
    Refreshing,
    /// Every stage gains strength (the hex comb: `min(15, v + per_stage)`).
    Gaining {
        /// Strength gained per stage.
        per_stage: u8,
    },
}

impl Default for Carrier {
    fn default() -> (c: Carrier)
        ensures
            c == Carrier::Dust,
    {
        Carrier::Dust
    }
}

/// Strength lost per cell on `c`.
pub open spec fn decay_of(c: Carrier) -> u32 {
    match c {
        Carrier::Dust => 1,
        _ => 0,
    }
}

impl Carrier {
    /// Signal strength lost per cell traversed: 1 on dust, 0 otherwise (a
    /// gaining carrier is not negative decay).
    pub fn decay_per_cell(self) -> (d: u32)
        ensures
            d == decay_of(self),
    {
        match self {
            Carrier::Dust => 1,
            Carrier::Refreshing => 0,
            Carrier::Gaining { .. } => 0,
        }
    }

    /// Does a route on this carrier plan refresh stations at all? Only dust
    /// does: a gaining stage already solves what a station would.
    pub fn plans_stations(self) -> (b: bool)
        ensures
            b == (self == Carrier::Dust),
    {
        match self {
            Carrier::Dust => true,
            _ => false,
        }
    }

    /// Strength gained per stage: `per_stage` for a gaining carrier, else 0.
    pub fn gain_per_stage(self) -> (g: u8)
        ensures
            g == (match self {
                Carrier::Gaining { per_stage } => per_stage,
                _ => 0u8,
            }),
    {
        match self {
            Carrier::Gaining { per_stage } => per_stage,
            _ => 0,
        }
    }
}

/// A running signal-strength budget for one segment of one bus. `spent`
/// counts dust cells since the last refresh; the router keeps
/// `spent <= budget` at every cell.
#[derive(Clone, Copy, Debug)]
pub struct DecayLedger {
    carrier: Carrier,
    budget: u32,
    spent: u32,
    reserve: u32,
}

/// Can a ledger with these numbers pay for one more cell plus
/// `tail` cells after it?
pub open spec fn admits(carrier: Carrier, budget: u32, spent: u32, tail: u32) -> bool {
    decay_of(carrier) == 0 || spent + decay_of(carrier) * (1 + tail) <= budget
}

impl DecayLedger {
    /// The carrier tracked.
    pub closed spec fn carrier_spec(self) -> Carrier {
        self.carrier
    }

    /// The budget, after any crossing allowance.
    pub closed spec fn budget_spec(self) -> u32 {
        self.budget
    }

    /// Dust cells spent since the last refresh.
    pub closed spec fn spent_spec(self) -> u32 {
        self.spent
    }

    /// The exit headroom held back.
    pub closed spec fn reserve_spec(self) -> u32 {
        self.reserve
    }

    /// A ledger for a segment the signal enters fresh.
    pub fn fresh(carrier: Carrier) -> (l: DecayLedger)
        ensures
            l.carrier_spec() == carrier,
            l.budget_spec() == DUST_BUDGET,
            l.spent_spec() == 0,
            l.reserve_spec() == 0,
    {
        Self::entering(carrier, 0)
    }

    /// A ledger for a segment the signal enters having already spent
    /// `spent` dust cells since its last refresh.
    pub fn entering(carrier: Carrier, spent: u32) -> (l: DecayLedger)
        ensures
            l.carrier_spec() == carrier,
            l.budget_spec() == DUST_BUDGET,
            l.spent_spec() == spent,
            l.reserve_spec() == 0,
    {
        DecayLedger { carrier, budget: DUST_BUDGET, spent, reserve: 0 }
    }

    /// Require `reserve` cells of reach to remain when the segment ends.
    pub fn reserving(self, reserve: u32) -> (l: DecayLedger)
        ensures
            l.carrier_spec() == self.carrier_spec(),
            l.budget_spec() == self.budget_spec(),
            l.spent_spec() == self.spent_spec(),
            l.reserve_spec() == reserve,
    {
        let mut l = self;
        l.reserve = reserve;
        l
    }

    /// Hold `cells` back from the budget everywhere along the segment
    /// (saturating at zero).
    pub fn allowing(self, cells: u32) -> (l: DecayLedger)
        ensures
            l.carrier_spec() == self.carrier_spec(),
            l.budget_spec() == (if self.budget_spec() >= cells { (self.budget_spec() - cells) as u32 } else { 0u32 }),
            l.spent_spec() == self.spent_spec(),
            l.reserve_spec() == self.reserve_spec(),
    {
        let mut l = self;
        l.budget = self.budget.saturating_sub(cells);
        l
    }

    /// The carrier this ledger is tracking.
    pub fn carrier(&self) -> (c: Carrier)
        ensures
            c == self.carrier_spec(),
    {
        self.carrier
    }

    /// Dust cells spent since the last refresh.
    pub fn spent(&self) -> (s: u32)
        ensures
            s == self.spent_spec(),
    {
        self.spent
    }

    /// The exit headroom this ledger is holding back.
    pub fn reserve(&self) -> (r: u32)
        ensures
            r == self.reserve_spec(),
    {
        self.reserve
    }

    /// Debit one carried cell (saturating).
    pub fn carry_cell(&mut self)
        ensures
            final(self).carrier_spec() == old(self).carrier_spec(),
            final(self).budget_spec() == old(self).budget_spec(),
            final(self).reserve_spec() == old(self).reserve_spec(),
            final(self).spent_spec() == (if old(self).spent_spec() + decay_of(old(self).carrier_spec()) > u32::MAX {
                u32::MAX
            } else {
                (old(self).spent_spec() + decay_of(old(self).carrier_spec())) as u32
            }),
    {
        self.spent = self.spent.saturating_add(self.carrier.decay_per_cell());
    }

    /// A refresh: the signal leaves at full strength again.
    pub fn refresh(&mut self)
        ensures
            final(self).carrier_spec() == old(self).carrier_spec(),
            final(self).budget_spec() == old(self).budget_spec(),
            final(self).reserve_spec() == old(self).reserve_spec(),
            final(self).spent_spec() == 0,
    {
        self.spent = 0;
    }

    /// Can the carrier pay for one more cell here plus `mandatory_tail`
    /// cells after it that cannot host a station? A non-decaying carrier
    /// always can.
    pub fn admits_cell(&self, mandatory_tail: u32) -> (b: bool)
        ensures
            b == admits(self.carrier_spec(), self.budget_spec(), self.spent_spec(), mandatory_tail),
    {
        let d = self.carrier.decay_per_cell();
        if d == 0 {
            return true;
        }
        let need: u64 = (d as u64) * (1 + mandatory_tail as u64);
        (self.spent as u64) + need <= self.budget as u64
    }

    /// Must a refresh station go here: does the carrier plan stations and
    /// would carrying this cell strand the signal?
    pub fn needs_station(&self, mandatory_tail: u32) -> (b: bool)
        ensures
            b == (self.carrier_spec() == Carrier::Dust
                && !admits(self.carrier_spec(), self.budget_spec(), self.spent_spec(), mandatory_tail)),
    {
        self.carrier.plans_stations() && !self.admits_cell(mandatory_tail)
    }
}

/// A dust ledger that has spent `s` of budget `b` needs a station for tail
/// `t` exactly when `s + 1 + t` exceeds `b`; carrying `k` more cells (while
/// the count stays in range) moves that threshold by exactly `k`. So a run
/// entering with `s` spent carries `b - s - t` cells before its station.
pub proof fn law_dust_stretch(b: u32, s: u32, t: u32, k: nat)
    requires
        s + k <= u32::MAX,
    ensures
        !admits(Carrier::Dust, b, (s + k) as u32, t) <==> s + k + 1 + t > b,
{
}

/// Carriers that do not decay never need a station, whatever the ledger.
pub proof fn law_non_decaying_never_stations(c: Carrier, b: u32, s: u32, t: u32)
    requires
        c != Carrier::Dust,
    ensures
        admits(c, b, s, t),
        decay_of(c) == 0,
{
}

// ---------------------------------------------------------------------------
// Dust debt of stamped geometry
// ---------------------------------------------------------------------------

/// A block position.
pub type Pos3 = (i32, i32, i32);

/// The fourteen moves along which dust conducts: the six axis steps and the
/// eight vertical diagonals of a staircase.
pub open spec fn dust_steps() -> Seq<Pos3> {
    seq![
        (1i32, 0i32, 0i32), (-1i32, 0i32, 0i32), (0i32, 1i32, 0i32), (0i32, -1i32, 0i32),
        (0i32, 0i32, 1i32), (0i32, 0i32, -1i32), (1i32, 1i32, 0i32), (-1i32, 1i32, 0i32),
        (1i32, -1i32, 0i32), (-1i32, -1i32, 0i32), (0i32, 1i32, 1i32), (0i32, 1i32, -1i32),
        (0i32, -1i32, 1i32), (0i32, -1i32, -1i32),
    ]
}

/// `q` is one dust step away from `p`.
pub open spec fn dust_adjacent(p: Pos3, q: Pos3) -> bool {
    exists|i: int| 0 <= i < 14 && #[trigger] offset(p, dust_steps()[i]) == (q.0 as int, q.1 as int, q.2 as int)
}

/// `p + s` over the integers.
pub open spec fn offset(p: Pos3, s: Pos3) -> (int, int, int) {
    (p.0 + s.0, p.1 + s.1, p.2 + s.2)
}

/// The cells the predicate calls dust, when the closure answers
/// deterministically.
pub open spec fn is_dust_cell<F: Fn(Pos3) -> bool>(f: F, p: Pos3) -> bool {
    call_ensures(f, (p,), true)
}

/// Cells reachable from `anchor` in at most `k` dust steps through dust.
pub open spec fn dust_layer<F: Fn(Pos3) -> bool>(f: F, anchor: Pos3, k: nat) -> Set<Pos3>
    decreases k,
{
    if k == 0 {
        set![anchor]
    } else {
        let prev = dust_layer(f, anchor, (k - 1) as nat);
        prev.union(Set::new(|q: Pos3| is_dust_cell(f, q) && exists|p: Pos3| prev.contains(p) && dust_adjacent(p, q)))
    }
}

/// The closure may be called on any cell and always gives the same answer
/// for the same cell.
pub open spec fn deterministic<F: Fn(Pos3) -> bool>(f: F) -> bool {
    &&& forall|p: Pos3| call_requires(f, (p,))
    &&& forall|p: Pos3, r1: bool, r2: bool|
        call_ensures(f, (p,), r1) && call_ensures(f, (p,), r2) ==> r1 == r2
}

/// The dust cells.
pub open spec fn dust_set<F: Fn(Pos3) -> bool>(f: F) -> Set<Pos3> {
    Set::new(|p: Pos3| is_dust_cell(f, p))
}

/// `p` lies strictly inside the coordinate range, so every neighbour of it
/// is a position.
pub open spec fn in_range(p: Pos3) -> bool {
    &&& i32::MIN < p.0 < i32::MAX
    &&& i32::MIN < p.1 < i32::MAX
    &&& i32::MIN < p.2 < i32::MAX
}

/// The cells reachable from `anchor` through dust, in any number of steps.
pub open spec fn reach_set<F: Fn(Pos3) -> bool>(f: F, anchor: Pos3) -> Set<Pos3> {
    Set::new(|p: Pos3| exists|k: nat| #[trigger] dust_layer(f, anchor, k).contains(p))
}

/// Finitely many cells (fewer than `u32::MAX`) are reachable from `anchor`
/// through dust, and each reachable dust cell lies strictly inside the
/// coordinate range.
pub open spec fn reach_bounded<F: Fn(Pos3) -> bool>(f: F, anchor: Pos3) -> bool {
    &&& reach_set(f, anchor).finite()
    &&& reach_set(f, anchor).len() < u32::MAX
    &&& forall|p: Pos3| #[trigger] reach_set(f, anchor).contains(p) && is_dust_cell(f, p) ==> in_range(p)
}

/// Dust cells one step from some cell of `s`.
pub open spec fn dust_nbrs<F: Fn(Pos3) -> bool>(f: F, s: Set<Pos3>) -> Set<Pos3> {
    Set::new(|q: Pos3| is_dust_cell(f, q) && exists|p: Pos3| s.contains(p) && dust_adjacent(p, q))
}

/// `x` is one dust step from one of the first `i` cells of `fr`.
spec fn adj_prefix(fr: Seq<Pos3>, i: int, x: Pos3) -> bool {
    exists|a: int| 0 <= a < i && dust_adjacent(fr[a], x)
}

/// `x` is one dust step from some cell of `fr`.
spec fn adj_any(fr: Seq<Pos3>, x: Pos3) -> bool {
    exists|a: int| 0 <= a < fr.len() && dust_adjacent(fr[a], x)
}

/// `x` is `p` moved by one of the first `j` dust steps.
spec fn step_within(p: Pos3, x: Pos3, j: int) -> bool {
    exists|t: int| 0 <= t < j && #[trigger] offset(p, dust_steps()[t]) == (x.0 as int, x.1 as int, x.2 as int)
}

fn dust_step(j: usize) -> (s: Pos3)
    requires
        j < 14,
    ensures
        s == dust_steps()[j as int],
{
    match j {
        0 => (1, 0, 0),
        1 => (-1, 0, 0),
        2 => (0, 1, 0),
        3 => (0, -1, 0),
        4 => (0, 0, 1),
        5 => (0, 0, -1),
        6 => (1, 1, 0),
        7 => (-1, 1, 0),
        8 => (1, -1, 0),
        9 => (-1, -1, 0),
        10 => (0, 1, 1),
        11 => (0, 1, -1),
        12 => (0, -1, 1),
        _ => (0, -1, -1),
    }
}

fn vec_contains(v: &Vec<Pos3>, q: Pos3) -> (b: bool)
    ensures
        b == v@.contains(q),
{
    let mut i: usize = 0;
    while i < v.len()
        invariant
            i <= v@.len(),
            forall|a: int| 0 <= a < i ==> v@[a] != q,
        decreases v@.len() - i,
    {
        if v[i].0 == q.0 && v[i].1 == q.1 && v[i].2 == q.2 {
            return true;
        }
        i = i + 1;
    }
    false
}

/// Visit the dust neighbours of `p` not seen yet: each is appended, once,
/// to both `seen` and `next`.
fn expand_cell<F: Fn(Pos3) -> bool>(is_dust: &F, p: Pos3, seen_in: Vec<Pos3>, next_in: Vec<Pos3>) -> (r: (Vec<Pos3>, Vec<Pos3>))
    requires
        deterministic(*is_dust),
        in_range(p),
        is_dust_cell(*is_dust, p),
        seen_in@.no_duplicates(),
    ensures
        r.0@.no_duplicates(),
        r.1@.len() >= next_in@.len(),
        r.0@ == seen_in@ + r.1@.subrange(next_in@.len() as int, r.1@.len() as int),
        r.1@ == next_in@ + r.1@.subrange(next_in@.len() as int, r.1@.len() as int),
        forall|x: Pos3| #[trigger] r.1@.subrange(next_in@.len() as int, r.1@.len() as int).contains(x) <==> (
            is_dust_cell(*is_dust, x) && dust_adjacent(p, x) && !seen_in@.contains(x)),
{
    let mut seen = seen_in;
    let mut next = next_in;
    let ghost seen0 = seen@;
    let ghost next0 = next@;
    let ghost mut added: Seq<Pos3> = Seq::empty();
    let mut j: usize = 0;
    proof {
        assert(seen@ =~= seen0 + added);
        assert(next@ =~= next0 + added);
    }
    while j < 14
        invariant
            deterministic(*is_dust),
            in_range(p),
            is_dust_cell(*is_dust, p),
            j <= 14,
            seen@.no_duplicates(),
            seen@ == seen0 + added,
            next@ == next0 + added,
            forall|x: Pos3| #[trigger] added.contains(x) <==> (is_dust_cell(*is_dust, x) && step_within(p, x, j as int)
                && !seen0.contains(x)),
        decreases 14 - j,
    {
        let st = dust_step(j);
        let q: Pos3 = (p.0 + st.0, p.1 + st.1, p.2 + st.2);
        let ghost added0 = added;
        let ghost seen1 = seen@;
        let in_seen = vec_contains(&seen, q);
        if !in_seen {
            let b = (*is_dust)(q);
            if b {
                seen.push(q);
                next.push(q);
                proof {
                    added = added.push(q);
                    assert(seen@ =~= seen0 + added);
                    assert(next@ =~= next0 + added);
                }
            } else {
                proof {
                    assert(!is_dust_cell(*is_dust, q));
                }
            }
        }
        proof {
            assert(offset(p, dust_steps()[j as int]) == (q.0 as int, q.1 as int, q.2 as int));
            assert forall|x: Pos3| step_within(p, x, j + 1) <==> (step_within(p, x, j as int) || x == q) by {
                if step_within(p, x, j + 1) && !step_within(p, x, j as int) {
                    let t = choose|t: int| 0 <= t < j + 1 && #[trigger] offset(p, dust_steps()[t]) == (x.0 as int, x.1 as int, x.2 as int);
                    assert(t == j);
                }
            }
            if added.len() > added0.len() {
                assert(added == added0.push(q));
                assert(!seen1.contains(q));
                assert forall|x: Pos3| added.contains(x) <==> (added0.contains(x) || x == q) by {
                    if added0.contains(x) {
                        let k = choose|k: int| 0 <= k < added0.len() && added0[k] == x;
                        assert(added[k] == x);
                    }
                    if x == q {
                        assert(added[added0.len() as int] == x);
                    }
                }
                assert(!seen0.contains(q)) by {
                    if seen0.contains(q) {
                        let k = choose|k: int| 0 <= k < seen0.len() && seen0[k] == q;
                        assert(seen1[k] == q);
                    }
                }
            } else {
                if !in_seen {
                    assert(!is_dust_cell(*is_dust, q));
                } else {
                    assert(seen1.contains(q));
                    assert(seen0.contains(q) || added0.contains(q)) by {
                        let k = choose|k: int| 0 <= k < seen1.len() && seen1[k] == q;
                        if k < seen0.len() {
                            assert(seen0[k] == q);
                        } else {
                            assert(added0[k - seen0.len()] == q);
                        }
                    }
                }
            }
        }
        j = j + 1;
    }
    proof {
        assert forall|x: Pos3| step_within(p, x, 14) <==> dust_adjacent(p, x) by {}
        assert(next@.subrange(next0.len() as int, next@.len() as int) =~= added);
    }
    (seen, next)
}

/// Visit the dust neighbours of every frontier cell not seen yet; they are
/// appended, once each, to `seen`, and returned in the same order.
fn expand_layer<F: Fn(Pos3) -> bool>(is_dust: &F, frontier: &Vec<Pos3>, seen_in: Vec<Pos3>) -> (r: (Vec<Pos3>, Vec<Pos3>))
    requires
        deterministic(*is_dust),
        forall|p: Pos3| frontier@.contains(p) ==> is_dust_cell(*is_dust, p),
        forall|p: Pos3| frontier@.contains(p) ==> in_range(p),
        seen_in@.no_duplicates(),
    ensures
        r.0@.no_duplicates(),
        r.0@ == seen_in@ + r.1@,
        forall|x: Pos3| #[trigger] r.1@.contains(x) <==> (is_dust_cell(*is_dust, x) && !seen_in@.contains(x)
            && exists|p: Pos3| frontier@.contains(p) && dust_adjacent(p, x)),
{
    let mut seen = seen_in;
    let ghost seen0 = seen@;
    let mut next: Vec<Pos3> = Vec::new();
    let mut i: usize = 0;
    proof {
        assert(seen@ =~= seen0 + next@);
    }
    while i < frontier.len()
        invariant
            deterministic(*is_dust),
            forall|p: Pos3| frontier@.contains(p) ==> is_dust_cell(*is_dust, p),
            forall|p: Pos3| frontier@.contains(p) ==> in_range(p),
            i <= frontier@.len(),
            seen@.no_duplicates(),
            seen@ == seen0 + next@,
            forall|x: Pos3| #[trigger] next@.contains(x) <==> (is_dust_cell(*is_dust, x) && !seen0.contains(x)
                && adj_prefix(frontier@, i as int, x)),
        decreases frontier@.len() - i,
    {
        let p = frontier[i];
        proof {
            assert(frontier@.contains(p));
        }
        let ghost next1 = next@;
        let ghost seen1 = seen@;
        let (s2, n2) = expand_cell(is_dust, p, seen, next);
        seen = s2;
        next = n2;
        proof {
            let added = next@.subrange(next1.len() as int, next@.len() as int);
            assert(next@.len() >= next1.len());
            assert(seen@ == seen1 + added);
            assert forall|x: Pos3| added.contains(x) implies !seen1.contains(x) by {}
            assert forall|x: Pos3| added.contains(x) implies dust_adjacent(p, x) by {}
            assert forall|x: Pos3| added.contains(x) implies is_dust_cell(*is_dust, x) by {}
            assert(next@ =~= next1 + added);
            assert(seen@ =~= seen0 + next@);
            assert forall|x: Pos3| #[trigger] next@.contains(x) <==> (is_dust_cell(*is_dust, x) && !seen0.contains(x)
                && adj_prefix(frontier@, i + 1, x)) by {
                if next@.contains(x) {
                    let k = choose|k: int| 0 <= k < next@.len() && next@[k] == x;
                    if k < next1.len() {
                        assert(next1[k] == x);
                        assert(next1.contains(x));
                    } else {
                        assert(added[k - next1.len()] == x);
                        assert(added.contains(x));
                        assert(!seen1.contains(x));
                        assert(!seen0.contains(x)) by {
                            if seen0.contains(x) {
                                let m = choose|m: int| 0 <= m < seen0.len() && seen0[m] == x;
                                assert(seen1[m] == x);
                            }
                        }
                        assert(dust_adjacent(frontier@[i as int], x));
                    }
                }
                if is_dust_cell(*is_dust, x) && !seen0.contains(x) && adj_prefix(frontier@, i + 1, x) {
                    if next1.contains(x) {
                        let k = choose|k: int| 0 <= k < next1.len() && next1[k] == x;
                        assert(next@[k] == x);
                    } else if adj_prefix(frontier@, i as int, x) {
                    } else {
                        assert(dust_adjacent(p, x));
                        assert(!seen1.contains(x)) by {
                            if seen1.contains(x) {
                                let m = choose|m: int| 0 <= m < seen1.len() && seen1[m] == x;
                                if m < seen0.len() {
                                    assert(seen0[m] == x);
                                } else {
                                    assert(next1[m - seen0.len()] == x);
                                }
                            }
                        }
                        assert(added.contains(x));
                        let k = choose|k: int| 0 <= k < added.len() && added[k] == x;
                        assert(next@[next1.len() + k] == x);
                    }
                }
            }
        }
        i = i + 1;
    }
    proof {
        assert forall|x: Pos3| #[trigger] adj_any(frontier@, x) <==> (exists|p: Pos3| frontier@.contains(p) && dust_adjacent(p, x)) by {
            if exists|p: Pos3| frontier@.contains(p) && dust_adjacent(p, x) {
                let p = choose|p: Pos3| frontier@.contains(p) && dust_adjacent(p, x);
                let a = choose|a: int| 0 <= a < frontier@.len() && frontier@[a] == p;
                assert(dust_adjacent(frontier@[a], x));
            }
            if exists|a: int| 0 <= a < frontier@.len() && dust_adjacent(frontier@[a], x) {
                let a = choose|a: int| 0 <= a < frontier@.len() && dust_adjacent(frontier@[a], x);
                assert(frontier@.contains(frontier@[a]));
            }
        }
    }
    (seen, next)
}

proof fn lemma_layer_dust<F: Fn(Pos3) -> bool>(f: F, anchor: Pos3, k: nat)
    requires
        is_dust_cell(f, anchor),
    ensures
        dust_layer(f, anchor, k).subset_of(dust_set(f)),
    decreases k,
{
    if k > 0 {
        lemma_layer_dust(f, anchor, (k - 1) as nat);
    }
}

proof fn lemma_layer_grows<F: Fn(Pos3) -> bool>(f: F, anchor: Pos3, k: nat)
    ensures
        dust_layer(f, anchor, k) == dust_layer(f, anchor, (k - 1) as nat).union(
            dust_nbrs(f, dust_layer(f, anchor, (k - 1) as nat)),
        ) || k == 0,
{
    if k > 0 {
        assert(dust_layer(f, anchor, k) =~= dust_layer(f, anchor, (k - 1) as nat).union(
            dust_nbrs(f, dust_layer(f, anchor, (k - 1) as nat)),
        ));
    }
}

/// The dust debt a stamped tile imposes at `anchor`: the number of
/// breadth-first layers of dust reachable from `anchor` without passing
/// through anything that is not dust (so a repeater bounds it). `anchor`
/// counts as the first layer; a non-dust anchor owes nothing.
///
/// Precisely, the result is the least `d >= 1` at which the cells within
/// `d` steps are no more than those within `d - 1` steps.
#[verifier::rlimit(60)]
pub fn tile_dust_debt<F: Fn(Pos3) -> bool>(anchor: Pos3, is_dust: F) -> (depth: u32)
    requires
        deterministic(is_dust),
        reach_bounded(is_dust, anchor),
    ensures
        !is_dust_cell(is_dust, anchor) ==> depth == 0,
        is_dust_cell(is_dust, anchor) ==> {
            &&& depth >= 1
            &&& dust_layer(is_dust, anchor, depth as nat) == dust_layer(is_dust, anchor, (depth - 1) as nat)
            &&& forall|k: nat| 1 <= k < depth ==> #[trigger] dust_layer(is_dust, anchor, k) != dust_layer(is_dust, anchor, (k - 1) as nat)
        },
{
    let a = is_dust(anchor);
    if !a {
        return 0;
    }
    let ghost f = is_dust;
    let ghost dset = reach_set(f, anchor);
    let mut seen: Vec<Pos3> = Vec::new();
    seen.push(anchor);
    let mut frontier: Vec<Pos3> = Vec::new();
    frontier.push(anchor);
    let mut depth: u32 = 0;
    proof {
        assert(seen@ =~= seq![anchor]);
        assert(frontier@ =~= seq![anchor]);
        assert(dust_layer(f, anchor, 0) == set![anchor]);
        assert forall|p: Pos3| seen@.contains(p) <==> dust_layer(f, anchor, 0).contains(p) by {
            if p == anchor {
                assert(seen@[0] == p);
            }
        }
        assert forall|p: Pos3| frontier@.contains(p) <==> dust_layer(f, anchor, 0).contains(p) by {
            if p == anchor {
                assert(frontier@[0] == p);
            }
        }
    }
    while frontier.len() > 0
        invariant
            deterministic(is_dust),
            reach_bounded(is_dust, anchor),
            is_dust_cell(is_dust, anchor),
            f == is_dust,
            dset == reach_set(f, anchor),
            forall|p: Pos3| #[trigger] seen@.contains(p) <==> dust_layer(f, anchor, depth as nat).contains(p),
            forall|p: Pos3| #[trigger] frontier@.contains(p) <==> (dust_layer(f, anchor, depth as nat).contains(p) && (depth == 0
                || !dust_layer(f, anchor, (depth - 1) as nat).contains(p))),
            seen@.no_duplicates(),
            depth <= seen@.len(),
            frontier@.len() > 0 ==> depth + 1 <= seen@.len(),
            depth == 0 ==> frontier@.len() > 0,
            forall|k: nat| 1 <= k < depth ==> #[trigger] dust_layer(f, anchor, k) != dust_layer(f, anchor, (k - 1) as nat),
        decreases dset.len() - seen@.len() + if frontier@.len() > 0 { 1int } else { 0int },
    {
        let ghost d = depth as nat;
        let ghost s_set = dust_layer(f, anchor, d);
        let ghost fr = frontier@;
        let ghost seen0 = seen@;
        proof {
            if d >= 1 {
                let p0 = frontier@[0];
                assert(frontier@.contains(p0));
                assert(dust_layer(f, anchor, d).contains(p0));
                assert(!dust_layer(f, anchor, (d - 1) as nat).contains(p0));
            }
            lemma_layer_dust(f, anchor, d);
            assert forall|p: Pos3| s_set.contains(p) implies dset.contains(p) by {
                assert(dust_layer(f, anchor, d).contains(p));
            }
            assert(s_set.subset_of(dset));
            assert(seen@.to_set() =~= s_set);
            seen@.unique_seq_to_set();
            vstd::set_lib::lemma_len_subset(s_set, dset);
        }
        proof {
            assert forall|p: Pos3| frontier@.contains(p) implies is_dust_cell(f, p) by {
                assert(s_set.contains(p));
            }
            assert forall|p: Pos3| frontier@.contains(p) implies in_range(p) by {
                assert(s_set.contains(p));
                assert(dset.contains(p));
                assert(is_dust_cell(f, p));
            }
        }
        let (s2, next) = expand_layer(&is_dust, &frontier, seen);
        seen = s2;
        proof {
            let nb = dust_nbrs(f, s_set);
            let layer_next = dust_layer(f, anchor, d + 1);
            lemma_layer_grows(f, anchor, d + 1);
            assert forall|q: Pos3| seen0.contains(q) <==> s_set.contains(q) by {}
            assert forall|q: Pos3| next@.contains(q) <==> (nb.contains(q) && !s_set.contains(q)) by {
                if next@.contains(q) {
                    let p = choose|p: Pos3| frontier@.contains(p) && dust_adjacent(p, q);
                    assert(s_set.contains(p));
                }
                if nb.contains(q) && !s_set.contains(q) {
                    let p = choose|p: Pos3| s_set.contains(p) && dust_adjacent(p, q);
                    if !frontier@.contains(p) {
                        assert(d > 0 && dust_layer(f, anchor, (d - 1) as nat).contains(p));
                        lemma_layer_grows(f, anchor, d);
                        assert(dust_nbrs(f, dust_layer(f, anchor, (d - 1) as nat)).contains(q));
                    }
                }
            }
            assert forall|q: Pos3| seen@.contains(q) <==> layer_next.contains(q) by {
                if seen@.contains(q) && !s_set.contains(q) {
                    let k = choose|k: int| 0 <= k < seen@.len() && seen@[k] == q;
                    if k < seen0.len() {
                        assert(seen0[k] == q);
                    } else {
                        assert(next@[k - seen0.len()] == q);
                        assert(next@.contains(q));
                    }
                    assert(nb.contains(q));
                }
                if layer_next.contains(q) && !s_set.contains(q) {
                    assert(nb.contains(q));
                    assert(next@.contains(q));
                    let k = choose|k: int| 0 <= k < next@.len() && next@[k] == q;
                    assert(seen@[seen0.len() + k] == q);
                }
                if s_set.contains(q) {
                    assert(seen0.contains(q));
                    let k = choose|k: int| 0 <= k < seen0.len() && seen0[k] == q;
                    assert(seen@[k] == q);
                }
            }
            assert forall|q: Pos3| next@.contains(q) <==> (layer_next.contains(q) && !s_set.contains(q)) by {}
            if next@.len() > 0 {
                let q = next@[0];
                assert(next@.contains(q));
                assert(layer_next.contains(q) && !s_set.contains(q));
                assert(layer_next != s_set);
            }
            lemma_layer_dust(f, anchor, d + 1);
            assert forall|p: Pos3| layer_next.contains(p) implies dset.contains(p) by {
                assert(dust_layer(f, anchor, d + 1).contains(p));
            }
            assert(layer_next.subset_of(dset));
            assert(seen@.to_set() =~= layer_next);
            seen@.unique_seq_to_set();
            vstd::set_lib::lemma_len_subset(layer_next, dset);
        }
        depth = depth + 1;
        frontier = next;
    }
    proof {
        assert(depth >= 1);
        let l1 = dust_layer(f, anchor, depth as nat);
        let l0 = dust_layer(f, anchor, (depth - 1) as nat);
        lemma_layer_grows(f, anchor, depth as nat);
        assert forall|p: Pos3| l1.contains(p) implies l0.contains(p) by {
            if !l0.contains(p) {
                assert(frontier@.contains(p));
            }
        }
        assert(l1 =~= l0);
    }
    depth
}

} // verus!
