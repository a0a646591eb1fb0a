//! Bus corridor geometry: the decisions around a detour search for a bus
//! whose straight or single-corner template is blocked.
//!
//! The search runs on the bit-0 dust plane, one node per column, with a
//! search memory of the current heading and the length of the current leg.
//! This module holds what the search decides and what is done with the cell
//! path it returns: the turn rule (no U-turns, no corner before a leg is
//! [`MIN_LEG`] cells long), the compression of a cell path to its corners,
//! and the acceptance test of the resulting waypoint chain (axis-aligned,
//! non-degenerate legs that keep one empty cell of separation from every
//! non-adjacent leg).

use vstd::prelude::*;
use crate::design::{OccupancyIndex, Occupant, P3};
use crate::text::{
    decimal, find_text, join, lemma_text_lt_irreflexive, lemma_text_lt_total, lemma_text_lt_transitive, occurs_at, push_int,
    push_join, str_eq, str_lt, text_lt, text_views,
};

verus! {

/// Minimum straight cells before a corner may turn again. Two corners closer
/// than this would put their joint columns diagonally adjacent, and dust
/// reads diagonally: the corridor would short itself.
pub const MIN_LEG: u8 = 3;

/// One rung of the retry ladder: how hard to try.
#[derive(Copy, Clone, Debug)]
pub struct Effort {
    /// Extra cost charged for a corner.
    pub turn_cost: u32,
    /// Cells of slack added around the endpoints' bounding box.
    pub margin: i32,
    /// Search node budget.
    pub max_iter: usize,
}

/// Which way the search head last moved.
#[derive(Clone, Copy, PartialEq, Eq, Structural, Debug)]
pub enum Heading {
    /// At the source; the first leg may go any way.
    Start,
    PlusX,
    MinusX,
    PlusZ,
    MinusZ,
}

/// The column step of a heading on the xz plane.
pub open spec fn heading_delta(h: Heading) -> (int, int) {
    match h {
        Heading::Start => (0, 0),
        Heading::PlusX => (1, 0),
        Heading::MinusX => (-1, 0),
        Heading::PlusZ => (0, 1),
        Heading::MinusZ => (0, -1),
    }
}

/// The reverse heading (the start stays the start).
pub open spec fn heading_opposite(h: Heading) -> Heading {
    match h {
        Heading::Start => Heading::Start,
        Heading::PlusX => Heading::MinusX,
        Heading::MinusX => Heading::PlusX,
        Heading::PlusZ => Heading::MinusZ,
        Heading::MinusZ => Heading::PlusZ,
    }
}

impl Heading {
    /// The column step `(dx, dz)` of this heading.
    pub fn delta(self) -> (d: (i32, i32))
        ensures
            d.0 == heading_delta(self).0,
            d.1 == heading_delta(self).1,
    {
        match self {
            Heading::Start => (0, 0),
            Heading::PlusX => (1, 0),
            Heading::MinusX => (-1, 0),
            Heading::PlusZ => (0, 1),
            Heading::MinusZ => (0, -1),
        }
    }

    /// The reverse heading.
    pub fn opposite(self) -> (h: Heading)
        ensures
            h == heading_opposite(self),
    {
        match self {
            Heading::Start => Heading::Start,
            Heading::PlusX => Heading::MinusX,
            Heading::MinusX => Heading::PlusX,
            Heading::PlusZ => Heading::MinusZ,
            Heading::MinusZ => Heading::PlusZ,
        }
    }
}

/// The four moving headings, in the order the search tries them.
pub open spec fn moving_headings() -> Seq<Heading> {
    seq![Heading::PlusX, Heading::MinusX, Heading::PlusZ, Heading::MinusZ]
}

/// Search memory: the current heading plus how many cells the current leg has
/// run (saturating at [`MIN_LEG`], which is all the turn rule needs).
#[derive(Clone, Copy, PartialEq, Eq, Structural, Debug)]
pub struct Leg {
    pub heading: Heading,
    pub run: u8,
}

/// One step the search may take from a state: the new memory and its cost.
#[derive(Clone, Copy, PartialEq, Eq, Structural, Debug)]
pub struct LegMove {
    pub next: Leg,
    pub cost: u64,
}

/// The memory the search starts with.
pub fn start_leg() -> (l: Leg)
    ensures
        l == (Leg { heading: Heading::Start, run: 0 }),
{
    Leg { heading: Heading::Start, run: 0 }
}

/// Whether the turn rule lets the head at `from` move toward `h`: anything
/// goes at the start; otherwise no U-turn, and no corner before the current
/// leg has run [`MIN_LEG`] cells.
pub open spec fn move_allowed(from: Leg, h: Heading) -> bool {
    from.heading == Heading::Start || (h != heading_opposite(from.heading) && (h == from.heading
        || from.run >= MIN_LEG))
}

/// The step taken toward `h` from `from`: a corner (or the first step) starts
/// a fresh leg of one cell; going straight extends the leg, saturating at
/// [`MIN_LEG`]. A corner costs `1 + turn_cost`, a straight step 1.
pub open spec fn move_toward(from: Leg, h: Heading, turn_cost: u32) -> LegMove {
    let turning = from.heading != Heading::Start && from.heading != h;
    let run: u8 = if turning || from.heading == Heading::Start {
        1
    } else if from.run + 1 >= MIN_LEG {
        MIN_LEG
    } else {
        (from.run + 1) as u8
    };
    LegMove {
        next: Leg { heading: h, run },
        cost: if turning { 1 + turn_cost } else { 1 } as u64,
    }
}

/// The allowed steps among the first `k` moving headings, in order.
pub open spec fn moves_upto(from: Leg, turn_cost: u32, k: int) -> Seq<LegMove>
    decreases k,
{
    if k <= 0 {
        seq![]
    } else {
        let h = moving_headings()[k - 1];
        let before = moves_upto(from, turn_cost, k - 1);
        if move_allowed(from, h) {
            before.push(move_toward(from, h, turn_cost))
        } else {
            before
        }
    }
}

/// Every step the search may take from `from`.
pub open spec fn leg_moves_spec(from: Leg, turn_cost: u32) -> Seq<LegMove> {
    moves_upto(from, turn_cost, 4)
}

/// The steps the corridor search may take from a state with memory `from`,
/// in heading order `+x, -x, +z, -z`, each with its new memory and cost.
pub fn leg_moves(from: Leg, turn_cost: u32) -> (out: Vec<LegMove>)
    ensures
        out@ == leg_moves_spec(from, turn_cost),
{
    let all: [Heading; 4] = [Heading::PlusX, Heading::MinusX, Heading::PlusZ, Heading::MinusZ];
    let mut out: Vec<LegMove> = Vec::new();
    let mut i: usize = 0;
    while i < 4
        invariant
            i <= 4,
            all@ == moving_headings(),
            out@ == moves_upto(from, turn_cost, i as int),
        decreases 4 - i,
    {
        let h = all[i];
        let turning = from.heading != Heading::Start && from.heading != h;
        let mut allowed = true;
        if from.heading != Heading::Start {
            if h == from.heading.opposite() {
                allowed = false;
            }
            if turning && from.run < MIN_LEG {
                allowed = false;
            }
        }
        if allowed {
            let run: u8 = if turning || from.heading == Heading::Start {
                1
            } else if from.run >= MIN_LEG - 1 {
                MIN_LEG
            } else {
                from.run + 1
            };
            let cost: u64 = if turning { 1 + turn_cost as u64 } else { 1 };
            out.push(LegMove { next: Leg { heading: h, run }, cost });
        }
        i = i + 1;
    }
    out
}

/// The place of a moving heading in the order `+x, -x, +z, -z`.
pub open spec fn heading_rank(h: Heading) -> int {
    match h {
        Heading::Start => -1,
        Heading::PlusX => 0,
        Heading::MinusX => 1,
        Heading::PlusZ => 2,
        Heading::MinusZ => 3,
    }
}

/// The turn rule, for every state and turn cost: from the start every
/// heading is open; otherwise there is never a U-turn, a corner only once
/// the current leg has run [`MIN_LEG`] cells, and then both corners are open
/// besides going straight. A corner starts a fresh leg of one cell and costs
/// `1 + turn_cost`; a straight step costs 1 and lengthens the leg.
pub proof fn law_leg_moves_turn_rule(from: Leg, turn_cost: u32)
    ensures
        forall|i: int|
            0 <= i < leg_moves_spec(from, turn_cost).len() ==> {
                let m = #[trigger] leg_moves_spec(from, turn_cost)[i];
                &&& m.next.heading != Heading::Start
                &&& from.heading != Heading::Start ==> m.next.heading != heading_opposite(from.heading)
                &&& (from.heading != Heading::Start && m.next.heading != from.heading) ==> from.run >= MIN_LEG
                    && m.next.run == 1 && m.cost == 1 + turn_cost
                &&& (from.heading == Heading::Start) ==> m.next.run == 1 && m.cost == 1
                &&& (m.next.heading == from.heading) ==> m.cost == 1 && m.next.run >= 1 && m.next.run <= MIN_LEG
                    && (from.run < MIN_LEG ==> m.next.run == from.run + 1)
            },
        forall|i: int, j: int|
            0 <= i < j < leg_moves_spec(from, turn_cost).len() ==> heading_rank(
                #[trigger] leg_moves_spec(from, turn_cost)[i].next.heading,
            ) < heading_rank(#[trigger] leg_moves_spec(from, turn_cost)[j].next.heading),
        leg_moves_spec(from, turn_cost).len() == if from.heading == Heading::Start {
            4int
        } else if from.run >= MIN_LEG {
            3int
        } else {
            1int
        },
{
    reveal_with_fuel(moves_upto, 5);
    let s = leg_moves_spec(from, turn_cost);
    assert(moving_headings()[0] == Heading::PlusX);
    assert(moving_headings()[1] == Heading::MinusX);
    assert(moving_headings()[2] == Heading::PlusZ);
    assert(moving_headings()[3] == Heading::MinusZ);
    assert forall|i: int| 0 <= i < s.len() implies {
        let m = #[trigger] s[i];
        &&& m.next.heading != Heading::Start
        &&& from.heading != Heading::Start ==> m.next.heading != heading_opposite(from.heading)
        &&& (from.heading != Heading::Start && m.next.heading != from.heading) ==> from.run >= MIN_LEG
            && m.next.run == 1 && m.cost == 1 + turn_cost
        &&& (from.heading == Heading::Start) ==> m.next.run == 1 && m.cost == 1
        &&& (m.next.heading == from.heading) ==> m.cost == 1 && m.next.run >= 1 && m.next.run <= MIN_LEG
            && (from.run < MIN_LEG ==> m.next.run == from.run + 1)
    } by {
        lemma_moves_upto_each(from, turn_cost, 4, i);
    }
    assert forall|i: int, j: int| 0 <= i < j < s.len() implies heading_rank(#[trigger] s[i].next.heading) < heading_rank(
        #[trigger] s[j].next.heading,
    ) by {
        lemma_moves_upto_order(from, turn_cost, 4, i, j);
    }
}

/// The steps among the first `k` moving headings come in heading order,
/// each below rank `k`.
proof fn lemma_moves_upto_order(from: Leg, turn_cost: u32, k: int, i: int, j: int)
    requires
        0 <= k <= 4,
        0 <= i < j < moves_upto(from, turn_cost, k).len(),
    ensures
        heading_rank(moves_upto(from, turn_cost, k)[i].next.heading) < heading_rank(
            moves_upto(from, turn_cost, k)[j].next.heading,
        ),
    decreases k,
{
    lemma_moves_upto_rank(from, turn_cost, k, i);
    lemma_moves_upto_rank(from, turn_cost, k, j);
    let h = moving_headings()[k - 1];
    let before = moves_upto(from, turn_cost, k - 1);
    if j < before.len() {
        lemma_moves_upto_order(from, turn_cost, k - 1, i, j);
        if move_allowed(from, h) {
            assert(moves_upto(from, turn_cost, k)[i] == before[i]);
            assert(moves_upto(from, turn_cost, k)[j] == before[j]);
        }
    } else {
        lemma_moves_upto_rank(from, turn_cost, k - 1, i);
        assert(moves_upto(from, turn_cost, k)[i] == before[i]);
        assert(heading_rank(h) == k - 1);
    }
}

/// Each step among the first `k` moving headings has a rank below `k`.
proof fn lemma_moves_upto_rank(from: Leg, turn_cost: u32, k: int, i: int)
    requires
        0 <= k <= 4,
        0 <= i < moves_upto(from, turn_cost, k).len(),
    ensures
        0 <= heading_rank(moves_upto(from, turn_cost, k)[i].next.heading) < k,
    decreases k,
{
    let h = moving_headings()[k - 1];
    let before = moves_upto(from, turn_cost, k - 1);
    assert(heading_rank(h) == k - 1);
    if i < before.len() {
        lemma_moves_upto_rank(from, turn_cost, k - 1, i);
        if move_allowed(from, h) {
            assert(moves_upto(from, turn_cost, k)[i] == before[i]);
        }
    }
}

/// Every step among the first `k` moving headings obeys the turn rule.
proof fn lemma_moves_upto_each(from: Leg, turn_cost: u32, k: int, i: int)
    requires
        0 <= k <= 4,
        0 <= i < moves_upto(from, turn_cost, k).len(),
    ensures
        ({
            let m = moves_upto(from, turn_cost, k)[i];
            &&& m.next.heading != Heading::Start
            &&& from.heading != Heading::Start ==> m.next.heading != heading_opposite(from.heading)
            &&& (from.heading != Heading::Start && m.next.heading != from.heading) ==> from.run >= MIN_LEG
                && m.next.run == 1 && m.cost == 1 + turn_cost
            &&& (from.heading == Heading::Start) ==> m.next.run == 1 && m.cost == 1
            &&& (m.next.heading == from.heading) ==> m.cost == 1 && m.next.run >= 1 && m.next.run <= MIN_LEG
                && (from.run < MIN_LEG ==> m.next.run == from.run + 1)
        }),
    decreases k,
{
    let h = moving_headings()[k - 1];
    let before = moves_upto(from, turn_cost, k - 1);
    assert(h != Heading::Start);
    if i < before.len() {
        lemma_moves_upto_each(from, turn_cost, k - 1, i);
        if move_allowed(from, h) {
            assert(moves_upto(from, turn_cost, k)[i] == before[i]);
        }
    }
}

/// The gap between the closed intervals `[alo, ahi]` and `[blo, bhi]`: zero
/// when they overlap, else the distance between their near ends.
pub open spec fn interval_gap(alo: int, ahi: int, blo: int, bhi: int) -> int {
    let g1 = blo - ahi;
    let g2 = alo - bhi;
    let g = if g1 >= g2 { g1 } else { g2 };
    if g >= 0 { g } else { 0 }
}

pub open spec fn min_int(a: int, b: int) -> int {
    if a <= b { a } else { b }
}

pub open spec fn max_int(a: int, b: int) -> int {
    if a >= b { a } else { b }
}

/// Chebyshev distance on the xz plane between two axis-aligned legs, each its
/// own bounding box.
pub open spec fn leg_gap(a: (P3, P3), b: (P3, P3)) -> int {
    let gx = interval_gap(
        min_int(a.0.0 as int, a.1.0 as int),
        max_int(a.0.0 as int, a.1.0 as int),
        min_int(b.0.0 as int, b.1.0 as int),
        max_int(b.0.0 as int, b.1.0 as int),
    );
    let gz = interval_gap(
        min_int(a.0.2 as int, a.1.2 as int),
        max_int(a.0.2 as int, a.1.2 as int),
        min_int(b.0.2 as int, b.1.2 as int),
        max_int(b.0.2 as int, b.1.2 as int),
    );
    max_int(gx, gz)
}

fn gap(alo: i32, ahi: i32, blo: i32, bhi: i32) -> (g: i64)
    ensures
        g == interval_gap(alo as int, ahi as int, blo as int, bhi as int),
{
    let g1: i64 = blo as i64 - ahi as i64;
    let g2: i64 = alo as i64 - bhi as i64;
    let g: i64 = if g1 >= g2 { g1 } else { g2 };
    if g >= 0 { g } else { 0 }
}

fn min_i32(a: i32, b: i32) -> (m: i32)
    ensures
        m == min_int(a as int, b as int),
{
    if a <= b { a } else { b }
}

fn max_i32(a: i32, b: i32) -> (m: i32)
    ensures
        m == max_int(a as int, b as int),
{
    if a >= b { a } else { b }
}

/// Chebyshev distance in the xz plane between two axis-aligned legs.
pub fn leg_distance(a: (P3, P3), b: (P3, P3)) -> (d: i64)
    ensures
        d == leg_gap(a, b),
{
    let gx = gap(
        min_i32(a.0.0, a.1.0),
        max_i32(a.0.0, a.1.0),
        min_i32(b.0.0, b.1.0),
        max_i32(b.0.0, b.1.0),
    );
    let gz = gap(
        min_i32(a.0.2, a.1.2),
        max_i32(a.0.2, a.1.2),
        min_i32(b.0.2, b.1.2),
        max_i32(b.0.2, b.1.2),
    );
    if gx >= gz { gx } else { gz }
}

/// The cells `(x, z)` of the bounding box of a leg.
pub open spec fn in_leg_box(l: (P3, P3), x: int, z: int) -> bool {
    &&& (l.0.0 <= x <= l.1.0 || l.1.0 <= x <= l.0.0)
    &&& (l.0.2 <= z <= l.1.2 || l.1.2 <= z <= l.0.2)
}

/// The distance between two legs does not depend on which end of either leg
/// is named first, nor on which leg is named first; it is never negative,
/// it is zero when the legs share a cell, and no cell of one leg is closer
/// to a cell of the other (in the Chebyshev distance of the xz plane).
pub proof fn law_leg_gap(a: (P3, P3), b: (P3, P3))
    ensures
        leg_gap(a, b) == leg_gap((a.1, a.0), b),
        leg_gap(a, b) == leg_gap(a, (b.1, b.0)),
        leg_gap(a, b) == leg_gap(b, a),
        leg_gap(a, b) >= 0,
        (a.0.0 == b.0.0 && a.0.2 == b.0.2) ==> leg_gap(a, b) == 0,
        forall|x1: int, z1: int, x2: int, z2: int|
            #[trigger] in_leg_box(a, x1, z1) && #[trigger] in_leg_box(b, x2, z2) ==> leg_gap(a, b) <= max_int(
                if x1 >= x2 { x1 - x2 } else { x2 - x1 },
                if z1 >= z2 { z1 - z2 } else { z2 - z1 },
            ),
        exists|x1: int, z1: int, x2: int, z2: int|
            #[trigger] in_leg_box(a, x1, z1) && #[trigger] in_leg_box(b, x2, z2) && leg_gap(a, b) == max_int(
                if x1 >= x2 { x1 - x2 } else { x2 - x1 },
                if z1 >= z2 { z1 - z2 } else { z2 - z1 },
            ),
{
    let alo = min_int(a.0.0 as int, a.1.0 as int);
    let ahi = max_int(a.0.0 as int, a.1.0 as int);
    let blo = min_int(b.0.0 as int, b.1.0 as int);
    let bhi = max_int(b.0.0 as int, b.1.0 as int);
    let clo = min_int(a.0.2 as int, a.1.2 as int);
    let chi = max_int(a.0.2 as int, a.1.2 as int);
    let dlo = min_int(b.0.2 as int, b.1.2 as int);
    let dhi = max_int(b.0.2 as int, b.1.2 as int);
    let (x1, x2) = if ahi < blo { (ahi, blo) } else if bhi < alo { (alo, bhi) } else { (max_int(alo, blo), max_int(alo, blo)) };
    let (z1, z2) = if chi < dlo { (chi, dlo) } else if dhi < clo { (clo, dhi) } else { (max_int(clo, dlo), max_int(clo, dlo)) };
    assert(in_leg_box(a, x1, z1) && in_leg_box(b, x2, z2));
}

/// Leg `i` of a waypoint chain: from waypoint `i` to waypoint `i + 1`.
pub open spec fn chain_leg(chain: Seq<P3>, i: int) -> (P3, P3) {
    (chain[i], chain[i + 1])
}

/// Every two legs of the chain that do not share a corner keep at least one
/// empty cell between them.
pub open spec fn clear_of_itself(chain: Seq<P3>) -> bool {
    forall|i: int, j: int|
        0 <= i && i + 2 <= j && j + 1 < chain.len() ==> #[trigger] leg_gap(
            chain_leg(chain, i),
            chain_leg(chain, j),
        ) >= 2
}

/// Reject a corridor that comes back within one cell of itself.
///
/// Consecutive legs share a corner and are exempt. Everything else must keep
/// at least one empty cell of separation, which also rules out the diagonal
/// reads that would merge two legs into one dust net.
pub fn self_clearance_ok(chain: &[P3]) -> (ok: bool)
    ensures
        ok == clear_of_itself(chain@),
{
    let n = chain.len();
    if n < 2 {
        return true;
    }
    let legs = n - 1;
    let mut i: usize = 0;
    while i < legs
        invariant
            n == chain@.len(),
            legs + 1 == n,
            i <= legs,
            forall|a: int, b: int|
                0 <= a < i && a + 2 <= b && b < legs ==> #[trigger] leg_gap(
                    chain_leg(chain@, a),
                    chain_leg(chain@, b),
                ) >= 2,
        decreases legs - i,
    {
        let mut j: usize = i + 2;
        while j < legs
            invariant
                n == chain@.len(),
                legs + 1 == n,
                i < legs,
                i + 2 <= j,
                forall|a: int, b: int|
                    0 <= a < i && a + 2 <= b && b < legs ==> #[trigger] leg_gap(
                        chain_leg(chain@, a),
                        chain_leg(chain@, b),
                    ) >= 2,
                forall|b: int|
                    i + 2 <= b < j ==> #[trigger] leg_gap(chain_leg(chain@, i as int), chain_leg(chain@, b))
                        >= 2,
            decreases legs - j,
        {
            let d = leg_distance((chain[i], chain[i + 1]), (chain[j], chain[j + 1]));
            if d < 2 {
                assert(leg_gap(chain_leg(chain@, i as int), chain_leg(chain@, j as int)) < 2);
                return false;
            }
            j = j + 1;
        }
        i = i + 1;
    }
    true
}

/// The path turns (or is the first or last cell) at interior index `i`: the
/// step into cell `i` differs from the step out of it.
pub open spec fn turns_at(s: Seq<P3>, i: int) -> bool {
    (s[i].0 - s[i - 1].0, s[i].2 - s[i - 1].2) != (s[i + 1].0 - s[i].0, s[i + 1].2 - s[i].2)
}

/// The turning cells among interior indices `1 .. k`, in order.
pub open spec fn corners_upto(s: Seq<P3>, k: int) -> Seq<P3>
    decreases k,
{
    if k <= 1 {
        seq![]
    } else if turns_at(s, k - 1) {
        corners_upto(s, k - 1).push(s[k - 1])
    } else {
        corners_upto(s, k - 1)
    }
}

/// A cell path collapsed to its corners: the first cell, every interior cell
/// where the step direction changes, and the last cell.
pub open spec fn compressed(s: Seq<P3>) -> Seq<P3> {
    if s.len() < 2 {
        s
    } else {
        (seq![s[0]] + corners_upto(s, s.len() - 1)).push(s[s.len() - 1])
    }
}

/// Collapse a cell-by-cell path to its corners.
pub fn compress(cells: &[P3]) -> (out: Vec<P3>)
    ensures
        out@ == compressed(cells@),
{
    let n = cells.len();
    if n < 2 {
        let mut v: Vec<P3> = Vec::new();
        let mut k: usize = 0;
        while k < n
            invariant
                n == cells@.len(),
                k <= n,
                v@ == cells@.subrange(0, k as int),
            decreases n - k,
        {
            v.push(cells[k]);
            k = k + 1;
        }
        assert(cells@.subrange(0, n as int) =~= cells@);
        return v;
    }
    let mut out: Vec<P3> = Vec::new();
    out.push(cells[0]);
    let mut i: usize = 1;
    while i < n - 1
        invariant
            n == cells@.len(),
            n >= 2,
            1 <= i <= n - 1,
            out@ == seq![cells@[0]] + corners_upto(cells@, i as int),
        decreases n - 1 - i,
    {
        let prev = cells[i - 1];
        let cur = cells[i];
        let next = cells[i + 1];
        let d0x: i64 = cur.0 as i64 - prev.0 as i64;
        let d0z: i64 = cur.2 as i64 - prev.2 as i64;
        let d1x: i64 = next.0 as i64 - cur.0 as i64;
        let d1z: i64 = next.2 as i64 - cur.2 as i64;
        let ghost before = out@;
        if d0x != d1x || d0z != d1z {
            out.push(cur);
            assert(out@ == seq![cells@[0]] + corners_upto(cells@, i + 1));
        } else {
            assert(out@ == seq![cells@[0]] + corners_upto(cells@, i + 1));
        }
        i = i + 1;
    }
    out.push(cells[n - 1]);
    out
}

/// Compression keeps both ends of the path: the chain starts at the first
/// cell and ends at the last, and never has more waypoints than the path has
/// cells.
pub proof fn law_compress_keeps_endpoints(s: Seq<P3>)
    requires
        s.len() >= 2,
    ensures
        compressed(s)[0] == s[0],
        compressed(s)[compressed(s).len() - 1] == s[s.len() - 1],
        compressed(s).len() <= s.len(),
{
    lemma_corners_len(s, s.len() - 1);
}

proof fn lemma_corners_len(s: Seq<P3>, k: int)
    ensures
        corners_upto(s, k).len() <= if k <= 1 { 0 } else { k - 1 },
    decreases k,
{
    if k > 1 {
        lemma_corners_len(s, k - 1);
    }
}

/// Consecutive waypoints differ and share an x or a z: every leg is a
/// non-empty axis-aligned run.
pub open spec fn legs_axis_aligned(chain: Seq<P3>) -> bool {
    forall|i: int|
        0 <= i && i + 1 < chain.len() ==> #[trigger] chain[i] != chain[i + 1] && (chain[i].0
            == chain[i + 1].0 || chain[i].2 == chain[i + 1].2)
}

/// Whether a compressed chain is one the template planner can realize: at
/// least one leg, every leg axis-aligned and non-degenerate, and clear of
/// itself.
pub open spec fn realizable(chain: Seq<P3>) -> bool {
    chain.len() >= 2 && legs_axis_aligned(chain) && clear_of_itself(chain)
}

/// The waypoint chain for the cell path a corridor search returned: the path
/// compressed to its corners, or `None` when that chain cannot be realized.
pub fn corridor_chain(cells: &[P3]) -> (r: Option<Vec<P3>>)
    ensures
        r.is_some() == realizable(compressed(cells@)),
        r matches Some(v) ==> v@ == compressed(cells@),
{
    let chain = compress(cells);
    if chain.len() < 2 {
        return None;
    }
    let mut i: usize = 0;
    while i < chain.len() - 1
        invariant
            chain@ == compressed(cells@),
            chain@.len() >= 2,
            i + 1 <= chain@.len(),
            forall|k: int|
                0 <= k < i ==> #[trigger] chain@[k] != chain@[k + 1] && (chain@[k].0 == chain@[k
                    + 1].0 || chain@[k].2 == chain@[k + 1].2),
        decreases chain@.len() - i,
    {
        let p = chain[i];
        let q = chain[i + 1];
        if (p.0 == q.0 && p.1 == q.1 && p.2 == q.2) || (p.0 != q.0 && p.2 != q.2) {
            assert(!legs_axis_aligned(chain@)) by {
                assert(chain@[i as int] == p);
            }
            return None;
        }
        i = i + 1;
    }
    if !self_clearance_ok(chain.as_slice()) {
        return None;
    }
    Some(chain)
}

} // verus!

verus! {

broadcast use vstd::laws_cmp::group_laws_cmp;

/// The rungs of the retry ladder, tried in order: a tidy corridor first,
/// then a scrappier one over a much wider workspace.
pub fn ladder() -> (l: [Effort; 2])
    ensures
        l[0].turn_cost == 12 && l[0].margin == 24 && l[0].max_iter == 80_000,
        l[1].turn_cost == 4 && l[1].margin == 96 && l[1].max_iter == 400_000,
{
    [
        Effort { turn_cost: 12, margin: 24, max_iter: 80_000 },
        Effort { turn_cost: 4, margin: 96, max_iter: 400_000 },
    ]
}

/// The endpoint columns of the bus, exempt from every occupancy test.
pub open spec fn exempt_column(a: P3, b: P3, x: int, z: int) -> bool {
    (x == a.0 && z == a.2) || (x == b.0 && z == b.2)
}

/// How an owner is named to the user.
pub open spec fn owner_label(o: Occupant) -> Seq<char> {
    match o {
        Occupant::Loose => "loose block"@,
        Occupant::Instance(n) => "instance `"@ + n@ + "`"@,
        Occupant::Bus(n) => "bus `"@ + n@ + "`"@,
    }
}

/// A hard cell, named by its owner and block.
pub open spec fn cell_label(block: String, o: Occupant) -> Seq<char> {
    owner_label(o) + " `"@ + block@ + "`"@
}

/// A halo cell, named by its instance.
pub open spec fn halo_label(inst: String) -> Seq<char> {
    "the influence halo of instance `"@ + inst@ + "`"@
}

/// The position `(x, y, z)`.
pub open spec fn at3(x: int, y: int, z: int) -> P3 {
    (x as i32, y as i32, z as i32)
}

/// The first cell of the column at `(x, z)`, from level `y` up to `hi`,
/// that is hard-occupied or inside a halo, with who holds it.
pub open spec fn column_hit(occ: OccupancyIndex, x: int, z: int, y: int, hi: int) -> Option<(P3, Seq<char>)>
    decreases hi + 1 - y,
{
    if y > hi {
        None
    } else {
        let p = at3(x, y, z);
        if occ.cells@.contains_key(p) {
            Some((p, cell_label(occ.cells@[p].0, occ.cells@[p].1)))
        } else if occ.halos@.contains_key(p) {
            Some((p, halo_label(occ.halos@[p])))
        } else {
            column_hit(occ, x, z, y + 1, hi)
        }
    }
}

/// Lowest level of a `width`-bit stack on the dust plane `y0`: bit 0's support.
pub open spec fn stack_lo(y0: int) -> int {
    y0 - 1
}

/// Highest level of a `width`-bit stack: the top bit's dust.
pub open spec fn stack_hi(y0: int, width: int) -> int {
    y0 + 2 * (width - 1)
}

/// Who blocks a bus column at `(x, z)`, if anybody: the first occupied or
/// halo cell of the whole stack, bottom up; never one of the endpoint columns.
pub open spec fn blocker_at(occ: OccupancyIndex, a: P3, b: P3, width: u8, x: int, z: int) -> Option<(P3, Seq<char>)> {
    if exempt_column(a, b, x, z) {
        None
    } else {
        column_hit(occ, x, z, stack_lo(a.1 as int), stack_hi(a.1 as int, width as int))
    }
}

/// The coordinates a diagnosis may touch all fit, with room to spare.
pub open spec fn diagnosable(a: P3, b: P3, width: u8) -> bool {
    &&& i32::MIN + 2 <= a.0 <= i32::MAX - 2
    &&& i32::MIN + 2 <= a.2 <= i32::MAX - 2
    &&& i32::MIN + 2 <= b.0 <= i32::MAX - 2
    &&& i32::MIN + 2 <= b.2 <= i32::MAX - 2
    &&& i32::MIN + 2 <= a.1
    &&& stack_hi(a.1 as int, width as int) <= i32::MAX
}

fn push_owner(out: &mut String, o: &Occupant)
    ensures
        final(out)@ == old(out)@ + owner_label(*o),
{
    match o {
        Occupant::Loose => out.append("loose block"),
        Occupant::Instance(n) => {
            out.append("instance `");
            out.append(n.as_str());
            out.append("`");
        },
        Occupant::Bus(n) => {
            out.append("bus `");
            out.append(n.as_str());
            out.append("`");
        },
    }
}

/// Who blocks a bus column at `(x, z)`, if anybody: the location and the
/// owner, for the user-facing failure reason.
pub fn blocker(occ: &OccupancyIndex, a: P3, b: P3, width: u8, x: i32, z: i32) -> (r: Option<(P3, String)>)
    requires
        diagnosable(a, b, width),
    ensures
        match r {
            Some((p, s)) => blocker_at(*occ, a, b, width, x as int, z as int) == Some((p, s@)),
            None => blocker_at(*occ, a, b, width, x as int, z as int) is None,
        },
{
    if (x == a.0 && z == a.2) || (x == b.0 && z == b.2) {
        return None;
    }
    let lo: i64 = a.1 as i64 - 1;
    let hi: i64 = a.1 as i64 + 2 * (width as i64 - 1);
    let mut y: i64 = lo;
    while y <= hi
        invariant
            !exempt_column(a, b, x as int, z as int),
            lo == stack_lo(a.1 as int),
            hi == stack_hi(a.1 as int, width as int),
            lo <= y <= hi + 1 || y == lo,
            i32::MIN <= lo,
            hi <= i32::MAX,
            column_hit(*occ, x as int, z as int, lo as int, hi as int) == column_hit(
                *occ,
                x as int,
                z as int,
                y as int,
                hi as int,
            ),
        decreases hi + 1 - y,
    {
        let p: P3 = (x, y as i32, z);
        assert(p == at3(x as int, y as int, z as int));
        match occ.cells.get(&p) {
            Some(entry) => {
                let mut s = String::new();
                push_owner(&mut s, &entry.1);
                s.append(" `");
                s.append(entry.0.as_str());
                s.append("`");
                proof {
                    assert(occ.cells@.contains_key(p) && occ.cells@[p] == *entry);
                    assert(s@ =~= cell_label(entry.0, entry.1));
                }
                return Some((p, s));
            },
            None => {
                assert(!occ.cells@.contains_key(p));
            },
        }
        match occ.halos.get(&p) {
            Some(inst) => {
                let mut s = String::new();
                s.append("the influence halo of instance `");
                s.append(inst.as_str());
                s.append("`");
                proof {
                    assert(occ.halos@.contains_key(p) && occ.halos@[p] == *inst);
                    assert(s@ =~= halo_label(*inst));
                }
                return Some((p, s));
            },
            None => {
                assert(!occ.halos@.contains_key(p));
            },
        }
        y = y + 1;
    }
    None
}


/// The bus's own endpoint columns never block it, whichever end they are:
/// where `(x, z)` is the column of `a` or of `b`, nobody blocks. Anywhere
/// else, a reported blocker is a cell of the column's stack that is taken
/// or inside a halo, and no blocker means every cell of the stack is free.
pub proof fn law_blocker_exempts_both_ends(occ: OccupancyIndex, a: P3, b: P3, width: u8, x: int, z: int)
    ensures
        (x == a.0 && z == a.2) ==> blocker_at(occ, a, b, width, x, z) is None,
        (x == b.0 && z == b.2) ==> blocker_at(occ, a, b, width, x, z) is None,
        blocker_at(occ, a, b, width, x, z) matches Some((p, _)) ==> exists|y: int|
            stack_lo(a.1 as int) <= y <= stack_hi(a.1 as int, width as int) && p == #[trigger] at3(x, y, z)
                && (occ.cells@.contains_key(p) || occ.halos@.contains_key(p)),
        (blocker_at(occ, a, b, width, x, z) is None && !(x == a.0 && z == a.2) && !(x == b.0 && z == b.2))
            ==> forall|y: int|
            stack_lo(a.1 as int) <= y <= stack_hi(a.1 as int, width as int) ==> !occ.cells@.contains_key(
                #[trigger] at3(x, y, z),
            ) && !occ.halos@.contains_key(at3(x, y, z)),
{
    if !(x == a.0 && z == a.2) && !(x == b.0 && z == b.2) {
        lemma_column_hit(occ, x, z, stack_lo(a.1 as int), stack_hi(a.1 as int, width as int));
    }
}

/// What [`column_hit`] finds, from level `y` up to `hi`: a taken or halo
/// cell of the column in that range, or, when it finds none, no such cell.
proof fn lemma_column_hit(occ: OccupancyIndex, x: int, z: int, y: int, hi: int)
    ensures
        column_hit(occ, x, z, y, hi) matches Some((p, _)) ==> exists|y2: int|
            y <= y2 <= hi && p == #[trigger] at3(x, y2, z) && (occ.cells@.contains_key(p) || occ.halos@.contains_key(p)),
        column_hit(occ, x, z, y, hi) is None ==> forall|y2: int|
            y <= y2 <= hi ==> !occ.cells@.contains_key(#[trigger] at3(x, y2, z)) && !occ.halos@.contains_key(
                at3(x, y2, z),
            ),
    decreases hi + 1 - y,
{
    if y <= hi {
        lemma_column_hit(occ, x, z, y + 1, hi);
        let p = at3(x, y, z);
        if occ.cells@.contains_key(p) || occ.halos@.contains_key(p) {
            assert(y <= y <= hi && p == at3(x, y, z));
        }
    }
}

/// `s` added to the strictly sorted, duplicate-free list `v`, keeping it so.
pub open spec fn insert_sorted(v: Seq<Seq<char>>, s: Seq<char>) -> Seq<Seq<char>>
    decreases v.len(),
{
    if v.len() == 0 {
        seq![s]
    } else if v[0] == s {
        v
    } else if text_lt(s, v[0]) {
        seq![s] + v
    } else {
        seq![v[0]] + insert_sorted(v.drop_first(), s)
    }
}

/// Every text of `items`, in turn, added to the sorted list `v`.
pub open spec fn insert_all(v: Seq<Seq<char>>, items: Seq<Seq<char>>) -> Seq<Seq<char>>
    decreases items.len(),
{
    if items.len() == 0 {
        v
    } else {
        insert_sorted(insert_all(v, items.drop_last()), items.last())
    }
}

proof fn lemma_insert_sorted_split(v: Seq<Seq<char>>, s: Seq<char>, i: int)
    requires
        0 <= i < v.len(),
        v[i] != s,
        !text_lt(s, v[i]),
    ensures
        insert_sorted(v.skip(i), s) == seq![v[i]] + insert_sorted(v.skip(i + 1), s),
{
    assert(v.skip(i)[0] == v[i]);
    assert(v.skip(i).drop_first() =~= v.skip(i + 1));
}

/// Add `s` to the sorted list `v` (a set of texts kept in `str` order).
fn insert_text(v: &mut Vec<String>, s: String)
    ensures
        text_views(final(v)@) == insert_sorted(text_views(old(v)@), s@),
{
    let ghost v0 = text_views(v@);
    let n = v.len();
    let mut i: usize = 0;
    proof {
        assert(v0.skip(0) =~= v0);
        assert(v0.take(0) + v0.skip(0) =~= v0);
    }
    while i < n && !str_eq(v[i].as_str(), s.as_str()) && !str_lt(s.as_str(), v[i].as_str())
        invariant
            n == v@.len(),
            v0 == text_views(v@),
            i <= n,
            insert_sorted(v0, s@) == v0.take(i as int) + insert_sorted(v0.skip(i as int), s@),
        decreases n - i,
    {
        proof {
            lemma_insert_sorted_split(v0, s@, i as int);
            assert(v0.take(i as int) + (seq![v0[i as int]] + insert_sorted(v0.skip(i + 1), s@))
                =~= v0.take(i + 1) + insert_sorted(v0.skip(i + 1), s@));
        }
        i = i + 1;
    }
    if i < n && str_eq(v[i].as_str(), s.as_str()) {
        proof {
            assert(v0.skip(i as int)[0] == v0[i as int]);
            assert(v0.take(i as int) + v0.skip(i as int) =~= v0);
        }
        return;
    }
    proof {
        if i < n {
            assert(v0.skip(i as int)[0] == v0[i as int]);
        } else {
            assert(v0.skip(i as int).len() == 0);
        }
    }
    let ghost sv = s@;
    v.insert(i, s);
    proof {
        assert(text_views(v@) =~= v0.take(i as int) + (seq![sv] + v0.skip(i as int)));
    }
}

/// `owner` with the block it names cut off: the part before the first
/// `` `minecraft:`` mention, or all of it where there is none.
pub open spec fn owner_only(owner: Seq<char>) -> Seq<char> {
    let pat = " `minecraft:"@;
    if exists|j: int| occurs_at(owner, pat, j) {
        let j = choose|j: int| occurs_at(owner, pat, j) && forall|k: int| 0 <= k < j ==> !occurs_at(owner, pat, k);
        owner.take(j)
    } else {
        owner
    }
}

/// `instance `u2` `minecraft:stone`` becomes `instance `u2``: the owner is
/// what the user can move.
fn strip_block(owner: &str) -> (r: String)
    ensures
        r@ == owner_only(owner@),
{
    let pat = " `minecraft:";
    match find_text(owner, pat) {
        Some(i) => {
            proof {
                let j = choose|j: int| occurs_at(owner@, pat@, j) && forall|k: int| 0 <= k < j ==> !occurs_at(owner@, pat@, k);
                assert(occurs_at(owner@, pat@, i as int));
                assert(j == i) by {
                    if j < i {
                        assert(!occurs_at(owner@, pat@, j));
                    }
                    if i < j {
                        assert(!occurs_at(owner@, pat@, i as int));
                    }
                }
            }
            let head = owner.substring_char(0, i);
            let mut r = String::new();
            r.append(head);
            proof {
                assert(r@ =~= owner@.take(i as int));
            }
            r
        },
        None => {
            let mut r = String::new();
            r.append(owner);
            proof {
                assert(r@ =~= owner@);
            }
            r
        },
    }
}

/// The `i`-th column of the 5x5 square around `anchor` scanned for
/// blockers: `dx` outer, `dz` inner, both from -2 to 2.
pub open spec fn scan_x(anchor: P3, i: int) -> int {
    anchor.0 + i / 5 - 2
}

pub open spec fn scan_z(anchor: P3, i: int) -> int {
    anchor.2 + i % 5 - 2
}

/// The owners blocking the first `k` scanned columns around `anchor`.
pub open spec fn scan_owners(occ: OccupancyIndex, a: P3, b: P3, width: u8, anchor: P3, k: int) -> Seq<Seq<char>>
    decreases k,
{
    if k <= 0 {
        Seq::empty()
    } else {
        let prev = scan_owners(occ, a, b, width, anchor, k - 1);
        match blocker_at(occ, a, b, width, scan_x(anchor, k - 1), scan_z(anchor, k - 1)) {
            Some(h) => prev.push(owner_only(h.1)),
            None => prev,
        }
    }
}

/// The first blocked column among the `n` columns after `(x0, z0)` in steps
/// of `(dx, dz)`.
pub open spec fn first_hit_on(occ: OccupancyIndex, a: P3, b: P3, width: u8, x0: int, z0: int, dx: int, dz: int, n: nat) -> Option<(P3, Seq<char>)>
    decreases n,
{
    if n == 0 {
        None
    } else {
        match blocker_at(occ, a, b, width, x0 + dx, z0 + dz) {
            Some(h) => Some(h),
            None => first_hit_on(occ, a, b, width, x0 + dx, z0 + dz, dx, dz, (n - 1) as nat),
        }
    }
}

pub open spec fn signum(v: int) -> int {
    if v > 0 { 1 } else if v < 0 { -1 } else { 0 }
}

pub open spec fn abs_int(v: int) -> int {
    if v < 0 { -v } else { v }
}

/// The first blocked column on the L-shaped direct line: along x at `a`'s
/// z from `a` to `b`'s x, then along z at `b`'s x to `b`.
pub open spec fn line_hit(occ: OccupancyIndex, a: P3, b: P3, width: u8) -> Option<(P3, Seq<char>)> {
    match first_hit_on(occ, a, b, width, a.0 as int, a.2 as int, signum(b.0 - a.0), 0, abs_int(b.0 - a.0) as nat) {
        Some(h) => Some(h),
        None => first_hit_on(occ, a, b, width, b.0 as int, a.2 as int, 0, signum(b.2 - a.2), abs_int(b.2 - a.2) as nat),
    }
}

/// Walk the L-shaped direct line and report the first blocked column.
fn first_blocker_on_line(occ: &OccupancyIndex, a: P3, b: P3, width: u8) -> (r: Option<(P3, String)>)
    requires
        diagnosable(a, b, width),
    ensures
        match r {
            Some((p, s)) => line_hit(*occ, a, b, width) == Some((p, s@)),
            None => line_hit(*occ, a, b, width) is None,
        },
{
    let sx: i32 = if b.0 > a.0 { 1 } else if b.0 < a.0 { -1 } else { 0 };
    let sz: i32 = if b.2 > a.2 { 1 } else if b.2 < a.2 { -1 } else { 0 };
    let ghost nx: nat = abs_int(b.0 - a.0) as nat;
    let mut x: i32 = a.0;
    while x != b.0
        invariant
            diagnosable(a, b, width),
            sx == signum(b.0 - a.0),
            nx == abs_int(b.0 - a.0) as nat,
            sx != 0 ==> (if sx > 0 { a.0 <= x <= b.0 } else { b.0 <= x <= a.0 }),
            sx == 0 ==> x == b.0,
            first_hit_on(*occ, a, b, width, a.0 as int, a.2 as int, sx as int, 0, nx) == first_hit_on(
                *occ,
                a,
                b,
                width,
                x as int,
                a.2 as int,
                sx as int,
                0,
                abs_int(b.0 - x) as nat,
            ),
        decreases abs_int(b.0 - x),
    {
        let ghost xp = x as int;
        x = x + sx;
        proof {
            assert(abs_int(b.0 - xp) == abs_int(b.0 - x) + 1);
        }
        match blocker(occ, a, b, width, x, a.2) {
            Some(hit) => {
                proof {
                    assert(first_hit_on(*occ, a, b, width, xp, a.2 as int, sx as int, 0, abs_int(b.0 - xp) as nat)
                        == Some((hit.0, hit.1@)));
                    assert(line_hit(*occ, a, b, width) == Some((hit.0, hit.1@)));
                }
                return Some(hit);
            },
            None => {
                proof {
                    assert(first_hit_on(*occ, a, b, width, xp, a.2 as int, sx as int, 0, abs_int(b.0 - xp) as nat)
                        == first_hit_on(*occ, a, b, width, x as int, a.2 as int, sx as int, 0, abs_int(b.0 - x) as nat));
                }
            },
        }
    }
    let ghost nz: nat = abs_int(b.2 - a.2) as nat;
    let mut z: i32 = a.2;
    while z != b.2
        invariant
            diagnosable(a, b, width),
            sz == signum(b.2 - a.2),
            sx == signum(b.0 - a.0),
            nx == abs_int(b.0 - a.0) as nat,
            nz == abs_int(b.2 - a.2) as nat,
            sz != 0 ==> (if sz > 0 { a.2 <= z <= b.2 } else { b.2 <= z <= a.2 }),
            sz == 0 ==> z == b.2,
            first_hit_on(*occ, a, b, width, a.0 as int, a.2 as int, sx as int, 0, nx) is None,
            first_hit_on(*occ, a, b, width, b.0 as int, a.2 as int, 0, sz as int, nz) == first_hit_on(
                *occ,
                a,
                b,
                width,
                b.0 as int,
                z as int,
                0,
                sz as int,
                abs_int(b.2 - z) as nat,
            ),
        decreases abs_int(b.2 - z),
    {
        let ghost zp = z as int;
        z = z + sz;
        proof {
            assert(abs_int(b.2 - zp) == abs_int(b.2 - z) + 1);
        }
        match blocker(occ, a, b, width, b.0, z) {
            Some(hit) => {
                proof {
                    assert(first_hit_on(*occ, a, b, width, b.0 as int, zp, 0, sz as int, abs_int(b.2 - zp) as nat)
                        == Some((hit.0, hit.1@)));
                    assert(line_hit(*occ, a, b, width) == Some((hit.0, hit.1@)));
                }
                return Some(hit);
            },
            None => {
                proof {
                    assert(first_hit_on(*occ, a, b, width, b.0 as int, zp, 0, sz as int, abs_int(b.2 - zp) as nat)
                        == first_hit_on(*occ, a, b, width, b.0 as int, z as int, 0, sz as int, abs_int(b.2 - z) as nat));
                }
            },
        }
    }
    None
}

/// The culprits hemming the endpoints in: the owners blocking the 5x5
/// squares around both endpoints, then the one on the direct line.
pub open spec fn culprit_owners(occ: OccupancyIndex, a: P3, b: P3, width: u8) -> Seq<Seq<char>> {
    scan_owners(occ, a, b, width, a, 25) + scan_owners(occ, a, b, width, b, 25) + match line_hit(
        occ,
        a,
        b,
        width,
    ) {
        Some(h) => seq![owner_only(h.1)],
        None => Seq::empty(),
    }
}

proof fn lemma_insert_all_push(v: Seq<Seq<char>>, items: Seq<Seq<char>>, s: Seq<char>)
    ensures
        insert_all(v, items.push(s)) == insert_sorted(insert_all(v, items), s),
{
    assert(items.push(s).drop_last() =~= items);
}

proof fn lemma_insert_all_concat(v: Seq<Seq<char>>, x: Seq<Seq<char>>, y: Seq<Seq<char>>)
    ensures
        insert_all(v, x + y) == insert_all(insert_all(v, x), y),
    decreases y.len(),
{
    if y.len() == 0 {
        assert(x + y =~= x);
    } else {
        assert((x + y).drop_last() =~= x + y.drop_last());
        lemma_insert_all_concat(v, x, y.drop_last());
    }
}

fn scan_around(occ: &OccupancyIndex, a: P3, b: P3, width: u8, anchor: P3, out: &mut Vec<String>)
    requires
        diagnosable(a, b, width),
        i32::MIN + 2 <= anchor.0 <= i32::MAX - 2,
        i32::MIN + 2 <= anchor.2 <= i32::MAX - 2,
    ensures
        text_views(final(out)@) == insert_all(text_views(old(out)@), scan_owners(*occ, a, b, width, anchor, 25)),
{
    let ghost o = text_views(out@);
    let mut i: i32 = 0;
    while i < 25
        invariant
            diagnosable(a, b, width),
            i32::MIN + 2 <= anchor.0 <= i32::MAX - 2,
            i32::MIN + 2 <= anchor.2 <= i32::MAX - 2,
            0 <= i <= 25,
            text_views(out@) == insert_all(o, scan_owners(*occ, a, b, width, anchor, i as int)),
        decreases 25 - i,
    {
        let x = anchor.0 - 2 + i / 5;
        let z = anchor.2 - 2 + i % 5;
        match blocker(occ, a, b, width, x, z) {
            Some((_, owner)) => {
                let stripped = strip_block(owner.as_str());
                insert_text(out, stripped);
                proof {
                    lemma_insert_all_push(o, scan_owners(*occ, a, b, width, anchor, i as int), owner_only(owner@));
                }
            },
            None => {},
        }
        i = i + 1;
    }
}

/// The distinct layers blocking the columns around both endpoints and along
/// the direct line, in `str` order.
fn blocking_layers(occ: &OccupancyIndex, a: P3, b: P3, width: u8) -> (r: Vec<String>)
    requires
        diagnosable(a, b, width),
    ensures
        text_views(r@) == insert_all(Seq::empty(), culprit_owners(*occ, a, b, width)),
{
    let mut seen: Vec<String> = Vec::new();
    proof {
        assert(text_views(seen@) =~= Seq::<Seq<char>>::empty());
    }
    scan_around(occ, a, b, width, a, &mut seen);
    scan_around(occ, a, b, width, b, &mut seen);
    let ghost sa = scan_owners(*occ, a, b, width, a, 25);
    let ghost sb = scan_owners(*occ, a, b, width, b, 25);
    proof {
        lemma_insert_all_concat(Seq::empty(), sa, sb);
    }
    match first_blocker_on_line(occ, a, b, width) {
        Some((_, owner)) => {
            let stripped = strip_block(owner.as_str());
            insert_text(&mut seen, stripped);
            proof {
                lemma_insert_all_push(Seq::empty(), sa + sb, owner_only(owner@));
                assert(culprit_owners(*occ, a, b, width) =~= (sa + sb).push(owner_only(owner@)));
            }
        },
        None => {
            proof {
                assert(culprit_owners(*occ, a, b, width) =~= sa + sb);
            }
        },
    }
    seen
}


/// Rust's `Debug` text of a position: `(x, y, z)`.
pub open spec fn p3_debug(p: P3) -> Seq<char> {
    "("@ + decimal(p.0 as int) + ", "@ + decimal(p.1 as int) + ", "@ + decimal(p.2 as int) + ")"@
}

/// Append the `Debug` text of a position.
pub fn push_p3(out: &mut String, p: P3)
    ensures
        final(out)@ == old(out)@ + p3_debug(p),
{
    let ghost o = out@;
    out.append("(");
    push_int(out, p.0 as i64);
    out.append(", ");
    push_int(out, p.1 as i64);
    out.append(", ");
    push_int(out, p.2 as i64);
    out.append(")");
    proof {
        assert(out@ =~= o + p3_debug(p));
    }
}

/// What blocks the four columns around `anchor`, in heading order
/// `+x, -x, +z, -z`.
pub open spec fn approach_hits(occ: OccupancyIndex, a: P3, b: P3, width: u8, anchor: P3) -> Seq<Option<(P3, Seq<char>)>> {
    seq![
        blocker_at(occ, a, b, width, anchor.0 + 1, anchor.2 as int),
        blocker_at(occ, a, b, width, anchor.0 - 1, anchor.2 as int),
        blocker_at(occ, a, b, width, anchor.0 as int, anchor.2 + 1),
        blocker_at(occ, a, b, width, anchor.0 as int, anchor.2 - 1),
    ]
}

/// Every approach column is blocked.
pub open spec fn walled_in(hits: Seq<Option<(P3, Seq<char>)>>) -> bool {
    forall|i: int| 0 <= i < hits.len() ==> (#[trigger] hits[i]) is Some
}

/// One blocked approach column, as reported.
pub open spec fn blocked_entry(h: Option<(P3, Seq<char>)>) -> Seq<char> {
    match h {
        Some(x) => p3_debug(x.0) + " blocked by "@ + x.1,
        None => Seq::empty(),
    }
}

/// The reason given when an endpoint cannot be left at all.
pub open spec fn walled_text(which: Seq<char>, anchor: P3, a: P3, width: u8, hits: Seq<Option<(P3, Seq<char>)>>) -> Seq<char> {
    walled_head(which, anchor, a, width) + join("; "@, hits.map_values(|h: Option<(P3, Seq<char>)>| blocked_entry(h)))
        + ". Move the endpoint, shrink the neighbouring cell's keepout, or leave a clear lane beside the port"@
}

fn push_entry(out: &mut String, h: &(P3, String))
    ensures
        final(out)@ == old(out)@ + blocked_entry(Some((h.0, h.1@))),
{
    let ghost o = out@;
    push_p3(out, h.0);
    out.append(" blocked by ");
    out.append(h.1.as_str());
    proof {
        assert(out@ =~= o + blocked_entry(Some((h.0, h.1@))));
    }
}

proof fn lemma_join4(sep: Seq<char>, parts: Seq<Seq<char>>)
    requires
        parts.len() == 4,
    ensures
        join(sep, parts) == parts[0] + sep + parts[1] + sep + parts[2] + sep + parts[3],
{
    let p3 = parts.drop_last();
    let p2 = p3.drop_last();
    let p1 = p2.drop_last();
    assert(p1 =~= seq![parts[0]]);
    assert(join(sep, p1) == parts[0]);
    assert(join(sep, p2) == parts[0] + sep + parts[1]);
    assert(join(sep, p3) == parts[0] + sep + parts[1] + sep + parts[2]);
}

/// The head of the walled-in reason, up to the list of blocked columns.
pub open spec fn walled_head(which: Seq<char>, anchor: P3, a: P3, width: u8) -> Seq<char> {
    "endpoint approach blocked: the "@ + which + " anchor "@ + p3_debug(anchor)
        + " is walled in — every neighbouring column of the "@ + decimal(width as int)
        + "-bit stack (y "@ + decimal(a.1 - 1) + "..="@ + decimal(stack_hi(a.1 as int, width as int))
        + ") is occupied: "@
}

fn push_walled_head(out: &mut String, which: &str, anchor: P3, a: P3, width: u8)
    requires
        i32::MIN + 2 <= a.1,
        stack_hi(a.1 as int, width as int) <= i32::MAX,
    ensures
        final(out)@ == old(out)@ + walled_head(which@, anchor, a, width),
{
    let ghost o = out@;
    out.append("endpoint approach blocked: the ");
    out.append(which);
    out.append(" anchor ");
    push_p3(out, anchor);
    out.append(" is walled in — every neighbouring column of the ");
    push_int(out, width as i64);
    out.append("-bit stack (y ");
    push_int(out, a.1 as i64 - 1);
    out.append("..=");
    push_int(out, a.1 as i64 + 2 * (width as i64 - 1));
    out.append(") is occupied: ");
    proof {
        assert(out@ =~= o + walled_head(which@, anchor, a, width));
    }
}

fn push_four(out: &mut String, e1: &(P3, String), e2: &(P3, String), e3: &(P3, String), e4: &(P3, String))
    ensures
        final(out)@ == old(out)@ + (blocked_entry(Some((e1.0, e1.1@))) + "; "@ + blocked_entry(Some((e2.0, e2.1@))) + "; "@
            + blocked_entry(Some((e3.0, e3.1@))) + "; "@ + blocked_entry(Some((e4.0, e4.1@)))),
{
    let ghost o = out@;
    push_entry(out, e1);
    out.append("; ");
    push_entry(out, e2);
    out.append("; ");
    push_entry(out, e3);
    out.append("; ");
    push_entry(out, e4);
    proof {
        assert(out@ =~= o + (blocked_entry(Some((e1.0, e1.1@))) + "; "@ + blocked_entry(Some((e2.0, e2.1@))) + "; "@
            + blocked_entry(Some((e3.0, e3.1@))) + "; "@ + blocked_entry(Some((e4.0, e4.1@)))));
    }
}

/// The reason when every column around `anchor` is blocked, else nothing.
#[verifier::spinoff_prover]
fn walled_reason(occ: &OccupancyIndex, a: P3, b: P3, width: u8, which: &str, anchor: P3) -> (r: Option<String>)
    requires
        diagnosable(a, b, width),
        i32::MIN + 2 <= anchor.0 <= i32::MAX - 2,
        i32::MIN + 2 <= anchor.2 <= i32::MAX - 2,
    ensures
        match r {
            Some(t) => walled_in(approach_hits(*occ, a, b, width, anchor)) && t@ == walled_text(
                which@,
                anchor,
                a,
                width,
                approach_hits(*occ, a, b, width, anchor),
            ),
            None => !walled_in(approach_hits(*occ, a, b, width, anchor)),
        },
{
    let h1 = blocker(occ, a, b, width, anchor.0 + 1, anchor.2);
    let h2 = blocker(occ, a, b, width, anchor.0 - 1, anchor.2);
    let h3 = blocker(occ, a, b, width, anchor.0, anchor.2 + 1);
    let h4 = blocker(occ, a, b, width, anchor.0, anchor.2 - 1);
    let ghost hits = approach_hits(*occ, a, b, width, anchor);
    match (h1, h2, h3, h4) {
        (Some(e1), Some(e2), Some(e3), Some(e4)) => {
            let mut t = String::new();
            push_walled_head(&mut t, which, anchor, a, width);
            push_four(&mut t, &e1, &e2, &e3, &e4);
            t.append(". Move the endpoint, shrink the neighbouring cell's keepout, or leave a clear lane beside the port");
            proof {
                let parts = hits.map_values(|h: Option<(P3, Seq<char>)>| blocked_entry(h));
                assert(hits[0] == Some((e1.0, e1.1@)));
                assert(hits[1] == Some((e2.0, e2.1@)));
                assert(hits[2] == Some((e3.0, e3.1@)));
                assert(hits[3] == Some((e4.0, e4.1@)));
                assert(walled_in(hits));
                lemma_join4("; "@, parts);
                assert(t@ =~= walled_text(which@, anchor, a, width, hits));
            }
            Some(t)
        },
        _ => {
            proof {
                assert(!walled_in(hits)) by {
                    if h1 is None {
                        assert(hits[0] is None);
                    } else if h2 is None {
                        assert(hits[1] is None);
                    } else if h3 is None {
                        assert(hits[2] is None);
                    } else {
                        assert(hits[3] is None);
                    }
                }
            }
            None
        },
    }
}

/// What the direct line says in the reason.
pub open spec fn line_text(h: Option<(P3, Seq<char>)>) -> Seq<char> {
    match h {
        Some(x) => "the direct line is blocked at "@ + p3_debug(x.0) + " by "@ + x.1,
        None => "the direct line is clear but the template shapes were rejected"@,
    }
}

/// The culprit list in the reason.
pub open spec fn culprits_text(v: Seq<Seq<char>>) -> Seq<char> {
    if v.len() == 0 {
        "none found (the bound may be too tight)"@
    } else {
        join(", "@, v)
    }
}

/// The template attempts in the reason.
pub open spec fn tried_text(v: Seq<Seq<char>>) -> Seq<char> {
    if v.len() == 0 {
        "none"@
    } else {
        join(" | "@, v)
    }
}

/// The reason given when no corridor exists although both endpoints can be
/// left: the direct line's first blocker, the layers hemming the endpoints
/// in, and what the template shapes reported.
pub open spec fn corridor_text(occ: OccupancyIndex, a: P3, b: P3, width: u8, tried: Seq<Seq<char>>) -> Seq<char> {
    "no corridor from "@ + p3_debug(a) + " to "@ + p3_debug(b) + " for a "@ + decimal(width as int)
        + "-bit bus on level y="@ + decimal(a.1 as int) + ": "@ + line_text(line_hit(occ, a, b, width))
        + ". A bounded detour search (margin "@ + decimal(96) + " cells, "@ + decimal(400000)
        + " nodes) found no clear rectilinear corridor either — the layers hemming the endpoints in are: "@
        + culprits_text(insert_all(Seq::empty(), culprit_owners(occ, a, b, width)))
        + ". Move one of them, give the bus a gate to route through in two legs, or free a lane at least 1 cell clear of other redstone (dust one cell apart shorts, so the corridor needs 2 cells of pitch). Template attempts: "@
        + tried_text(tried)
}

/// The user-facing reason a corridor could not be found: a walled-in
/// driver, else a walled-in sink, else the corridor reason.
pub open spec fn diagnosis(occ: OccupancyIndex, a: P3, b: P3, width: u8, tried: Seq<Seq<char>>) -> Seq<char> {
    let ha = approach_hits(occ, a, b, width, a);
    let hb = approach_hits(occ, a, b, width, b);
    if walled_in(ha) {
        walled_text("driver"@, a, a, width, ha)
    } else if walled_in(hb) {
        walled_text("sink"@, b, a, width, hb)
    } else {
        corridor_text(occ, a, b, width, tried)
    }
}

fn push_corridor_head(out: &mut String, a: P3, b: P3, width: u8, line: &Option<(P3, String)>)
    ensures
        final(out)@ == old(out)@ + ("no corridor from "@ + p3_debug(a) + " to "@ + p3_debug(b) + " for a "@
            + decimal(width as int) + "-bit bus on level y="@ + decimal(a.1 as int) + ": "@ + line_text(
            match line {
                Some(h) => Some((h.0, h.1@)),
                None => None,
            },
        )),
{
    let ghost o = out@;
    out.append("no corridor from ");
    push_p3(out, a);
    out.append(" to ");
    push_p3(out, b);
    out.append(" for a ");
    push_int(out, width as i64);
    out.append("-bit bus on level y=");
    push_int(out, a.1 as i64);
    out.append(": ");
    let ghost mid = out@;
    match line {
        Some(h) => {
            out.append("the direct line is blocked at ");
            push_p3(out, h.0);
            out.append(" by ");
            out.append(h.1.as_str());
        },
        None => {
            out.append("the direct line is clear but the template shapes were rejected");
        },
    }
    proof {
        let lv = match line {
            Some(h) => Some((h.0, h.1@)),
            None => None,
        };
        assert(out@ =~= mid + line_text(lv));
        assert(out@ =~= o + ("no corridor from "@ + p3_debug(a) + " to "@ + p3_debug(b) + " for a "@ + decimal(
            width as int,
        ) + "-bit bus on level y="@ + decimal(a.1 as int) + ": "@ + line_text(lv)));
    }
}

fn push_corridor_tail(out: &mut String, culprits: &Vec<String>, tried: &[String])
    ensures
        final(out)@ == old(out)@ + (". A bounded detour search (margin "@ + decimal(96) + " cells, "@ + decimal(400000)
            + " nodes) found no clear rectilinear corridor either — the layers hemming the endpoints in are: "@
            + culprits_text(text_views(culprits@))
            + ". Move one of them, give the bus a gate to route through in two legs, or free a lane at least 1 cell clear of other redstone (dust one cell apart shorts, so the corridor needs 2 cells of pitch). Template attempts: "@
            + tried_text(text_views(tried@))),
{
    let ghost o = out@;
    let effort = ladder()[1];
    out.append(". A bounded detour search (margin ");
    push_int(out, effort.margin as i64);
    out.append(" cells, ");
    push_int(out, effort.max_iter as i64);
    out.append(" nodes) found no clear rectilinear corridor either — the layers hemming the endpoints in are: ");
    let ghost m1 = out@;
    if culprits.len() == 0 {
        out.append("none found (the bound may be too tight)");
    } else {
        push_join(out, ", ", culprits.as_slice());
    }
    proof {
        assert(out@ =~= m1 + culprits_text(text_views(culprits@)));
    }
    out.append(". Move one of them, give the bus a gate to route through in two legs, or free a lane at least 1 cell clear of other redstone (dust one cell apart shorts, so the corridor needs 2 cells of pitch). Template attempts: ");
    let ghost m2 = out@;
    if tried.len() == 0 {
        out.append("none");
    } else {
        push_join(out, " | ", tried);
    }
    proof {
        assert(out@ =~= m2 + tried_text(text_views(tried@)));
        assert(out@ =~= o + (". A bounded detour search (margin "@ + decimal(96) + " cells, "@ + decimal(400000)
            + " nodes) found no clear rectilinear corridor either — the layers hemming the endpoints in are: "@
            + culprits_text(text_views(culprits@))
            + ". Move one of them, give the bus a gate to route through in two legs, or free a lane at least 1 cell clear of other redstone (dust one cell apart shorts, so the corridor needs 2 cells of pitch). Template attempts: "@
            + tried_text(text_views(tried@))));
    }
}

/// The user-facing reason a corridor from `a` to `b` for a `width`-bit bus
/// could not be found. Names the cause and the location: an endpoint that
/// cannot be left at all, or else the first blocker on the direct line, the
/// layers hemming the endpoints in, and what the template shapes reported
/// (`tried`), so a reason never degrades to a bare "no path".
pub fn diagnose(occ: &OccupancyIndex, a: P3, b: P3, width: u8, tried: &[String]) -> (r: String)
    requires
        diagnosable(a, b, width),
    ensures
        r@ == diagnosis(*occ, a, b, width, text_views(tried@)),
{
    match walled_reason(occ, a, b, width, "driver", a) {
        Some(t) => {
            return t;
        },
        None => {},
    }
    match walled_reason(occ, a, b, width, "sink", b) {
        Some(t) => {
            return t;
        },
        None => {},
    }
    let line = first_blocker_on_line(occ, a, b, width);
    let culprits = blocking_layers(occ, a, b, width);
    let mut out = String::new();
    push_corridor_head(&mut out, a, b, width, &line);
    push_corridor_tail(&mut out, &culprits, tried);
    proof {
        let lv = match line {
            Some(h) => Some((h.0, h.1@)),
            None => None,
        };
        assert(lv == line_hit(*occ, a, b, width));
        assert(out@ =~= corridor_text(*occ, a, b, width, text_views(tried@)));
    }
    out
}

/// Strictly increasing in `str` order, so no text occurs twice.
pub open spec fn sorted_texts(v: Seq<Seq<char>>) -> bool {
    forall|i: int, j: int| 0 <= i < j < v.len() ==> text_lt(#[trigger] v[i], #[trigger] v[j])
}

proof fn lemma_insert_sorted(v: Seq<Seq<char>>, s: Seq<char>)
    requires
        sorted_texts(v),
    ensures
        sorted_texts(insert_sorted(v, s)),
        insert_sorted(v, s).to_set() == v.to_set().insert(s),
    decreases v.len(),
{
    let r = insert_sorted(v, s);
    if v.len() == 0 {
        assert(r.to_set() =~= v.to_set().insert(s)) by {
            assert(r == seq![s]);
            assert(r[0] == s);
        }
    } else if v[0] == s {
        assert(v.to_set() =~= v.to_set().insert(s)) by {
            assert(v.contains(s));
        }
    } else if text_lt(s, v[0]) {
        assert(r == seq![s] + v);
        assert forall|i: int, j: int| 0 <= i < j < r.len() implies text_lt(#[trigger] r[i], #[trigger] r[j]) by {
            if i == 0 {
                assert(r[j] == v[j - 1]);
                if j > 1 {
                    lemma_text_lt_transitive(s, v[0], v[j - 1]);
                }
            } else {
                assert(r[i] == v[i - 1] && r[j] == v[j - 1]);
            }
        }
        assert(r.to_set() =~= v.to_set().insert(s)) by {
            assert forall|x: Seq<char>| r.contains(x) implies v.to_set().insert(s).contains(x) by {
                let k = choose|k: int| 0 <= k < r.len() && r[k] == x;
                if k > 0 {
                    assert(v[k - 1] == x);
                }
            }
            assert forall|x: Seq<char>| v.to_set().insert(s).contains(x) implies r.contains(x) by {
                if x == s {
                    assert(r[0] == s);
                } else {
                    let k = choose|k: int| 0 <= k < v.len() && v[k] == x;
                    assert(r[k + 1] == x);
                }
            }
        }
    } else {
        let rest = v.drop_first();
        assert(sorted_texts(rest)) by {
            assert forall|i: int, j: int| 0 <= i < j < rest.len() implies text_lt(#[trigger] rest[i], #[trigger] rest[j]) by {
                assert(rest[i] == v[i + 1] && rest[j] == v[j + 1]);
            }
        }
        lemma_insert_sorted(rest, s);
        let r2 = insert_sorted(rest, s);
        lemma_text_lt_total(s, v[0]);
        assert(text_lt(v[0], s));
        assert(r == seq![v[0]] + r2);
        assert forall|x: Seq<char>| r2.contains(x) implies text_lt(v[0], x) by {
            assert(r2.to_set().contains(x));
            if x != s {
                assert(rest.to_set().contains(x));
                let k = choose|k: int| 0 <= k < rest.len() && rest[k] == x;
                assert(v[k + 1] == x);
            }
        }
        assert forall|i: int, j: int| 0 <= i < j < r.len() implies text_lt(#[trigger] r[i], #[trigger] r[j]) by {
            if i == 0 {
                assert(r[j] == r2[j - 1]);
                assert(r2.contains(r2[j - 1]));
            } else {
                assert(r[i] == r2[i - 1] && r[j] == r2[j - 1]);
            }
        }
        assert(r.to_set() =~= v.to_set().insert(s)) by {
            assert forall|x: Seq<char>| r.contains(x) implies v.to_set().insert(s).contains(x) by {
                let k = choose|k: int| 0 <= k < r.len() && r[k] == x;
                if k > 0 {
                    assert(r2[k - 1] == x);
                    assert(r2.to_set().contains(x));
                    if x != s {
                        assert(rest.to_set().contains(x));
                        let m = choose|m: int| 0 <= m < rest.len() && rest[m] == x;
                        assert(v[m + 1] == x);
                    }
                } else {
                    assert(v[0] == x);
                }
            }
            assert forall|x: Seq<char>| v.to_set().insert(s).contains(x) implies r.contains(x) by {
                if x == v[0] {
                    assert(r[0] == x);
                } else {
                    if x != s {
                        let k = choose|k: int| 0 <= k < v.len() && v[k] == x;
                        assert(rest[k - 1] == x);
                        assert(rest.to_set().contains(x));
                    }
                    assert(r2.to_set().contains(x));
                    let m = choose|m: int| 0 <= m < r2.len() && r2[m] == x;
                    assert(r[m + 1] == x);
                }
            }
        }
    }
}

proof fn lemma_insert_all(v: Seq<Seq<char>>, items: Seq<Seq<char>>)
    requires
        sorted_texts(v),
    ensures
        sorted_texts(insert_all(v, items)),
        insert_all(v, items).to_set() == v.to_set() + items.to_set(),
    decreases items.len(),
{
    if items.len() == 0 {
        assert(v.to_set() + items.to_set() =~= v.to_set());
    } else {
        let init = items.drop_last();
        lemma_insert_all(v, init);
        lemma_insert_sorted(insert_all(v, init), items.last());
        assert(items =~= init.push(items.last()));
        assert(v.to_set() + items.to_set() =~= (v.to_set() + init.to_set()).insert(items.last())) by {
            assert forall|x: Seq<char>| items.to_set().contains(x) implies (init.to_set().insert(items.last())).contains(x) by {
                let k = choose|k: int| 0 <= k < items.len() && items[k] == x;
                if k < items.len() - 1 {
                    assert(init[k] == x);
                }
            }
            assert forall|x: Seq<char>| init.to_set().contains(x) implies items.to_set().contains(x) by {
                let k = choose|k: int| 0 <= k < init.len() && init[k] == x;
                assert(items[k] == x);
            }
            assert(items[items.len() - 1] == items.last());
        }
    }
}

/// The layers a diagnosis names as hemming the endpoints in are listed in
/// `str` order with none twice, and they are exactly the owners found
/// around the endpoints and on the direct line.
pub proof fn law_culprits_sorted_and_complete(occ: OccupancyIndex, a: P3, b: P3, width: u8)
    ensures
        sorted_texts(insert_all(Seq::empty(), culprit_owners(occ, a, b, width))),
        insert_all(Seq::empty(), culprit_owners(occ, a, b, width)).to_set() == culprit_owners(
            occ,
            a,
            b,
            width,
        ).to_set(),
{
    let items = culprit_owners(occ, a, b, width);
    lemma_insert_all(Seq::empty(), items);
    assert(Seq::<Seq<char>>::empty().to_set() + items.to_set() =~= items.to_set());
}

} // verus!
