//! Design: the value types of the composition document over cells, loose
//! blocks and buses, and the pure geometry and width planning they carry.
//!
//! A design is a layer stack over one coordinate space: a loose block layer,
//! instance layers (typed cells placed through a transform) and bus layers
//! that own their routed voxel fragments. Buses realize a vertical 2y-pitch
//! stack: axis-aligned runs between anchors, level shifts built from the
//! step/land alternation, and an explicit bit mapping when the driver and
//! sink widths differ.
//!
//! The document type that owns these values, with its routing, moves and
//! rule checks, is not part of this library: it needs a schematic model, a
//! cell contract resolver and a routing engine that are not part of this
//! project either.

use vstd::prelude::*;
use std::collections::{BTreeMap, BTreeSet};
use crate::text::{debug_list, debug_quoted, decimal, join, push_debug, push_debug_list, push_int};

verus! {

/// Position triple.
pub type P3 = (i32, i32, i32);

/// `a + b`, coordinate-wise.
pub open spec fn p3_add(a: P3, b: P3) -> (int, int, int) {
    (a.0 + b.0, a.1 + b.1, a.2 + b.2)
}

/// `a * k`, coordinate-wise.
pub open spec fn p3_scale(a: P3, k: int) -> (int, int, int) {
    (a.0 * k, a.1 * k, a.2 * k)
}

/// The triple fits the position type.
pub open spec fn fits(p: (int, int, int)) -> bool {
    i32::MIN <= p.0 <= i32::MAX && i32::MIN <= p.1 <= i32::MAX && i32::MIN <= p.2 <= i32::MAX
}

/// The position at `a + k * step`.
pub open spec fn p3_at(a: P3, step: P3, k: int) -> (int, int, int) {
    (a.0 + step.0 * k, a.1 + step.1 * k, a.2 + step.2 * k)
}

/// A cell's true block extent, min and max corner inclusive.
#[derive(Clone, Copy, Debug)]
pub struct CellBounds {
    pub min: P3,
    pub max: P3,
}

/// The single straight run realizing an axis-aligned anchor pair, or `None`
/// when the pair needs a corner (differs on both horizontal axes, or on y).
pub fn axis_run(a: P3, b: P3, width: u8) -> (r: Option<RunInfo>)
    ensures
        r == if a.1 != b.1 {
            None
        } else if a.2 == b.2 && a.0 != b.0 {
            Some(RunInfo { along_x: true, fixed: a.2, y0: a.1, from: a.0, to: b.0, width })
        } else if a.0 == b.0 && a.2 != b.2 {
            Some(RunInfo { along_x: false, fixed: a.0, y0: a.1, from: a.2, to: b.2, width })
        } else {
            None
        },
{
    if a.1 != b.1 {
        return None;
    }
    if a.2 == b.2 && a.0 != b.0 {
        return Some(RunInfo { along_x: true, fixed: a.2, y0: a.1, from: a.0, to: b.0, width });
    }
    if a.0 == b.0 && a.2 != b.2 {
        return Some(RunInfo { along_x: false, fixed: a.0, y0: a.1, from: a.2, to: b.2, width });
    }
    None
}

/// How a port presents itself: the shipped executor hardware, or promoted
/// to a routable bus endpoint. The two are exclusive by physics.
#[derive(Clone, Copy, Debug, PartialEq, Eq, Structural)]
pub enum PortMode {
    /// The shipped hardware (levers and buttons in, lamps out).
    Executor,
    /// Promoted: the hardware is replaced by a driver stub ending in dust.
    Bus,
}

/// The name of a port mode.
pub open spec fn mode_name(m: PortMode) -> Seq<char> {
    match m {
        PortMode::Executor => "executor"@,
        PortMode::Bus => "bus"@,
    }
}

impl PortMode {
    /// `"executor"` / `"bus"`.
    pub fn as_str(self) -> (s: &'static str)
        ensures
            s@ == mode_name(self),
    {
        match self {
            PortMode::Executor => "executor",
            PortMode::Bus => "bus",
        }
    }

    /// Parse `"executor"` / `"bus"`.
    pub fn parse(s: &str) -> (r: Option<PortMode>)
        ensures
            r == if s@ == "executor"@ {
                Some(PortMode::Executor)
            } else if s@ == "bus"@ {
                Some(PortMode::Bus)
            } else {
                None
            },
    {
        if crate::text::str_eq(s, "executor") {
            Some(PortMode::Executor)
        } else if crate::text::str_eq(s, "bus") {
            Some(PortMode::Bus)
        } else {
            None
        }
    }
}

/// Parsing a mode's name gives the mode back.
pub proof fn law_port_mode_round_trip(m: PortMode)
    ensures
        (if mode_name(m) == "executor"@ {
            Some(PortMode::Executor)
        } else if mode_name(m) == "bus"@ {
            Some(PortMode::Bus)
        } else {
            None
        }) == Some(m),
{
    reveal_strlit("executor");
    reveal_strlit("bus");
    assert("executor"@[0] != "bus"@[0]);
}

/// Signal direction of a port.
#[derive(Clone, Copy, Debug, PartialEq, Eq, Structural)]
pub enum PortDirection {
    Input,
    Output,
}

/// The semantic word type of a port.
#[derive(Clone, Copy, Debug, PartialEq, Eq, Structural)]
pub enum IoType {
    /// A single bit.
    Boolean,
    /// An unsigned integer of `bits` bits.
    UnsignedInt { bits: u8 },
    /// A two's complement integer of `bits` bits.
    SignedInt { bits: u8 },
}

/// The two types differ only in width, so a width adaptation makes them
/// compatible: two unsigned words, two signed words, or a bit and an
/// unsigned word.
pub open spec fn same_family(a: IoType, b: IoType) -> bool {
    ||| (a is UnsignedInt && b is UnsignedInt)
    ||| (a is SignedInt && b is SignedInt)
    ||| (a is UnsignedInt && b is Boolean)
    ||| (a is Boolean && b is UnsignedInt)
}

/// Whether two types differ only in width.
pub fn same_type_family(a: &IoType, b: &IoType) -> (r: bool)
    ensures
        r == same_family(*a, *b),
{
    match (a, b) {
        (IoType::UnsignedInt { .. }, IoType::UnsignedInt { .. }) => true,
        (IoType::SignedInt { .. }, IoType::SignedInt { .. }) => true,
        (IoType::UnsignedInt { .. }, IoType::Boolean) => true,
        (IoType::Boolean, IoType::UnsignedInt { .. }) => true,
        _ => false,
    }
}

/// Scanned per-bit hardware capabilities of a port.
#[derive(Clone, Copy, Debug)]
pub struct BitHardware {
    /// The connection cell holds dust: a router may land here.
    pub connectable: bool,
    /// An adjacent lever: the executor can drive this bit.
    pub lever: Option<P3>,
    /// A lamp supports or neighbours the cell: the bit is human-readable.
    pub lamp: Option<P3>,
}

/// A design port: named typed geometry whose anchor is the bit-0
/// connection cell.
#[derive(Debug)]
pub struct DesignPort {
    pub name: String,
    /// Bit-0 connection cell.
    pub anchor: P3,
    /// Step from bit k to bit k+1.
    pub step: P3,
    /// Logical width in bits.
    pub width: u8,
    /// Semantic word type (bit order: position order, LSB first).
    pub ty: IoType,
    /// Signal direction as seen from the design.
    pub direction: PortDirection,
    /// Scanned hardware per bit, in bit order.
    pub bits: Vec<BitHardware>,
}

impl DesignPort {
    /// Every connection cell of the port fits the position type.
    pub open spec fn wires_fit(&self) -> bool {
        forall|k: int| 0 <= k < self.width ==> #[trigger] fits(p3_at(self.anchor, self.step, k))
    }

    /// Connection cell of bit `k`.
    pub fn wire(&self, k: u8) -> (p: P3)
        requires
            fits(p3_at(self.anchor, self.step, k as int)),
            fits(p3_scale(self.step, k as int)),
        ensures
            (p.0 as int, p.1 as int, p.2 as int) == p3_at(self.anchor, self.step, k as int),
    {
        let k = k as i32;
        (self.anchor.0 + self.step.0 * k, self.anchor.1 + self.step.1 * k, self.anchor.2 + self.step.2 * k)
    }

    /// All connection cells in bit order.
    pub fn wires(&self) -> (ws: Vec<P3>)
        requires
            self.wires_fit(),
            forall|k: int| 0 <= k < self.width ==> #[trigger] fits(p3_scale(self.step, k)),
        ensures
            ws@.len() == self.width,
            forall|k: int| 0 <= k < self.width ==> ((#[trigger] ws@[k]).0 as int, ws@[k].1 as int, ws@[k].2 as int)
                == p3_at(self.anchor, self.step, k),
    {
        let mut ws: Vec<P3> = Vec::new();
        let mut k: u8 = 0;
        while k < self.width
            invariant
                k <= self.width,
                ws@.len() == k,
                self.wires_fit(),
                forall|j: int| 0 <= j < self.width ==> #[trigger] fits(p3_scale(self.step, j)),
                forall|j: int| 0 <= j < k ==> ((#[trigger] ws@[j]).0 as int, ws@[j].1 as int, ws@[j].2 as int)
                    == p3_at(self.anchor, self.step, j),
            decreases self.width - k,
        {
            assert(fits(p3_at(self.anchor, self.step, k as int)));
            assert(fits(p3_scale(self.step, k as int)));
            let p = self.wire(k);
            ws.push(p);
            k = k + 1;
        }
        ws
    }
}

/// A routing endpoint contributed by a placed instance, named
/// `{instance}.{port}`.
#[derive(Clone, Debug)]
pub struct InstancePort {
    /// `{instance}.{port}`.
    pub name: String,
    pub instance: String,
    pub port: String,
    /// Direction as the cell sees it.
    pub cell_direction: PortDirection,
    pub ty: IoType,
    pub width: u8,
    /// Executor-facing hardware in bit order, transformed.
    pub hardware: Vec<P3>,
    /// Dust connection cells in bit order, when every bit has one.
    pub wires: Option<Vec<P3>>,
    /// Step between consecutive connection cells, when uniform.
    pub step: Option<P3>,
    /// Why a bus cannot terminate here; `None` when it can.
    pub blocked: Option<String>,
}

impl InstancePort {
    /// A bus may terminate on this port.
    pub fn routable(&self) -> (b: bool)
        ensures
            b == self.blocked.is_none(),
    {
        self.blocked.is_none()
    }
}

/// Per-bus material style.
#[derive(Clone, Debug)]
pub struct BusStyle {
    /// Solid conductor used for supports, separators and station blocks.
    pub bus_block: String,
    /// Non-conducting sturdy support for in-use diagonals.
    pub transparent_block: String,
}

impl Default for BusStyle {
    fn default() -> (s: BusStyle)
        ensures
            s.bus_block@ == "minecraft:gray_concrete"@,
            s.transparent_block@ == "minecraft:glass"@,
    {
        BusStyle {
            bus_block: String::from_str("minecraft:gray_concrete"),
            transparent_block: String::from_str("minecraft:glass"),
        }
    }
}

/// How a narrower word is placed inside a wider one.
#[derive(Clone, Copy, Debug, PartialEq, Eq, Structural)]
pub enum BusAlign {
    /// Bit 0 to bit 0.
    Lsb,
    /// Top bit to top bit.
    Msb,
    /// The source word `n` positions toward the MSB.
    Shift(i32),
}

impl Default for BusAlign {
    fn default() -> (a: BusAlign)
        ensures
            a == BusAlign::Lsb,
    {
        BusAlign::Lsb
    }
}

/// The width-adaptation policy for one bus.
#[derive(Clone, Copy, Debug, PartialEq, Eq, Structural)]
pub struct WidthAdapt {
    /// Where the source word sits in the destination.
    pub align: BusAlign,
    /// Permit dropping source bits that fall outside the destination.
    pub truncate: bool,
}

impl Default for WidthAdapt {
    fn default() -> (w: WidthAdapt)
        ensures
            w == (WidthAdapt { align: BusAlign::Lsb, truncate: false }),
    {
        WidthAdapt { align: BusAlign::Lsb, truncate: false }
    }
}

impl WidthAdapt {
    /// LSB-aligned, no truncation.
    pub fn lsb() -> (w: WidthAdapt)
        ensures
            w == (WidthAdapt { align: BusAlign::Lsb, truncate: false }),
    {
        WidthAdapt { align: BusAlign::Lsb, truncate: false }
    }

    /// MSB-aligned.
    pub fn msb() -> (w: WidthAdapt)
        ensures
            w == (WidthAdapt { align: BusAlign::Msb, truncate: false }),
    {
        WidthAdapt { align: BusAlign::Msb, truncate: false }
    }

    /// Shifted `n` toward the MSB.
    pub fn shift(n: i32) -> (w: WidthAdapt)
        ensures
            w == (WidthAdapt { align: BusAlign::Shift(n), truncate: false }),
    {
        WidthAdapt { align: BusAlign::Shift(n), truncate: false }
    }

    /// The same policy, allowed to drop source bits.
    pub fn truncating(self) -> (w: WidthAdapt)
        ensures
            w == (WidthAdapt { align: self.align, truncate: true }),
    {
        WidthAdapt { align: self.align, truncate: true }
    }
}

/// A bus-shaped waypoint splitting a bus into independently routed
/// segments.
#[derive(Debug)]
pub struct Gate {
    pub name: String,
    /// Bit-0 cell of the waypoint.
    pub anchor: P3,
    /// Step between bits.
    pub step: P3,
}

/// Lifecycle state of a bus layer.
#[derive(Clone, Debug)]
pub enum BusState {
    /// Declared, not yet realized.
    Intended,
    /// Realized; the fragment is committed.
    Routed,
    /// Realization failed; the reason is user-facing.
    Failed(String),
}

/// One straight realized run of a bus.
#[derive(Clone, Copy, Debug, PartialEq, Eq, Structural)]
pub struct RunInfo {
    /// `true`: the run varies along X (fixed z). `false`: along Z (fixed x).
    pub along_x: bool,
    /// The fixed cross-axis coordinate.
    pub fixed: i32,
    /// Bit-0 canonical dust level.
    pub y0: i32,
    /// Start coordinate along the axis (the driver-side anchor).
    pub from: i32,
    /// End coordinate along the axis (the sink-side anchor).
    pub to: i32,
    /// Bus width.
    pub width: u8,
}

impl RunInfo {
    /// The direction of travel along the axis: 1 or -1.
    pub fn sign(&self) -> (s: i32)
        ensures
            s == if self.to >= self.from { 1i32 } else { -1i32 },
    {
        if self.to >= self.from {
            1
        } else {
            -1
        }
    }

    /// Whether `c` lies strictly between the run's anchors with `margin`
    /// cells of slack on each side.
    pub fn strictly_inside(&self, c: i32, margin: i32) -> (b: bool)
        ensures
            b == ({
                let lo = if self.from <= self.to { self.from } else { self.to };
                let hi = if self.from <= self.to { self.to } else { self.from };
                c - lo >= margin && hi - c >= margin
            }),
    {
        let (lo, hi) = if self.from <= self.to { (self.from, self.to) } else { (self.to, self.from) };
        (c as i64) - (lo as i64) >= margin as i64 && (hi as i64) - (c as i64) >= margin as i64
    }
}

/// Which part of a bus a routed segment realizes.
#[derive(Clone, Debug)]
pub enum SegmentKind {
    /// Trunk waypoint pair `i`.
    Trunk(usize),
    /// A branch tying the named extra endpoint into the trunk.
    Branch(String),
    /// A form adapter for the named port.
    Adapter(String),
}

/// One independently routed piece of a bus.
#[derive(Debug)]
pub struct Segment {
    pub kind: SegmentKind,
    /// Bit-0 anchor the segment starts from.
    pub a: P3,
    /// Bit-0 anchor the segment ends at.
    pub b: P3,
    /// The straight runs realizing the segment.
    pub runs: Vec<RunInfo>,
    /// Cells owned by the segment.
    pub cells: BTreeSet<P3>,
}

/// A bus layer: endpoints with roles, gates, style, state, and the owned
/// voxel fragment.
#[derive(Debug)]
pub struct BusLayer {
    pub name: String,
    /// Primary driver port name.
    pub driver: String,
    /// Additional drivers, legal only with `merge_or`.
    pub extra_drivers: Vec<String>,
    /// Multiple drivers were declared as a wired-OR merge.
    pub merge_or: bool,
    /// Sink port names.
    pub sinks: Vec<String>,
    pub gates: Vec<Gate>,
    pub style: BusStyle,
    pub state: BusState,
    /// The owned voxel fragment (block per cell), empty unless routed.
    pub fragment: BTreeMap<P3, String>,
    /// The straight runs realized.
    pub runs: Vec<RunInfo>,
    /// Per-segment realization.
    pub segments: Vec<Segment>,
    /// The electrical joint columns of the gates, per gate name.
    pub gate_cells: BTreeMap<String, BTreeSet<P3>>,
    /// Ports this bus promoted for itself, one note each.
    pub promotions: Vec<String>,
    /// The resolved bit mapping when the driver and sink widths differ.
    pub width_map: Option<WidthMap>,
}

/// The texts of some strings.
pub open spec fn texts(v: Seq<String>) -> Seq<Seq<char>> {
    v.map_values(|s: String| s@)
}

impl BusLayer {
    /// Every driver name, primary first.
    pub fn driver_names(&self) -> (v: Vec<String>)
        ensures
            texts(v@) == seq![self.driver@] + texts(self.extra_drivers@),
    {
        let mut v: Vec<String> = Vec::new();
        v.push(self.driver.clone());
        let mut i: usize = 0;
        while i < self.extra_drivers.len()
            invariant
                i <= self.extra_drivers@.len(),
                texts(v@) == seq![self.driver@] + texts(self.extra_drivers@.take(i as int)),
            decreases self.extra_drivers@.len() - i,
        {
            let ghost v0 = v@;
            v.push(self.extra_drivers[i].clone());
            proof {
                assert(self.extra_drivers@.take(i + 1) =~= self.extra_drivers@.take(i as int).push(self.extra_drivers@[i as int]));
                assert(v@ =~= v0.push(self.extra_drivers@[i as int]));
                assert(texts(v@) =~= texts(v0).push(self.extra_drivers@[i as int]@));
                assert(texts(self.extra_drivers@.take(i + 1)) =~= texts(self.extra_drivers@.take(i as int)).push(self.extra_drivers@[i as int]@));
                assert(texts(v@) =~= seq![self.driver@] + texts(self.extra_drivers@.take(i + 1)));
            }
            i = i + 1;
        }
        proof {
            assert(self.extra_drivers@.take(self.extra_drivers@.len() as int) =~= self.extra_drivers@);
        }
        v
    }
}

/// What occupies a cell in the design-wide spatial index.
#[derive(Clone, Debug)]
pub enum Occupant {
    /// The loose block layer.
    Loose,
    /// An instance layer's transformed footprint.
    Instance(String),
    /// A routed bus's owned fragment.
    Bus(String),
}

/// The spatial occupancy index: hard cells plus instance influence halos.
#[derive(Clone, Debug)]
pub struct OccupancyIndex {
    /// Hard cells: block state and owner.
    pub cells: BTreeMap<P3, (String, Occupant)>,
    /// Influence halo cells, with the owning instance name.
    pub halos: BTreeMap<P3, String>,
}

impl Default for OccupancyIndex {
    fn default() -> (o: OccupancyIndex)
        ensures
            o.cells@ == Map::<P3, (String, Occupant)>::empty(),
            o.halos@ == Map::<P3, String>::empty(),
    {
        OccupancyIndex { cells: BTreeMap::new(), halos: BTreeMap::new() }
    }
}

/// One cell a port-mode switch rewrote, with both sides of the change.
#[derive(Debug)]
pub struct PortModeChange {
    /// World position.
    pub at: P3,
    pub from: Option<String>,
    pub to: Option<String>,
}

/// Outcome of a port-mode switch.
#[derive(Debug)]
pub struct PortModeReport {
    /// `{instance}.{port}`.
    pub port: String,
    /// The mode now in effect.
    pub mode: PortMode,
    /// Every cell the switch rewrote, in position order.
    pub changed: Vec<PortModeChange>,
    /// Buses deleted because they terminated on this port.
    pub removed_buses: Vec<String>,
    /// Reroute outcome for buses that merely crossed the changed space.
    pub moves: MoveReport,
    /// The reversible patch, as JSON.
    pub patch_json: String,
    /// One human sentence.
    pub note: String,
}

/// Outcome of a drag: the move always succeeds; buses fail visibly.
#[derive(Clone, Debug)]
pub struct MoveReport {
    /// Buses ripped and successfully co-rerouted, in name order.
    pub rerouted: Vec<String>,
    /// Buses left failed, with the reason.
    pub failed: Vec<(String, String)>,
    /// Every bus layer whose realized geometry was rewritten, in name order.
    pub changed: Vec<String>,
}

impl Default for MoveReport {
    fn default() -> (r: MoveReport)
        ensures
            r.rerouted@.len() == 0,
            r.failed@.len() == 0,
            r.changed@.len() == 0,
    {
        MoveReport { rerouted: Vec::new(), failed: Vec::new(), changed: Vec::new() }
    }
}

/// Outcome of removing an instance.
#[derive(Clone, Debug)]
pub struct RemoveReport {
    /// Buses deleted because they terminated on the removed instance.
    pub removed_buses: Vec<String>,
    /// Reroute outcome for the buses that merely crossed its space.
    pub moves: MoveReport,
}

/// Outcome of moving a gate.
#[derive(Clone, Debug)]
pub struct GateMoveReport {
    /// The bus state after the move.
    pub state: BusState,
    /// Segments ripped and rerouted.
    pub rerouted_segments: usize,
    /// Every bus layer whose geometry was rewritten.
    pub changed: Vec<String>,
}

/// Outcome of a design check.
#[derive(Clone, Debug)]
pub struct DesignCheck {
    /// No DRC violations, no LVS opens, shorts or cycles.
    pub clean: bool,
    /// Full JSON report.
    pub json: String,
}

/// What a bus did about a width mismatch: the resolved bit mapping.
#[derive(Clone, Debug)]
pub struct WidthMap {
    /// Driver word width.
    pub driver_width: u8,
    /// Sink word width.
    pub sink_width: u8,
    /// Driver bit `i` drives sink bit `i + shift`.
    pub shift: i32,
    /// First driver bit that is actually connected.
    pub from_bit: u8,
    /// How many bits are connected.
    pub bits: u8,
    /// Sink bits nothing drives (undriven dust reads 0).
    pub tied_zero: Vec<u8>,
    /// Driver bits dropped (only ever non-empty with truncation).
    pub dropped: Vec<u8>,
}

impl WidthMap {
    /// Whether this is the trivial identity.
    pub fn is_identity(&self) -> (b: bool)
        ensures
            b == (self.driver_width == self.sink_width && self.shift == 0 && self.dropped@.len() == 0),
    {
        self.driver_width == self.sink_width && self.shift == 0 && self.dropped.len() == 0
    }
}


/// The maximal runs of consecutive values in `bits`, in order, each as its
/// first and last value.
pub open spec fn run_list(bits: Seq<u8>) -> Seq<(int, int)>
    decreases bits.len(),
{
    if bits.len() == 0 {
        Seq::empty()
    } else {
        let r = run_list(bits.drop_last());
        let x = bits.last() as int;
        if r.len() > 0 && x == r.last().1 + 1 {
            r.update(r.len() - 1, (r.last().0, x))
        } else {
            r.push((x, x))
        }
    }
}

/// `a` for a single value, `a..b` for a run.
pub open spec fn run_text(p: (int, int)) -> Seq<char> {
    if p.0 == p.1 {
        decimal(p.0)
    } else {
        decimal(p.0) + ".."@ + decimal(p.1)
    }
}

/// A bit list as a human reads it: `[0,1,2,5]` is `0..2, 5`.
pub open spec fn ranges_text(bits: Seq<u8>) -> Seq<char> {
    join(", "@, run_list(bits).map_values(|p: (int, int)| run_text(p)))
}

/// `[0,1,2,5]` as `"0..2, 5"`.
pub fn ranges(bits: &Vec<u8>) -> (r: String)
    ensures
        r@ == ranges_text(bits@),
{
    let mut runs: Vec<(u8, u8)> = Vec::new();
    let mut i: usize = 0;
    while i < bits.len()
        invariant
            i <= bits@.len(),
            runs@.map_values(|p: (u8, u8)| (p.0 as int, p.1 as int)) == run_list(bits@.take(i as int)),
        decreases bits@.len() - i,
    {
        let x = bits[i];
        let ghost r = run_list(bits@.take(i as int));
        proof {
            assert(bits@.take(i + 1).drop_last() =~= bits@.take(i as int));
        }
        let n = runs.len();
        if n > 0 && (x as u16) == (runs[n - 1].1 as u16) + 1 {
            let start = runs[n - 1].0;
            runs.set(n - 1, (start, x));
            proof {
                assert(runs@.map_values(|p: (u8, u8)| (p.0 as int, p.1 as int)) =~= r.update(r.len() - 1, (r.last().0, x as int)));
            }
        } else {
            runs.push((x, x));
            proof {
                assert(runs@.map_values(|p: (u8, u8)| (p.0 as int, p.1 as int)) =~= r.push((x as int, x as int)));
            }
        }
        i = i + 1;
    }
    proof {
        assert(bits@.take(bits@.len() as int) =~= bits@);
    }
    let ghost rl = run_list(bits@);
    let mut out = String::new();
    let mut j: usize = 0;
    while j < runs.len()
        invariant
            j <= runs@.len(),
            runs@.map_values(|p: (u8, u8)| (p.0 as int, p.1 as int)) == rl,
            out@ == join(", "@, rl.take(j as int).map_values(|p: (int, int)| run_text(p))),
        decreases runs@.len() - j,
    {
        let (a, b) = runs[j];
        let ghost before = out@;
        if j > 0 {
            out.append(", ");
        }
        push_int(&mut out, a as i64);
        if a != b {
            out.append("..");
            push_int(&mut out, b as i64);
        }
        proof {
            reveal_strlit(", ");
            reveal_strlit("..");
            assert(rl[j as int] == (a as int, b as int));
            let parts = rl.take(j + 1).map_values(|p: (int, int)| run_text(p));
            assert(parts.drop_last() =~= rl.take(j as int).map_values(|p: (int, int)| run_text(p)));
            assert(parts.last() == run_text((a as int, b as int)));
            if j == 0 {
                assert(parts.len() == 1);
                assert(out@ =~= join(", "@, parts));
            } else {
                assert(out@ =~= join(", "@, parts));
            }
        }
        j = j + 1;
    }
    proof {
        assert(rl.take(rl.len() as int) =~= rl);
    }
    out
}

/// How the note names the placement of the driver word: lsb-aligned when
/// unshifted, msb-aligned when the shift puts the top bits together,
/// otherwise by the shift.
pub open spec fn shift_text(shift: int, driver_width: int, sink_width: int) -> Seq<char> {
    if shift == 0 {
        "lsb-aligned"@
    } else if shift == sink_width - driver_width {
        "msb-aligned"@
    } else if shift > 0 {
        "shifted "@ + decimal(shift) + " toward the msb"@
    } else {
        "shifted "@ + decimal(-shift) + " toward the lsb"@
    }
}

/// The sentence describing a width map between `driver` and `sink`.
pub open spec fn width_note(m: WidthMap, driver: Seq<char>, sink: Seq<char>) -> Seq<char> {
    driver + "["@ + decimal(m.driver_width as int) + "] -> "@ + sink + "["@ + decimal(m.sink_width as int) + "], "@
        + shift_text(m.shift as int, m.driver_width as int, m.sink_width as int) + (if m.tied_zero@.len() > 0 {
        "; sink bit(s) "@ + ranges_text(m.tied_zero@) + " left undriven, which reads 0"@
    } else {
        Seq::empty()
    }) + (if m.dropped@.len() > 0 {
        "; driver bit(s) "@ + ranges_text(m.dropped@) + " TRUNCATED away"@
    } else {
        Seq::empty()
    })
}

/// Some numbers as decimals, joined with commas.
pub open spec fn number_list(v: Seq<u8>) -> Seq<char> {
    join(","@, v.map_values(|b: u8| decimal(b as int)))
}

/// The `k`-th bit pair of a width map: `[driver bit, sink bit]`.
pub open spec fn pair_text(m: WidthMap, k: int) -> Seq<char> {
    "["@ + decimal(m.from_bit + k) + ","@ + decimal(m.from_bit + k + m.shift) + "]"@
}

/// The JSON form of a width map.
pub open spec fn width_map_json(m: WidthMap) -> Seq<char> {
    "{\"driver_width\":"@ + decimal(m.driver_width as int) + ",\"sink_width\":"@ + decimal(m.sink_width as int)
        + ",\"shift\":"@ + decimal(m.shift as int) + ",\"from_bit\":"@ + decimal(m.from_bit as int) + ",\"bits\":"@
        + decimal(m.bits as int) + ",\"tied_zero\":["@ + number_list(m.tied_zero@) + "],\"dropped\":["@
        + number_list(m.dropped@) + "],\"pairs\":["@ + join(","@, Seq::new(m.bits as nat, |k: int| pair_text(m, k)))
        + "]}"@
}

fn push_number_list(out: &mut String, v: &Vec<u8>)
    ensures
        final(out)@ == old(out)@ + number_list(v@),
{
    let ghost o = out@;
    let mut i: usize = 0;
    while i < v.len()
        invariant
            i <= v@.len(),
            out@ == o + number_list(v@.take(i as int)),
        decreases v@.len() - i,
    {
        if i > 0 {
            out.append(",");
        }
        push_int(out, v[i] as i64);
        proof {
            reveal_strlit(",");
            let parts = v@.take(i + 1).map_values(|b: u8| decimal(b as int));
            assert(parts.drop_last() =~= v@.take(i as int).map_values(|b: u8| decimal(b as int)));
            if i == 0 {
                assert(parts.len() == 1);
            }
            assert(out@ =~= o + number_list(v@.take(i + 1)));
        }
        i = i + 1;
    }
    proof {
        assert(v@.take(v@.len() as int) =~= v@);
    }
}

impl WidthMap {
    /// The sentence to show the user.
    pub fn note(&self, driver: &str, sink: &str) -> (s: String)
        requires
            self.shift != i32::MIN,
            forall|i: int| 0 <= i < self.tied_zero@.len() - 1 ==> self.tied_zero@[i] != 255,
            forall|i: int| 0 <= i < self.dropped@.len() - 1 ==> self.dropped@[i] != 255,
        ensures
            s@ == width_note(*self, driver@, sink@),
    {
        let mut s = String::from_str(driver);
        s.append("[");
        push_int(&mut s, self.driver_width as i64);
        s.append("] -> ");
        s.append(sink);
        s.append("[");
        push_int(&mut s, self.sink_width as i64);
        s.append("], ");
        let ghost head = s@;
        if self.shift == 0 {
            s.append("lsb-aligned");
        } else if self.shift as i64 == self.sink_width as i64 - self.driver_width as i64 {
            s.append("msb-aligned");
        } else if self.shift > 0 {
            s.append("shifted ");
            push_int(&mut s, self.shift as i64);
            s.append(" toward the msb");
        } else {
            s.append("shifted ");
            push_int(&mut s, -(self.shift as i64));
            s.append(" toward the lsb");
        }
        assert(s@ =~= head + shift_text(self.shift as int, self.driver_width as int, self.sink_width as int));
        let ghost mid = s@;
        if self.tied_zero.len() > 0 {
            s.append("; sink bit(s) ");
            let r = ranges(&self.tied_zero);
            s.append(r.as_str());
            s.append(" left undriven, which reads 0");
        }
        let ghost mid2 = s@;
        assert(mid2 =~= mid + (if self.tied_zero@.len() > 0 {
            "; sink bit(s) "@ + ranges_text(self.tied_zero@) + " left undriven, which reads 0"@
        } else {
            Seq::empty()
        }));
        if self.dropped.len() > 0 {
            s.append("; driver bit(s) ");
            let r = ranges(&self.dropped);
            s.append(r.as_str());
            s.append(" TRUNCATED away");
        }
        assert(s@ =~= mid2 + (if self.dropped@.len() > 0 {
            "; driver bit(s) "@ + ranges_text(self.dropped@) + " TRUNCATED away"@
        } else {
            Seq::empty()
        }));
        s
    }

    /// `{"driver_width":n,"sink_width":n,"shift":n,"from_bit":n,"bits":n,
    ///   "tied_zero":[..],"dropped":[..],"pairs":[[dbit,sbit],..]}`
    pub fn to_json(&self) -> (s: String)
        requires
            self.from_bit + self.bits <= 256,
            i32::MIN <= self.from_bit + self.bits + self.shift <= i32::MAX,
            i32::MIN <= self.from_bit + self.shift,
        ensures
            s@ == width_map_json(*self),
    {
        let mut s = String::from_str("{\"driver_width\":");
        push_int(&mut s, self.driver_width as i64);
        s.append(",\"sink_width\":");
        push_int(&mut s, self.sink_width as i64);
        s.append(",\"shift\":");
        push_int(&mut s, self.shift as i64);
        s.append(",\"from_bit\":");
        push_int(&mut s, self.from_bit as i64);
        s.append(",\"bits\":");
        push_int(&mut s, self.bits as i64);
        s.append(",\"tied_zero\":[");
        push_number_list(&mut s, &self.tied_zero);
        s.append("],\"dropped\":[");
        push_number_list(&mut s, &self.dropped);
        s.append("],\"pairs\":[");
        let ghost head = s@;
        let ghost all = Seq::new(self.bits as nat, |k: int| pair_text(*self, k));
        let mut k: u8 = 0;
        while k < self.bits
            invariant
                k <= self.bits,
                self.from_bit + self.bits <= 256,
                i32::MIN <= self.from_bit + self.bits + self.shift <= i32::MAX,
                i32::MIN <= self.from_bit + self.shift,
                all == Seq::new(self.bits as nat, |k: int| pair_text(*self, k)),
                s@ == head + join(","@, all.take(k as int)),
            decreases self.bits - k,
        {
            if k > 0 {
                s.append(",");
            }
            let d = self.from_bit as i64 + k as i64;
            s.append("[");
            push_int(&mut s, d);
            s.append(",");
            push_int(&mut s, d + self.shift as i64);
            s.append("]");
            proof {
                reveal_strlit(",");
                let parts = all.take(k + 1);
                assert(parts.drop_last() =~= all.take(k as int));
                assert(parts.last() == pair_text(*self, k as int));
                if k == 0 {
                    assert(parts.len() == 1);
                }
                assert(s@ =~= head + join(","@, all.take(k + 1)));
            }
            k = k + 1;
        }
        proof {
            assert(all.take(self.bits as int) =~= all);
        }
        s.append("]}");
        s
    }
}

/// The shift a width adaptation asks for.
pub open spec fn adapt_shift(driver_width: int, sink_width: int, align: BusAlign) -> int {
    match align {
        BusAlign::Lsb => 0,
        BusAlign::Msb => sink_width - driver_width,
        BusAlign::Shift(n) => n as int,
    }
}

/// The ascending values `i` in `[0, n)` with `p(i)`.
pub open spec fn filtered_range(n: int, p: spec_fn(int) -> bool) -> Seq<u8>
    decreases n,
{
    if n <= 0 {
        Seq::empty()
    } else if p(n - 1) {
        filtered_range(n - 1, p).push((n - 1) as u8)
    } else {
        filtered_range(n - 1, p)
    }
}

/// The outcome of planning a width map: the bit mapping, or why there is
/// none (the word lands outside the destination, or would lose driver bits
/// without `truncate`).
pub open spec fn planned_width_map(driver_width: u8, sink_width: u8, adapt: WidthAdapt) -> Option<(int, int, int, Seq<u8>, Seq<u8>)> {
    let wd = driver_width as int;
    let ws = sink_width as int;
    let shift = adapt_shift(wd, ws, adapt.align);
    let from = if 0 > -shift { 0 } else { -shift };
    let to = if wd < ws - shift { wd } else { ws - shift };
    let dropped = filtered_range(wd, |i: int| i < from || i >= to);
    let tied = filtered_range(ws, |j: int| j < from + shift || j >= to + shift);
    if to <= from {
        None
    } else if dropped.len() > 0 && !adapt.truncate {
        None
    } else {
        Some((shift, from, to - from, tied, dropped))
    }
}

/// The ascending `i` in `[0, n)` outside `[lo, hi)`.
fn outside(n: i64, lo: i64, hi: i64) -> (v: Vec<u8>)
    requires
        0 <= n <= 256,
    ensures
        v@ == filtered_range(n as int, |i: int| i < lo || i >= hi),
{
    let mut v: Vec<u8> = Vec::new();
    let mut i: i64 = 0;
    while i < n
        invariant
            0 <= i <= n <= 256,
            v@ == filtered_range(i as int, |x: int| x < lo || x >= hi),
        decreases n - i,
    {
        if i < lo || i >= hi {
            v.push(i as u8);
        }
        i = i + 1;
    }
    v
}

/// `j as u8` is among the ascending values of `[0, n)` that satisfy `p`
/// exactly when `p(j)`.
pub proof fn lemma_filtered_range_member(n: int, p: spec_fn(int) -> bool, j: int)
    requires
        0 <= j < n <= 256,
    ensures
        filtered_range(n, p).contains(j as u8) == p(j),
    decreases n,
{
    let s = filtered_range(n, p);
    let prev = filtered_range(n - 1, p);
    if j == n - 1 {
        if p(j) {
            assert(s[s.len() - 1] == j as u8);
        } else {
            if s.contains(j as u8) {
                let k = choose|k: int| 0 <= k < s.len() && s[k] == j as u8;
                lemma_filtered_range_below(n - 1, p, k);
            }
        }
    } else {
        lemma_filtered_range_member(n - 1, p, j);
        if p(n - 1) {
            if prev.contains(j as u8) {
                let k = choose|k: int| 0 <= k < prev.len() && prev[k] == j as u8;
                assert(s[k] == j as u8);
            }
            if s.contains(j as u8) {
                let k = choose|k: int| 0 <= k < s.len() && s[k] == j as u8;
                if k < prev.len() {
                    assert(prev[k] == j as u8);
                } else {
                    assert(s[k] == (n - 1) as u8);
                }
            }
        }
    }
}

/// A planned width map wires each driver bit `i` to sink bit `i + shift`
/// wherever that sink bit exists, and only there: the connected driver bits
/// are exactly those with a destination, every other driver bit is listed
/// as dropped (which takes `truncate`), and every sink bit that no driver
/// bit reaches is listed as tied to zero, while no driven sink bit is.
pub proof fn law_width_map_covers_every_bit(driver_width: u8, sink_width: u8, adapt: WidthAdapt)
    requires
        planned_width_map(driver_width, sink_width, adapt) is Some,
    ensures
        ({
            let (shift, from, bits, tied, dropped) = planned_width_map(driver_width, sink_width, adapt)->0;
            &&& match adapt.align {
                BusAlign::Lsb => shift == 0,
                BusAlign::Msb => shift + driver_width == sink_width,
                BusAlign::Shift(n) => shift == n,
            }
            &&& bits >= 1
            &&& forall|i: int|
                0 <= i < driver_width ==> (#[trigger] dropped.contains(i as u8) <==> !(from <= i < from + bits))
            &&& 0 <= from && from + bits <= driver_width
            &&& forall|i: int|
                0 <= i < driver_width ==> (#[trigger] dropped.contains(i as u8) <==> !(0 <= i + shift < sink_width))
            &&& forall|j: int|
                0 <= j < sink_width ==> (#[trigger] tied.contains(j as u8) <==> !(0 <= j - shift < driver_width))
            &&& forall|k: int| 0 <= k < dropped.len() ==> #[trigger] dropped[k] < driver_width
            &&& forall|k: int| 0 <= k < tied.len() ==> #[trigger] tied[k] < sink_width
            &&& dropped.len() > 0 ==> adapt.truncate
        }),
{
    let wd = driver_width as int;
    let ws = sink_width as int;
    let (shift, from, bits, tied, dropped) = planned_width_map(driver_width, sink_width, adapt)->0;
    assert forall|i: int| 0 <= i < wd implies (#[trigger] dropped.contains(i as u8) <==> !(0 <= i + shift < ws)) by {
        lemma_filtered_range_member(wd, |i: int| i < from || i >= from + bits, i);
    }
    assert forall|j: int| 0 <= j < ws implies (#[trigger] tied.contains(j as u8) <==> !(0 <= j - shift < wd)) by {
        lemma_filtered_range_member(ws, |j: int| j < from + shift || j >= from + bits + shift, j);
    }
    assert forall|k: int| 0 <= k < dropped.len() implies #[trigger] dropped[k] < wd by {
        lemma_filtered_range_below(wd, |i: int| i < from || i >= from + bits, k);
    }
    assert forall|k: int| 0 <= k < tied.len() implies #[trigger] tied[k] < ws by {
        lemma_filtered_range_below(ws, |j: int| j < from + shift || j >= from + bits + shift, k);
    }
}

/// A width map exists whenever some driver bit `i` lands inside the sink
/// word, and either every driver bit does or `truncate` allows dropping the
/// others (the placement of driver bit 0 is `shift`, per the alignment).
pub proof fn law_width_map_exists(driver_width: u8, sink_width: u8, adapt: WidthAdapt, i: int)
    requires
        ({
            let shift: int = match adapt.align {
                BusAlign::Lsb => 0,
                BusAlign::Msb => sink_width - driver_width,
                BusAlign::Shift(n) => n as int,
            };
            &&& 0 <= i < driver_width
            &&& 0 <= i + shift < sink_width
            &&& adapt.truncate || (0 <= shift && driver_width + shift <= sink_width)
        }),
    ensures
        planned_width_map(driver_width, sink_width, adapt) is Some,
{
    let wd = driver_width as int;
    let ws = sink_width as int;
    let shift = adapt_shift(wd, ws, adapt.align);
    let from = if 0 > -shift { 0 } else { -shift };
    let to = if wd < ws - shift { wd } else { ws - shift };
    if !adapt.truncate {
        let dropped = filtered_range(wd, |x: int| x < from || x >= to);
        if dropped.len() > 0 {
            lemma_filtered_range_below(wd, |x: int| x < from || x >= to, 0);
            lemma_filtered_range_member(wd, |x: int| x < from || x >= to, dropped[0] as int);
            assert(dropped.contains(dropped[0]));
        }
    }
}

/// Why no width map exists for these widths: the word lands entirely
/// outside the destination, or it would drop driver bits without
/// `truncate` (only read where [`planned_width_map`] is `None`).
pub open spec fn width_map_error(driver_width: u8, sink_width: u8, adapt: WidthAdapt) -> Seq<char> {
    let wd = driver_width as int;
    let ws = sink_width as int;
    let shift = adapt_shift(wd, ws, adapt.align);
    let from = if 0 > -shift { 0 } else { -shift };
    let to = if wd < ws - shift { wd } else { ws - shift };
    let dropped = filtered_range(wd, |i: int| i < from || i >= to);
    if to <= from {
        "a "@ + decimal(wd) + "-bit word shifted "@ + decimal(shift) + " lands entirely outside a "@
            + decimal(ws) + "-bit destination, so              there is nothing to connect"@
    } else {
        "connecting a "@ + decimal(wd) + "-bit driver to a "@ + decimal(ws) + "-bit sink shifted "@
            + decimal(shift) + " would drop bits "@ + ranges_text(dropped)
            + " of the driver word \u{2014} losing the high bits silently is not something a router should decide, so pass truncate to accept it (or align/shift so it fits)"@
    }
}

/// Resolve a width mismatch into a bit mapping, or say why it cannot be.
pub fn plan_width_map(driver_width: u8, sink_width: u8, adapt: WidthAdapt) -> (r: Result<WidthMap, String>)
    ensures
        match planned_width_map(driver_width, sink_width, adapt) {
            Some((shift, from, bits, tied, dropped)) => r matches Ok(m) && m.driver_width == driver_width
                && m.sink_width == sink_width && m.shift == shift && m.from_bit == from && m.bits == bits
                && m.tied_zero@ == tied && m.dropped@ == dropped,
            None => r matches Err(e) && e@ == width_map_error(driver_width, sink_width, adapt),
        },
{
    let wd = driver_width as i64;
    let ws = sink_width as i64;
    let shift: i64 = match adapt.align {
        BusAlign::Lsb => 0,
        BusAlign::Msb => ws - wd,
        BusAlign::Shift(n) => n as i64,
    };
    let from = if 0 > -shift { 0 } else { -shift };
    let to = if wd < ws - shift { wd } else { ws - shift };
    if to <= from {
        let mut msg = String::from_str("a ");
        push_int(&mut msg, wd);
        msg.append("-bit word shifted ");
        push_int(&mut msg, shift);
        msg.append(" lands entirely outside a ");
        push_int(&mut msg, ws);
        msg.append("-bit destination, so              there is nothing to connect");
        return Err(msg);
    }
    let dropped = outside(wd, from, to);
    if dropped.len() > 0 && !adapt.truncate {
        let mut msg = String::from_str("connecting a ");
        push_int(&mut msg, wd);
        msg.append("-bit driver to a ");
        push_int(&mut msg, ws);
        msg.append("-bit sink shifted ");
        push_int(&mut msg, shift);
        msg.append(" would drop bits ");
        proof {
            assert forall|i: int| 0 <= i < dropped@.len() - 1 implies dropped@[i] != 255 by {
                lemma_filtered_range_below(wd as int, |x: int| x < from || x >= to, i);
            }
        }
        let r = ranges(&dropped);
        msg.append(r.as_str());
        msg.append(" of the driver word \u{2014} losing the high bits silently is not something a router should decide, so pass truncate to accept it (or align/shift so it fits)");
        return Err(msg);
    }
    let tied_zero = outside(ws, from + shift, to + shift);
    proof {
        assert(0 <= from < to);
        assert(to - from <= 255);
    }
    Ok(WidthMap {
        driver_width,
        sink_width,
        shift: shift as i32,
        from_bit: from as u8,
        bits: (to - from) as u8,
        tied_zero,
        dropped,
    })
}

/// The values of a filtered range lie below its bound.
pub proof fn lemma_filtered_range_below(n: int, p: spec_fn(int) -> bool, i: int)
    requires
        0 <= i < filtered_range(n, p).len(),
        n <= 256,
    ensures
        filtered_range(n, p)[i] < n,
        n <= 256 ==> filtered_range(n, p)[i] <= 254 || i == filtered_range(n, p).len() - 1,
    decreases n,
{
    if n > 0 {
        if p(n - 1) {
            if i < filtered_range(n - 1, p).len() {
                lemma_filtered_range_below(n - 1, p, i);
            }
        } else {
            lemma_filtered_range_below(n - 1, p, i);
        }
    }
}

/// The JSON form of a move report.
pub open spec fn move_report_json(r: MoveReport) -> Seq<char> {
    "{\"rerouted\":["@ + debug_list(r.rerouted@) + "],\"failed\":{"@ + join(
        ","@,
        r.failed@.map_values(|f: (String, String)| debug_quoted(f.0@) + ":"@ + debug_quoted(f.1@)),
    ) + "},\"changed\":["@ + debug_list(r.changed@) + "]}"@
}

impl MoveReport {
    /// `{"rerouted":[...],"failed":{name:reason},"changed":[...]}`.
    pub fn to_json(&self) -> (s: String)
        ensures
            s@ == move_report_json(*self),
    {
        let mut s = String::from_str("{\"rerouted\":[");
        push_debug_list(&mut s, &self.rerouted);
        s.append("],\"failed\":{");
        let ghost head = s@;
        let ghost all = self.failed@.map_values(|f: (String, String)| debug_quoted(f.0@) + ":"@ + debug_quoted(f.1@));
        let mut i: usize = 0;
        while i < self.failed.len()
            invariant
                i <= self.failed@.len(),
                all == self.failed@.map_values(|f: (String, String)| debug_quoted(f.0@) + ":"@ + debug_quoted(f.1@)),
                s@ == head + join(","@, all.take(i as int)),
            decreases self.failed@.len() - i,
        {
            if i > 0 {
                s.append(",");
            }
            push_debug(&mut s, self.failed[i].0.as_str());
            s.append(":");
            push_debug(&mut s, self.failed[i].1.as_str());
            proof {
                reveal_strlit(",");
                let parts = all.take(i + 1);
                assert(parts.drop_last() =~= all.take(i as int));
                if i == 0 {
                    assert(parts.len() == 1);
                }
                assert(s@ =~= head + join(","@, all.take(i + 1)));
            }
            i = i + 1;
        }
        proof {
            assert(all.take(all.len() as int) =~= all);
        }
        s.append("},\"changed\":[");
        push_debug_list(&mut s, &self.changed);
        s.append("]}");
        s
    }
}

/// The JSON form of a remove report.
pub open spec fn remove_report_json(r: RemoveReport) -> Seq<char> {
    "{\"removed_buses\":["@ + debug_list(r.removed_buses@) + "],"@ + move_report_json(r.moves).skip(1)
}

impl RemoveReport {
    /// `{"removed_buses":[...],"rerouted":[...],"failed":{...},"changed":[...]}`.
    pub fn to_json(&self) -> (s: String)
        ensures
            s@ == remove_report_json(*self),
    {
        let mut s = String::from_str("{\"removed_buses\":[");
        push_debug_list(&mut s, &self.removed_buses);
        s.append("],");
        let moves = self.moves.to_json();
        proof {
            reveal_strlit("{\"rerouted\":[");
        }
        let rest = moves.as_str().substring_char(1, moves.as_str().unicode_len());
        s.append(rest);
        proof {
            assert(moves@.skip(1) =~= moves@.subrange(1, moves@.len() as int));
        }
        s
    }
}

/// An optional string as JSON: its `Debug` text, or `null`.
pub open spec fn optional_json(o: Option<String>) -> Seq<char> {
    match o {
        Some(s) => debug_quoted(s@),
        None => "null"@,
    }
}

/// The JSON form of one rewritten cell.
pub open spec fn change_json(c: PortModeChange) -> Seq<char> {
    "{\"at\":["@ + decimal(c.at.0 as int) + ","@ + decimal(c.at.1 as int) + ","@ + decimal(c.at.2 as int)
        + "],\"from\":"@ + optional_json(c.from) + ",\"to\":"@ + optional_json(c.to) + "}"@
}

/// The JSON form of a port-mode report.
pub open spec fn port_mode_report_json(r: PortModeReport) -> Seq<char> {
    "{\"port\":"@ + debug_quoted(r.port@) + ",\"mode\":"@ + debug_quoted(mode_name(r.mode)) + ",\"note\":"@
        + debug_quoted(r.note@) + ",\"changed\":["@ + join(","@, r.changed@.map_values(|c: PortModeChange| change_json(c)))
        + "],\"removed_buses\":["@ + debug_list(r.removed_buses@) + "],\"moves\":"@ + move_report_json(r.moves)
        + ",\"patch\":"@ + r.patch_json@ + "}"@
}

fn push_optional(out: &mut String, o: &Option<String>)
    ensures
        final(out)@ == old(out)@ + optional_json(*o),
{
    match o {
        Some(s) => push_debug(out, s.as_str()),
        None => {
            out.append("null");
        },
    }
}

fn push_change(out: &mut String, c: &PortModeChange)
    ensures
        final(out)@ == old(out)@ + change_json(*c),
{
    out.append("{\"at\":[");
    push_int(out, c.at.0 as i64);
    out.append(",");
    push_int(out, c.at.1 as i64);
    out.append(",");
    push_int(out, c.at.2 as i64);
    out.append("],\"from\":");
    push_optional(out, &c.from);
    out.append(",\"to\":");
    push_optional(out, &c.to);
    out.append("}");
}

impl PortModeReport {
    /// `{"port":..,"mode":..,"note":..,"changed":[{"at":[x,y,z],"from":..,
    ///   "to":..}],"removed_buses":[..],"moves":{..},"patch":{..}}`
    pub fn to_json(&self) -> (s: String)
        ensures
            s@ == port_mode_report_json(*self),
    {
        let mut s = String::from_str("{\"port\":");
        push_debug(&mut s, self.port.as_str());
        s.append(",\"mode\":");
        push_debug(&mut s, self.mode.as_str());
        s.append(",\"note\":");
        push_debug(&mut s, self.note.as_str());
        s.append(",\"changed\":[");
        let ghost head = s@;
        let ghost all = self.changed@.map_values(|c: PortModeChange| change_json(c));
        let mut i: usize = 0;
        while i < self.changed.len()
            invariant
                i <= self.changed@.len(),
                all == self.changed@.map_values(|c: PortModeChange| change_json(c)),
                s@ == head + join(","@, all.take(i as int)),
            decreases self.changed@.len() - i,
        {
            if i > 0 {
                s.append(",");
            }
            push_change(&mut s, &self.changed[i]);
            proof {
                reveal_strlit(",");
                let parts = all.take(i + 1);
                assert(parts.drop_last() =~= all.take(i as int));
                if i == 0 {
                    assert(parts.len() == 1);
                }
                assert(s@ =~= head + join(","@, all.take(i + 1)));
            }
            i = i + 1;
        }
        proof {
            assert(all.take(all.len() as int) =~= all);
        }
        s.append("],\"removed_buses\":[");
        push_debug_list(&mut s, &self.removed_buses);
        s.append("],\"moves\":");
        let m = self.moves.to_json();
        s.append(m.as_str());
        s.append(",\"patch\":");
        s.append(self.patch_json.as_str());
        s.append("}");
        s
    }
}


/// Dust cells tolerated between refresh stations inside a level shift.
pub const SHIFT_DUST_CAP: u32 = 12;

/// One column of the bus level-shift tile.
#[derive(Clone, Copy, PartialEq, Eq, Debug, Structural)]
pub enum ShiftCell {
    /// The dust the stack steps off toward the next level.
    Step,
    /// The dust the stack lands on, one level away.
    Land,
    /// Flat dust resuming the bus form at the shifted level.
    Flat,
    /// Refresh station entry block.
    Entry,
    /// Refresh station repeater.
    Rep,
    /// Refresh station exit block.
    Exit,
}

/// The tile after `j` levels: its columns `(offset, level, cell)`, the next
/// offset, the current level and the dust since the last refresh. Each level
/// is a step and a landing, preceded by a refresh station when the two dust
/// cells would pass [`SHIFT_DUST_CAP`].
pub open spec fn shift_state(j: nat, sgn: int, since0: int) -> (Seq<(int, int, ShiftCell)>, int, int, int)
    decreases j,
{
    if j == 0 {
        (Seq::empty(), 0, 0, since0)
    } else {
        let prev = shift_state((j - 1) as nat, sgn, since0);
        let (cols, o, dy, since) = (prev.0, prev.1, prev.2, prev.3);
        let station = since + 2 > SHIFT_DUST_CAP;
        let cols1 = if station {
            cols + seq![(o, dy, ShiftCell::Entry), (o + 1, dy, ShiftCell::Rep), (o + 2, dy, ShiftCell::Exit)]
        } else {
            cols
        };
        let o1 = if station { o + 3 } else { o };
        let since1 = if station { 0 } else { since };
        (cols1 + seq![(o1, dy, ShiftCell::Step), (o1 + 1, dy + sgn, ShiftCell::Land)], o1 + 2, dy + sgn, since1 + 2)
    }
}

/// The columns of a `k`-level shift (down when `down`), given `since0` dust
/// cells since the last refresh on arrival: the levels, then one flat cell.
pub open spec fn shift_columns(k: nat, down: bool, since0: int) -> Seq<(int, int, ShiftCell)> {
    let st = shift_state(k, if down { -1 } else { 1 }, since0);
    st.0.push((st.1, st.2, ShiftCell::Flat))
}

/// The dust since the last refresh on the way out of the tile.
pub open spec fn shift_exit_since(k: nat, down: bool, since0: int) -> int {
    shift_state(k, if down { -1 } else { 1 }, since0).3 + 1
}

/// The tile's columns sit at consecutive offsets from 0, it ends `k` levels
/// away, and from an arrival within the cap the dust since a refresh never
/// passes the cap inside it.
pub proof fn law_shift_state(j: nat, sgn: int, since0: int)
    requires
        sgn == 1 || sgn == -1,
    ensures
        shift_state(j, sgn, since0).1 == shift_state(j, sgn, since0).0.len(),
        forall|i: int| 0 <= i < shift_state(j, sgn, since0).0.len() ==> (#[trigger] shift_state(j, sgn, since0).0[i]).0 == i,
        shift_state(j, sgn, since0).2 == sgn * j,
        0 <= since0 <= SHIFT_DUST_CAP ==> 0 <= shift_state(j, sgn, since0).3 <= SHIFT_DUST_CAP,
        j > 0 && since0 >= 0 ==> 2 <= shift_state(j, sgn, since0).3,
        shift_state(j, sgn, since0).1 <= 5 * j,
        since0 >= 0 ==> shift_state(j, sgn, since0).3 >= 0,
    decreases j,
{
    if j > 0 {
        law_shift_state((j - 1) as nat, sgn, since0);
        assert(sgn * j == sgn * (j - 1) + sgn) by (nonlinear_arith);
    }
}

/// Column `i` of `c` is on the level of column `i - 1`, or exactly `sgn`
/// further where it is a landing.
pub open spec fn level_follows(c: Seq<(int, int, ShiftCell)>, i: int, sgn: int) -> bool {
    c[i].1 == c[i - 1].1 + if c[i].2 == ShiftCell::Land { sgn } else { 0 }
}

/// Column `i` of `c`, where it is a landing, follows a step.
pub open spec fn landing_follows_step(c: Seq<(int, int, ShiftCell)>, i: int) -> bool {
    c[i].2 == ShiftCell::Land ==> i >= 1 && c[i - 1].2 == ShiftCell::Step
}

/// Column `i` of `c`, where it is a step, is followed by a landing.
pub open spec fn step_has_landing(c: Seq<(int, int, ShiftCell)>, i: int) -> bool {
    c[i].2 == ShiftCell::Step ==> i + 1 < c.len() && c[i + 1].2 == ShiftCell::Land
}

/// The columns `c` change level only at a landing, by exactly `sgn`; every
/// landing follows a step and every step is followed by a landing; no
/// column is flat.
pub open spec fn levels_ok(c: Seq<(int, int, ShiftCell)>, sgn: int) -> bool {
    &&& forall|i: int| 1 <= i < c.len() ==> #[trigger] level_follows(c, i, sgn)
    &&& forall|i: int| 0 <= i < c.len() ==> #[trigger] landing_follows_step(c, i)
    &&& forall|i: int| 0 <= i < c.len() ==> #[trigger] step_has_landing(c, i)
    &&& forall|i: int| 0 <= i < c.len() ==> (#[trigger] c[i]).2 != ShiftCell::Flat
}

/// Two well-levelled runs of columns joined at a column that keeps the
/// level and is no landing, after one that is no step, are well levelled.
proof fn lemma_levels_append(a: Seq<(int, int, ShiftCell)>, b: Seq<(int, int, ShiftCell)>, sgn: int)
    requires
        levels_ok(a, sgn),
        levels_ok(b, sgn),
        a.len() > 0 && b.len() > 0 ==> b[0].1 == a[a.len() - 1].1 && b[0].2 != ShiftCell::Land,
        a.len() > 0 ==> a[a.len() - 1].2 != ShiftCell::Step,
        a.len() == 0 && b.len() > 0 ==> b[0].2 != ShiftCell::Land,
    ensures
        levels_ok(a + b, sgn),
{
    let c = a + b;
    assert forall|i: int| 1 <= i < c.len() implies #[trigger] level_follows(c, i, sgn) by {
        if i < a.len() {
            assert(level_follows(a, i, sgn));
            assert(c[i] == a[i] && c[i - 1] == a[i - 1]);
        } else if i == a.len() {
            assert(c[i] == b[0] && c[i - 1] == a[a.len() - 1]);
        } else {
            assert(level_follows(b, i - a.len(), sgn));
            assert(c[i] == b[i - a.len()] && c[i - 1] == b[i - a.len() - 1]);
        }
    }
    assert forall|i: int| 0 <= i < c.len() implies #[trigger] landing_follows_step(c, i) by {
        if i < a.len() {
            assert(landing_follows_step(a, i));
            assert(c[i] == a[i]);
            if i >= 1 {
                assert(c[i - 1] == a[i - 1]);
            }
        } else {
            assert(landing_follows_step(b, i - a.len()));
            assert(c[i] == b[i - a.len()]);
            if i > a.len() {
                assert(c[i - 1] == b[i - a.len() - 1]);
            }
        }
    }
    assert forall|i: int| 0 <= i < c.len() implies #[trigger] step_has_landing(c, i) by {
        if i < a.len() {
            assert(step_has_landing(a, i));
            assert(c[i] == a[i]);
            if i + 1 < a.len() {
                assert(c[i + 1] == a[i + 1]);
            }
        } else {
            assert(step_has_landing(b, i - a.len()));
            assert(c[i] == b[i - a.len()]);
            if i + 1 < c.len() {
                assert(c[i + 1] == b[i + 1 - a.len()]);
            }
        }
    }
    assert forall|i: int| 0 <= i < c.len() implies (#[trigger] c[i]).2 != ShiftCell::Flat by {
        if i < a.len() {
            assert(c[i] == a[i]);
        } else {
            assert(c[i] == b[i - a.len()]);
        }
    }
}

/// How the levels of a shift tile run: the first column is on level 0, the
/// tile is well levelled ([`levels_ok`]), and the tile so far ends on a
/// landing, on the current level.
pub proof fn lemma_shift_levels(j: nat, sgn: int, since0: int)
    ensures
        ({
            let st = shift_state(j, sgn, since0);
            let c = st.0;
            &&& c.len() == 0 <==> j == 0
            &&& j == 0 ==> st.2 == 0
            &&& c.len() > 0 ==> c[0].1 == 0 && c[c.len() - 1].1 == st.2 && c[c.len() - 1].2 == ShiftCell::Land
            &&& levels_ok(c, sgn)
        }),
    decreases j,
{
    if j > 0 {
        lemma_shift_levels((j - 1) as nat, sgn, since0);
        let prev = shift_state((j - 1) as nat, sgn, since0);
        let cols = prev.0;
        let o = prev.1;
        let dy = prev.2;
        let station = prev.3 + 2 > SHIFT_DUST_CAP;
        let o1 = if station { o + 3 } else { o };
        let pair = seq![(o1, dy, ShiftCell::Step), (o1 + 1, dy + sgn, ShiftCell::Land)];
        assert(level_follows(pair, 1, sgn));
        assert(landing_follows_step(pair, 0) && landing_follows_step(pair, 1));
        assert(step_has_landing(pair, 0) && step_has_landing(pair, 1));
        assert(levels_ok(pair, sgn));
        if station {
            let three = seq![(o, dy, ShiftCell::Entry), (o + 1, dy, ShiftCell::Rep), (o + 2, dy, ShiftCell::Exit)];
            assert(level_follows(three, 1, sgn) && level_follows(three, 2, sgn));
            assert(landing_follows_step(three, 0) && landing_follows_step(three, 1) && landing_follows_step(three, 2));
            assert(step_has_landing(three, 0) && step_has_landing(three, 1) && step_has_landing(three, 2));
            assert(levels_ok(three, sgn));
            lemma_levels_append(cols, three, sgn);
            lemma_levels_append(cols + three, pair, sgn);
            assert(shift_state(j, sgn, since0).0 == (cols + three) + pair);
        } else {
            lemma_levels_append(cols, pair, sgn);
            assert(shift_state(j, sgn, since0).0 == cols + pair);
        }
    }
}

/// The levels of a `k`-level shift tile: it starts on level 0 and ends on
/// level `k` steps up (or down), and the level changes only at a landing,
/// by exactly one level toward the shift, so the landing sits one level
/// from the step just before it and the closing flat column sits on the
/// level of the last landing. Every step is followed by its landing.
pub proof fn law_shift_columns_levels(k: nat, down: bool, since0: int)
    ensures
        ({
            let c = shift_columns(k, down, since0);
            let sgn: int = if down { -1 } else { 1 };
            &&& c.len() >= 1
            &&& c[0].1 == 0
            &&& c[c.len() - 1].2 == ShiftCell::Flat
            &&& c[c.len() - 1].1 == sgn * k
            &&& k > 0 ==> c[c.len() - 2].2 == ShiftCell::Land && c[c.len() - 2].1 == c[c.len() - 1].1
            &&& forall|i: int| 1 <= i < c.len() ==> #[trigger] level_follows(c, i, sgn)
            &&& forall|i: int| 0 <= i < c.len() ==> #[trigger] landing_follows_step(c, i)
            &&& forall|i: int| 0 <= i < c.len() ==> #[trigger] step_has_landing(c, i)
        }),
{
    let sgn: int = if down { -1 } else { 1 };
    lemma_shift_levels(k, sgn, since0);
    law_shift_state(k, sgn, since0);
    let st = shift_state(k, sgn, since0);
    let c = shift_columns(k, down, since0);
    let flat = seq![(st.1, st.2, ShiftCell::Flat)];
    assert(c == st.0 + flat);
    assert(c[c.len() - 1] == (st.1, st.2, ShiftCell::Flat));
    if st.0.len() > 0 {
        assert(c[0] == st.0[0]);
        assert(c[c.len() - 2] == st.0[st.0.len() - 1]);
    }
    let n = st.0.len() as int;
    assert forall|i: int| 1 <= i < c.len() implies #[trigger] level_follows(c, i, sgn) by {
        if i < n {
            assert(level_follows(st.0, i, sgn));
            assert(c[i] == st.0[i] && c[i - 1] == st.0[i - 1]);
        } else {
            assert(c[i - 1] == st.0[n - 1]);
        }
    }
    assert forall|i: int| 0 <= i < c.len() implies #[trigger] landing_follows_step(c, i) by {
        if i < n {
            assert(landing_follows_step(st.0, i));
            assert(c[i] == st.0[i]);
            if i >= 1 {
                assert(c[i - 1] == st.0[i - 1]);
            }
        }
    }
    assert forall|i: int| 0 <= i < c.len() implies #[trigger] step_has_landing(c, i) by {
        if i < n {
            assert(step_has_landing(st.0, i));
            assert(c[i] == st.0[i]);
            if i + 1 < n {
                assert(c[i + 1] == st.0[i + 1]);
            }
        }
    }
}

/// The column plan of a `k`-level shift of a dense 2y-pitch stack, plus the
/// dust since the last refresh on the way out.
pub fn shift_plan(k: u32, down: bool, since0: u32) -> (r: (Vec<(i32, i32, ShiftCell)>, u32))
    requires
        k <= 429_496_729,
        since0 <= u32::MAX - 3,
    ensures
        r.0@.map_values(|c: (i32, i32, ShiftCell)| (c.0 as int, c.1 as int, c.2)) == shift_columns(k as nat, down, since0 as int),
        r.1 == shift_exit_since(k as nat, down, since0 as int),
{
    let sgn: i32 = if down { -1 } else { 1 };
    let ghost sg: int = if down { -1 } else { 1 };
    let mut cols: Vec<(i32, i32, ShiftCell)> = Vec::new();
    let mut o: i32 = 0;
    let mut dy: i32 = 0;
    let mut since: u32 = since0;
    let mut j: u32 = 0;
    while j < k
        invariant
            j <= k <= 429_496_729,
            since0 <= u32::MAX - 3,
            sg == sgn as int,
            sg == 1 || sg == -1,
            ({
                let st = shift_state(j as nat, sg, since0 as int);
                &&& cols@.map_values(|c: (i32, i32, ShiftCell)| (c.0 as int, c.1 as int, c.2)) == st.0
                &&& o == st.1
                &&& dy == st.2
                &&& since == st.3
            }),
            since <= u32::MAX - 3,
            0 <= o <= 5 * j,
            -(j as int) <= dy <= j,
        decreases k - j,
    {
        proof {
            law_shift_state(j as nat, sg, since0 as int);
            law_shift_state((j + 1) as nat, sg, since0 as int);
        }
        let ghost before = cols@.map_values(|c: (i32, i32, ShiftCell)| (c.0 as int, c.1 as int, c.2));
        if since + 2 > SHIFT_DUST_CAP {
            cols.push((o, dy, ShiftCell::Entry));
            cols.push((o + 1, dy, ShiftCell::Rep));
            cols.push((o + 2, dy, ShiftCell::Exit));
            o = o + 3;
            since = 0;
        }
        cols.push((o, dy, ShiftCell::Step));
        cols.push((o + 1, dy + sgn, ShiftCell::Land));
        o = o + 2;
        dy = dy + sgn;
        since = since + 2;
        proof {
            let st = shift_state((j + 1) as nat, sg, since0 as int);
            assert(cols@.map_values(|c: (i32, i32, ShiftCell)| (c.0 as int, c.1 as int, c.2)) =~= st.0);
        }
        j = j + 1;
    }
    let ghost before = cols@.map_values(|c: (i32, i32, ShiftCell)| (c.0 as int, c.1 as int, c.2));
    cols.push((o, dy, ShiftCell::Flat));
    proof {
        assert(cols@.map_values(|c: (i32, i32, ShiftCell)| (c.0 as int, c.1 as int, c.2)) =~= before.push((o as int, dy as int, ShiftCell::Flat)));
    }
    (cols, since + 1)
}

/// Cells of straight run a `k`-level shift consumes (entry cell included).
pub fn shift_len(k: u32, down: bool, since0: u32) -> (n: i32)
    requires
        k <= 429_496_729,
        since0 <= u32::MAX - 3,
    ensures
        n == shift_columns(k as nat, down, since0 as int).len(),
{
    let (cols, _) = shift_plan(k, down, since0);
    let ghost sg: int = if down { -1 } else { 1 };
    let ghost st = shift_state(k as nat, sg, since0 as int);
    let ghost view = cols@.map_values(|c: (i32, i32, ShiftCell)| (c.0 as int, c.1 as int, c.2));
    proof {
        law_shift_state(k as nat, sg, since0 as int);
        assert(view.len() == cols@.len());
        assert(view == st.0.push((st.1, st.2, ShiftCell::Flat)));
    }
    let n = cols.len();
    let last = cols[n - 1];
    proof {
        assert(view[n - 1] == (st.1, st.2, ShiftCell::Flat));
        assert(view[n - 1].0 == last.0 as int);
    }
    last.0 + 1
}

/// The most cells a `k`-level shift can ever consume: the worst arrival,
/// which buys a leading refresh station.
pub fn shift_len_max(k: u32, down: bool) -> (n: i32)
    requires
        k <= 429_496_729,
    ensures
        n == shift_columns(k as nat, down, SHIFT_DUST_CAP as int).len(),
{
    shift_len(k, down, SHIFT_DUST_CAP)
}

} // verus!
