//! The converter registry and the engine that runs it.
//!
//! Every version module records what it contributes as plain data: a
//! [`Registration`] names the data type, the version, and an [`Action`]
//! (a named converter, a walker, a value rename, a namespace hook). The
//! engine walks those records to convert a value between two versions:
//!
//! * forward (`from < to`): namespace hooks registered at or before `to`,
//!   then every converter registered in `(from, to]` in registration order,
//!   then the walkers in force at `to`;
//! * reverse (`from > to`): every reverse converter registered in
//!   `(to, from]` in reverse registration order, then the walkers in force
//!   at `to`.
//!
//! The walkers in force at version `v` for a type are the structure walkers
//! registered at the greatest walker version `<= v`, and for the value's
//! `id` the id walkers registered at the greatest version `<= v` for that id
//! (a walker copy registered there brings the source id's walkers along).
//! Nested values are converted at every depth up to [`MAX_DEPTH`] levels,
//! more than any value held in memory can have.

use vstd::prelude::*;
use crate::nbt::{is_str, list_of, lookup, map_of, str_of, NbtMap, NbtValue};
use crate::loss::LossReport;
use crate::text::str_eq;
use super::helpers::{correct_namespace, namespaced};
use super::dispatch::{apply_conv, conv_effect, custom_walked, apply_custom_walker, rename_table, table_pairs, Conv, CustomWalker, RenameTable};
use super::walker;

verus! {

/// Deepest nesting the engine descends into: every level a value can have.
pub const MAX_DEPTH: u32 = 4294967295;

/// The data types a schematic holds.
#[derive(Clone, Copy, Debug, PartialEq, Eq, Structural)]
pub enum TypeKey {
    Structure,
    BlockState,
    BlockName,
    TileEntity,
    ItemStack,
    ItemName,
    Entity,
    EntityName,
    DataComponents,
    EntityEquipment,
    TextComponent,
    UntaggedSpawner,
    Particle,
    VillagerTrade,
}

/// A reusable walker: which nested paths hold which type.
#[derive(Clone, Copy)]
pub enum Walker {
    /// Each path is a list of item stacks.
    ItemLists(&'static [&'static str]),
    /// Each path is one item stack.
    Items(&'static [&'static str]),
    /// Each path is one block entity.
    TileEntities(&'static [&'static str]),
    /// Each path is a block id.
    BlockNames(&'static [&'static str]),
    /// Each path is an item id.
    ItemNames(&'static [&'static str]),
    /// A walker written out by a version module.
    Custom(CustomWalker),
}

/// A namespace hook.
#[derive(Clone, Copy)]
pub enum Hook {
    /// Namespace the string at this key of a compound.
    NamespacedId(&'static str),
    /// Namespace a string value.
    NamespacedValue,
}

/// What one registration contributes.
#[derive(Clone, Copy)]
pub enum Action {
    /// A converter run on every value of the type.
    Convert(Conv),
    /// A reverse converter run on every value of the type.
    Revert(Conv),
    /// A converter run on values whose `id` is the given one.
    ConvertId(&'static str, Conv),
    /// A reverse converter run on values whose `id` is the given one.
    RevertId(&'static str, Conv),
    /// A walker for values whose `id` is the given one.
    Walk(&'static str, Walker),
    /// A walker for every value of the type.
    WalkAll(Walker),
    /// A namespace hook.
    Hook(Hook),
    /// From this version on, the second id walks like the first.
    CopyWalkers(&'static str, &'static str),
    /// A value rename, `(old, new)` pairs: forward maps old to new, reverse
    /// maps new back to old.
    Rename(RenameTable),
}

/// One registration.
#[derive(Clone, Copy)]
pub struct Registration {
    pub ty: TypeKey,
    pub version: i32,
    pub sub: i32,
    pub action: Action,
}

/// All registrations, in the order the version modules made them.
pub struct RegistryBuilder {
    pub entries: Vec<Registration>,
}

/// The registry the engine reads.
pub type Registry = RegistryBuilder;

/// A registration record.
pub open spec fn entry(ty: TypeKey, version: i32, sub: i32, action: Action) -> Registration {
    Registration { ty, version, sub, action }
}

/// Versions compare by `(version, sub)`.
pub open spec fn encoded(version: i32, sub: i32) -> int {
    version * 256 + sub
}

impl RegistryBuilder {
    /// An empty registry.
    pub fn new() -> (r: RegistryBuilder)
        ensures
            r.entries@ == Seq::<Registration>::empty(),
    {
        RegistryBuilder { entries: Vec::new() }
    }

    /// Record one registration.
    pub fn add(&mut self, ty: TypeKey, version: i32, sub: i32, action: Action)
        ensures
            final(self).entries@ == old(self).entries@.push(entry(ty, version, sub, action)),
    {
        self.entries.push(Registration { ty, version, sub, action });
    }
}

/// `(version, sub)` as one comparable number.
pub fn encode_versions(version: i32, sub: i32) -> (e: i64)
    requires
        0 <= sub < 256,
    ensures
        e == encoded(version, sub),
{
    version as i64 * 256 + sub as i64
}

/// The losses a report gained keep everything it held.
pub open spec fn report_grows(old: LossReport, new: LossReport) -> bool {
    &&& old.entries@.len() <= new.entries@.len()
    &&& forall|i: int| 0 <= i < old.entries@.len() ==> #[trigger] new.entries@[i] == old.entries@[i]
}

/// `id` holds a string equal to `want`.
fn id_is(data: &NbtMap, want: &str) -> (b: bool)
    ensures
        b == (crate::nbt::str_of(data@, "id"@) == Some(want@)),
{
    match data.get_string("id") {
        Some(s) => str_eq(s, want),
        None => false,
    }
}

/// Apply a namespace hook to a compound.
fn apply_map_hook(h: Hook, data: &mut NbtMap)
    ensures
        match h {
            Hook::NamespacedId(key) => match crate::nbt::str_of(old(data)@, key@) {
                Some(s) => final(data)@ == old(data)@.insert(key@, final(data)@[key@])
                    && crate::nbt::is_str(final(data)@[key@], super::helpers::namespaced(s)),
                None => final(data)@ == old(data)@,
            },
            Hook::NamespacedValue => final(data)@ == old(data)@,
        },
{
    match h {
        Hook::NamespacedId(key) => {
            let fixed = match data.get_string(key) {
                Some(s) => Some(correct_namespace(s)),
                None => None,
            };
            match fixed {
                Some(f) => data.set(key, NbtValue::String(f)),
                None => {},
            }
        },
        Hook::NamespacedValue => {},
    }
}

/// The field of a compound of type `ty` that holds its id: `Name` for
/// block states, `id` otherwise.
pub open spec fn id_field(ty: TypeKey) -> Seq<char> {
    if ty == TypeKey::BlockState { "Name"@ } else { "id"@ }
}

/// Rename the id field of `data` through `table` (backward with `back`);
/// an id the table does not name stays.
pub fn rename_field(ty: TypeKey, data: &mut NbtMap, table: RenameTable, back: bool)
    ensures
        match crate::nbt::str_of(old(data)@, id_field(ty)) {
            Some(s) => match first_hit(table_pairs(table), s, back) {
                Some(x) => final(data)@ == old(data)@.insert(id_field(ty), final(data)@[id_field(ty)])
                    && crate::nbt::is_str(final(data)@[id_field(ty)], x@),
                None => final(data)@ == old(data)@,
            },
            None => final(data)@ == old(data)@,
        },
{
    let key = if ty == TypeKey::BlockState { "Name" } else { "id" };
    proof {
        reveal_strlit("Name");
        reveal_strlit("id");
    }
    let renamed = match data.get_string(key) {
        Some(s) => rename_lookup(rename_table(table), s, back),
        None => None,
    };
    match renamed {
        Some(x) => data.set_string(key, x),
        None => {},
    }
}

/// `b` is the value `a` of type `ty` converted from `from` to `to` under the
/// registrations `e`: a string goes through [`value_converted`], anything
/// else stays.
pub open spec fn value_tag_converted(e: Seq<Registration>, ty: TypeKey, from: i32, to: i32, a: NbtValue, b: NbtValue) -> bool {
    match a {
        NbtValue::String(s0) => b matches NbtValue::String(s1) && s1@ == value_converted(e, ty, s0@, from, to),
        _ => b == a,
    }
}

/// What a namespace hook makes of a compound.
pub open spec fn hook_effect(h: Hook, d0: NbtMap, d1: NbtMap) -> bool {
    match h {
        Hook::NamespacedId(key) => match str_of(d0@, key@) {
            Some(s) => d1@ == d0@.insert(key@, d1@[key@]) && is_str(d1@[key@], namespaced(s)),
            None => d1@ == d0@,
        },
        Hook::NamespacedValue => d1@ == d0@,
    }
}

/// What renaming the id field of a `ty` through table `t` makes of a
/// compound.
pub open spec fn rename_effect(ty: TypeKey, t: RenameTable, back: bool, d0: NbtMap, d1: NbtMap) -> bool {
    match str_of(d0@, id_field(ty)) {
        Some(s) => match first_hit(table_pairs(t), s, back) {
            Some(x) => d1@ == d0@.insert(id_field(ty), d1@[id_field(ty)]) && is_str(d1@[id_field(ty)], x@),
            None => d1@ == d0@,
        },
        None => d1@ == d0@,
    }
}

/// Nothing changed.
pub open spec fn unchanged(d0: NbtMap, d1: NbtMap, r0: LossReport, r1: LossReport) -> bool {
    d1@ == d0@ && r1 == r0
}

/// Registration `r`'s namespace hook step on a `ty` converted up to `to`.
pub open spec fn hook_step(r: Registration, ty: TypeKey, to: i32, d0: NbtMap, d1: NbtMap) -> bool {
    if r.ty == ty && r.version <= to {
        match r.action {
            Action::Hook(h) => hook_effect(h, d0, d1),
            _ => d1@ == d0@,
        }
    } else {
        d1@ == d0@
    }
}

/// Registration `r`'s forward step on a `ty` converted from `from` to `to`.
pub open spec fn forward_step(r: Registration, ty: TypeKey, from: i32, to: i32, d0: NbtMap, d1: NbtMap, r0: LossReport, r1: LossReport) -> bool {
    if r.ty == ty && from < r.version && r.version <= to {
        match r.action {
            Action::Convert(c) => conv_effect(c, d0, d1, r0, r1),
            Action::ConvertId(id, c) => if str_of(d0@, "id"@) == Some(id@) {
                conv_effect(c, d0, d1, r0, r1)
            } else {
                unchanged(d0, d1, r0, r1)
            },
            Action::Rename(t) => rename_effect(ty, t, false, d0, d1) && r1 == r0,
            _ => unchanged(d0, d1, r0, r1),
        }
    } else {
        unchanged(d0, d1, r0, r1)
    }
}

/// Registration `r`'s reverse step on a `ty` converted from `from` down to
/// `to`.
pub open spec fn reverse_step(r: Registration, ty: TypeKey, from: i32, to: i32, d0: NbtMap, d1: NbtMap, r0: LossReport, r1: LossReport) -> bool {
    if r.ty == ty && to < r.version && r.version <= from {
        match r.action {
            Action::Revert(c) => conv_effect(c, d0, d1, r0, r1),
            Action::RevertId(id, c) => if str_of(d0@, "id"@) == Some(id@) {
                conv_effect(c, d0, d1, r0, r1)
            } else {
                unchanged(d0, d1, r0, r1)
            },
            Action::Rename(t) => rename_effect(ty, t, true, d0, d1) && r1 == r0,
            _ => unchanged(d0, d1, r0, r1),
        }
    } else {
        unchanged(d0, d1, r0, r1)
    }
}

/// The states `ds`, `rs` run through the hook steps of every entry of `e`,
/// in order.
pub open spec fn hooks_trace(e: Seq<Registration>, ty: TypeKey, to: i32, ds: Seq<NbtMap>) -> bool {
    &&& ds.len() == e.len() + 1
    &&& forall|i: int| 0 <= i < e.len() ==> #[trigger] hook_step(e[i], ty, to, ds[i], ds[i + 1])
}

/// The states run through the forward steps of every entry of `e`, in order.
pub open spec fn forward_trace(e: Seq<Registration>, ty: TypeKey, from: i32, to: i32, ds: Seq<NbtMap>, rs: Seq<LossReport>) -> bool {
    &&& ds.len() == e.len() + 1
    &&& rs.len() == e.len() + 1
    &&& forall|i: int| 0 <= i < e.len() ==> #[trigger] forward_step(e[i], ty, from, to, ds[i], ds[i + 1], rs[i], rs[i + 1])
}

/// The states run through the reverse steps of every entry of `e`, last
/// entry first: the step of entry `i` goes from state `i + 1` to state `i`.
pub open spec fn reverse_trace(e: Seq<Registration>, ty: TypeKey, from: i32, to: i32, ds: Seq<NbtMap>, rs: Seq<LossReport>) -> bool {
    &&& ds.len() == e.len() + 1
    &&& rs.len() == e.len() + 1
    &&& forall|i: int| 0 <= i < e.len() ==> #[trigger] reverse_step(e[i], ty, from, to, ds[i + 1], ds[i], rs[i + 1], rs[i])
}

/// The registrations of a `ty` converted from `from` to `to` take `d0`, `r0`
/// to `d1`, `r1` before any walker runs: forward, the namespace hooks in
/// force at `to` and then the converters and renames of `(from, to]` in
/// registration order; backward, the reverse converters and renames of
/// `(to, from]` in reverse registration order; nothing at equal versions.
pub open spec fn registrations_applied(e: Seq<Registration>, ty: TypeKey, d0: NbtMap, d1: NbtMap, r0: LossReport, r1: LossReport, from: i32, to: i32) -> bool {
    if from < to {
        exists|hs: Seq<NbtMap>, ds: Seq<NbtMap>, rs: Seq<LossReport>|
            #![trigger hooks_trace(e, ty, to, hs), forward_trace(e, ty, from, to, ds, rs)]
            hooks_trace(e, ty, to, hs) && forward_trace(e, ty, from, to, ds, rs) && hs[0] == d0 && ds[0] == hs[e.len() as int]
                && rs[0] == r0 && ds[e.len() as int] == d1 && rs[e.len() as int] == r1
    } else if from > to {
        exists|ds: Seq<NbtMap>, rs: Seq<LossReport>|
            #![trigger reverse_trace(e, ty, from, to, ds, rs)]
            reverse_trace(e, ty, from, to, ds, rs) && ds[e.len() as int] == d0 && rs[e.len() as int] == r0
                && ds[0] == d1 && rs[0] == r1
    } else {
        d1 == d0 && r1 == r0
    }
}

/// `d1`, `r1` is what converting the compound `d0` of type `ty` from `from`
/// to `to` makes of it and of the report `r0`, descending `fuel` levels:
/// the registrations, then (with fuel left) the walkers in force at `to`.
pub open spec fn map_converted(e: Seq<Registration>, ty: TypeKey, d0: NbtMap, d1: NbtMap, r0: LossReport, r1: LossReport, from: i32, to: i32, fuel: nat) -> bool
    decreases fuel, 24int, 0int,
{
    exists|dm: NbtMap, rm: LossReport|
        #![trigger registrations_applied(e, ty, d0, dm, r0, rm, from, to)]
        registrations_applied(e, ty, d0, dm, r0, rm, from, to) && if fuel > 0 {
            walked(e, ty, dm, d1, rm, r1, from, to, fuel)
        } else {
            d1 == dm && r1 == rm
        }
}

/// A walker of entry `r` in force at version `v`, for the structure of `ty`.
pub open spec fn structure_walk_step(e: Seq<Registration>, r: Registration, ty: TypeKey, v: i32, d0: NbtMap, d1: NbtMap, r0: LossReport, r1: LossReport, from: i32, to: i32, fuel: nat) -> bool
    decreases fuel, 20int, 0int,
{
    if r.ty == ty && r.version == v {
        match r.action {
            Action::WalkAll(w) => walker_applied(e, w, d0, d1, r0, r1, from, to, fuel),
            _ => unchanged(d0, d1, r0, r1),
        }
    } else {
        unchanged(d0, d1, r0, r1)
    }
}

/// The states `ds`, `rs` run through the structure walker steps of the
/// first `ds.len() - 1` entries of `e`, in order.
pub open spec fn structure_trace(e: Seq<Registration>, ty: TypeKey, v: i32, ds: Seq<NbtMap>, rs: Seq<LossReport>, from: i32, to: i32, fuel: nat) -> bool
    decreases fuel, 21int, ds.len(),
{
    if ds.len() <= 1 {
        true
    } else {
        let k = ds.len() - 2;
        structure_trace(e, ty, v, ds.drop_last(), rs.drop_last(), from, to, fuel)
            && structure_walk_step(e, e[k], ty, v, ds[k], ds[k + 1], rs[k], rs[k + 1], from, to, fuel)
    }
}

/// A walker of entry `r` in force at version `v` for the id `id`.
pub open spec fn id_walk_step(e: Seq<Registration>, r: Registration, ty: TypeKey, id: Seq<char>, v: i32, d0: NbtMap, d1: NbtMap, r0: LossReport, r1: LossReport, from: i32, to: i32, fuel: nat) -> bool
    decreases fuel, 20int, 0int,
{
    if r.ty == ty && r.version == v {
        match r.action {
            Action::Walk(wid, w) => if wid@ == id {
                walker_applied(e, w, d0, d1, r0, r1, from, to, fuel)
            } else {
                unchanged(d0, d1, r0, r1)
            },
            Action::CopyWalkers(src, dst) => if dst@ == id {
                copied_walked(e, ty, src@, v, d0, d1, r0, r1, from, to, fuel)
            } else {
                unchanged(d0, d1, r0, r1)
            },
            _ => unchanged(d0, d1, r0, r1),
        }
    } else {
        unchanged(d0, d1, r0, r1)
    }
}

/// The states run through the id walker steps of the first `ds.len() - 1`
/// entries of `e`, in order.
pub open spec fn id_trace(e: Seq<Registration>, ty: TypeKey, id: Seq<char>, v: i32, ds: Seq<NbtMap>, rs: Seq<LossReport>, from: i32, to: i32, fuel: nat) -> bool
    decreases fuel, 21int, ds.len(),
{
    if ds.len() <= 1 {
        true
    } else {
        let k = ds.len() - 2;
        id_trace(e, ty, id, v, ds.drop_last(), rs.drop_last(), from, to, fuel)
            && id_walk_step(e, e[k], ty, id, v, ds[k], ds[k + 1], rs[k], rs[k + 1], from, to, fuel)
    }
}

/// A walker registered for `src` at version `v` (used by a walker copy).
pub open spec fn copied_walk_step(e: Seq<Registration>, r: Registration, ty: TypeKey, src: Seq<char>, v: i32, d0: NbtMap, d1: NbtMap, r0: LossReport, r1: LossReport, from: i32, to: i32, fuel: nat) -> bool
    decreases fuel, 17int, 0int,
{
    if r.ty == ty && r.version == v {
        match r.action {
            Action::Walk(wid, w) => if wid@ == src {
                walker_applied(e, w, d0, d1, r0, r1, from, to, fuel)
            } else {
                unchanged(d0, d1, r0, r1)
            },
            _ => unchanged(d0, d1, r0, r1),
        }
    } else {
        unchanged(d0, d1, r0, r1)
    }
}

/// The states run through the copied walker steps of the first
/// `ds.len() - 1` entries of `e`, in order.
pub open spec fn copied_trace(e: Seq<Registration>, ty: TypeKey, src: Seq<char>, v: i32, ds: Seq<NbtMap>, rs: Seq<LossReport>, from: i32, to: i32, fuel: nat) -> bool
    decreases fuel, 18int, ds.len(),
{
    if ds.len() <= 1 {
        true
    } else {
        let k = ds.len() - 2;
        copied_trace(e, ty, src, v, ds.drop_last(), rs.drop_last(), from, to, fuel)
            && copied_walk_step(e, e[k], ty, src, v, ds[k], ds[k + 1], rs[k], rs[k + 1], from, to, fuel)
    }
}

/// A walker registered for `src` of type `ty` at or before `at`.
pub open spec fn copy_source_hit(ty: TypeKey, src: Seq<char>, at: i32) -> spec_fn(Registration) -> bool {
    |r: Registration| r.ty == ty && r.version <= at && (r.action matches Action::Walk(wid, _) && wid@ == src)
}

/// The walkers `src` has in force at version `at` take `d0`, `r0` to `d1`,
/// `r1`, in registration order.
pub open spec fn copied_walked(e: Seq<Registration>, ty: TypeKey, src: Seq<char>, at: i32, d0: NbtMap, d1: NbtMap, r0: LossReport, r1: LossReport, from: i32, to: i32, fuel: nat) -> bool
    decreases fuel, 19int, 0int,
{
    match floor_of(e, e.len() as int, copy_source_hit(ty, src, at)) {
        None => unchanged(d0, d1, r0, r1),
        Some(x) => exists|ds: Seq<NbtMap>, rs: Seq<LossReport>|
            #![trigger ds.len(), rs.len()]
            ds.len() == e.len() + 1 && rs.len() == e.len() + 1 && ds[0] == d0 && rs[0] == r0
                && ds[e.len() as int] == d1 && rs[e.len() as int] == r1
                && copied_trace(e, ty, src, x, ds, rs, from, to, fuel),
    }
}

/// A compound and a report, as one intermediate state of a conversion.
pub open spec fn state_pair(d: NbtMap, r: LossReport) -> (NbtMap, LossReport) {
    (d, r)
}

/// Two compounds, as one intermediate pair of a conversion.
pub open spec fn map_pair(a: NbtMap, b: NbtMap) -> (NbtMap, NbtMap) {
    (a, b)
}

/// The state between the structure walkers and the id walkers.
pub open spec fn walk_midpoint(d: NbtMap, r: LossReport) -> (NbtMap, LossReport) {
    (d, r)
}

/// The walkers in force at `to` take the compound `d0` of type `ty` and the
/// report `r0` to `d1`, `r1`: first the structure walkers registered at the
/// greatest walker version `<= to`, in registration order; then, for the
/// compound's `id`, the walkers (and walker copies) registered at the
/// greatest version `<= to` for that id.
pub open spec fn walked(e: Seq<Registration>, ty: TypeKey, d0: NbtMap, d1: NbtMap, r0: LossReport, r1: LossReport, from: i32, to: i32, fuel: nat) -> bool
    decreases fuel, 23int, 0int,
{
    exists|dm: NbtMap, rm: LossReport|
        #![trigger walk_midpoint(dm, rm)]
        match floor_of(e, e.len() as int, structure_walker_hit(ty, to)) {
            None => dm == d0 && rm == r0,
            Some(x) => exists|ds: Seq<NbtMap>, rs: Seq<LossReport>|
                #![trigger ds.len(), rs.len()]
                ds.len() == e.len() + 1 && rs.len() == e.len() + 1 && ds[0] == d0 && rs[0] == r0
                    && ds[e.len() as int] == dm && rs[e.len() as int] == rm
                    && structure_trace(e, ty, x, ds, rs, from, to, fuel),
        } && id_walked(e, ty, dm, d1, rm, r1, from, to, fuel)
}

/// The id walkers in force at `to` for the `id` of `d0`.
pub open spec fn id_walked(e: Seq<Registration>, ty: TypeKey, d0: NbtMap, d1: NbtMap, r0: LossReport, r1: LossReport, from: i32, to: i32, fuel: nat) -> bool
    decreases fuel, 22int, 0int,
{
    match str_of(d0@, "id"@) {
        None => d1 == d0 && r1 == r0,
        Some(id) => match floor_of(e, e.len() as int, id_walker_hit(ty, id, to)) {
            None => d1 == d0 && r1 == r0,
            Some(x) => exists|ds: Seq<NbtMap>, rs: Seq<LossReport>|
                #![trigger ds.len(), rs.len()]
                ds.len() == e.len() + 1 && rs.len() == e.len() + 1 && ds[0] == d0 && rs[0] == r0
                    && ds[e.len() as int] == d1 && rs[e.len() as int] == r1
                    && id_trace(e, ty, id, x, ds, rs, from, to, fuel),
        },
    }
}

/// One path step of a reusable walker.
pub open spec fn path_step(e: Seq<Registration>, w: Walker, path: Seq<char>, d0: NbtMap, d1: NbtMap, r0: LossReport, r1: LossReport, from: i32, to: i32, fuel: nat) -> bool
    decreases fuel, 14int, 0int,
{
    match w {
        Walker::ItemLists(_) => list_converted(e, TypeKey::ItemStack, path, d0, d1, r0, r1, from, to, fuel),
        Walker::Items(_) => at_path_converted(e, TypeKey::ItemStack, path, d0, d1, r0, r1, from, to, fuel),
        Walker::TileEntities(_) => at_path_converted(e, TypeKey::TileEntity, path, d0, d1, r0, r1, from, to, fuel),
        Walker::BlockNames(_) => value_at_path_converted(e, TypeKey::BlockName, path, d0, d1, from, to) && r1 == r0,
        Walker::ItemNames(_) => value_at_path_converted(e, TypeKey::ItemName, path, d0, d1, from, to) && r1 == r0,
        Walker::Custom(cw) => custom_walked(e, cw, d0, d1, r0, r1, from, to, fuel),
    }
}

/// The paths a reusable walker visits.
pub open spec fn walker_paths(w: Walker) -> Seq<&'static str> {
    match w {
        Walker::ItemLists(p) => p@,
        Walker::Items(p) => p@,
        Walker::TileEntities(p) => p@,
        Walker::BlockNames(p) => p@,
        Walker::ItemNames(p) => p@,
        Walker::Custom(_) => seq![],
    }
}

/// The states run through the path steps of walker `w` for its first
/// `ds.len() - 1` paths, in order.
pub open spec fn paths_trace(e: Seq<Registration>, w: Walker, ds: Seq<NbtMap>, rs: Seq<LossReport>, from: i32, to: i32, fuel: nat) -> bool
    decreases fuel, 15int, ds.len(),
{
    if ds.len() <= 1 {
        true
    } else {
        let k = ds.len() - 2;
        paths_trace(e, w, ds.drop_last(), rs.drop_last(), from, to, fuel)
            && path_step(e, w, walker_paths(w)[k]@, ds[k], ds[k + 1], rs[k], rs[k + 1], from, to, fuel)
    }
}

/// Walker `w` takes `d0`, `r0` to `d1`, `r1`: a reusable walker converts
/// its paths in order; a walker written out by a version module does what
/// [`custom_walked`] says of it.
pub open spec fn walker_applied(e: Seq<Registration>, w: Walker, d0: NbtMap, d1: NbtMap, r0: LossReport, r1: LossReport, from: i32, to: i32, fuel: nat) -> bool
    decreases fuel, 16int, 0int,
{
    match w {
        Walker::Custom(cw) => custom_walked(e, cw, d0, d1, r0, r1, from, to, fuel),
        _ => exists|ds: Seq<NbtMap>, rs: Seq<LossReport>|
            #![trigger ds.len(), rs.len()]
            ds.len() == walker_paths(w).len() + 1 && rs.len() == walker_paths(w).len() + 1 && ds[0] == d0 && rs[0] == r0
                && ds[walker_paths(w).len() as int] == d1 && rs[walker_paths(w).len() as int] == r1
                && paths_trace(e, w, ds, rs, from, to, fuel),
    }
}

/// The compound tag holding `m`.
pub open spec fn compound_of(m: NbtMap) -> NbtValue {
    NbtValue::Compound(m)
}

/// The compound at `path` of `d0` converted as a `ty`, one level down.
pub open spec fn at_path_converted(e: Seq<Registration>, ty: TypeKey, path: Seq<char>, d0: NbtMap, d1: NbtMap, r0: LossReport, r1: LossReport, from: i32, to: i32, fuel: nat) -> bool
    decreases fuel, 2int, 0int,
{
    match map_of(d0@, path) {
        None => d1@ == d0@ && r1 == r0,
        Some(m) => fuel > 0 && exists|m2: NbtMap| #![trigger compound_of(m2)]
            map_converted(e, ty, m, m2, r0, r1, from, to, (fuel - 1) as nat) && d1@ == d0@.insert(path, compound_of(m2)),
    }
}

/// An element of a list of `ty` compounds converted, one level down.
pub open spec fn element_converted(e: Seq<Registration>, ty: TypeKey, a: NbtValue, b: NbtValue, r0: LossReport, r1: LossReport, from: i32, to: i32, fuel: nat) -> bool
    decreases fuel, 0int, 0int,
{
    match a {
        NbtValue::Compound(m) => fuel > 0 && exists|m2: NbtMap| #![trigger compound_of(m2)]
            map_converted(e, ty, m, m2, r0, r1, from, to, (fuel - 1) as nat) && b == compound_of(m2),
        _ => b == a && r1 == r0,
    }
}

/// The first `rs.len() - 1` elements of `l` converted into those of `l2`,
/// with the report running through `rs`.
pub open spec fn elements_trace(e: Seq<Registration>, ty: TypeKey, l: Seq<NbtValue>, l2: Seq<NbtValue>, rs: Seq<LossReport>, from: i32, to: i32, fuel: nat) -> bool
    decreases fuel, 1int, rs.len(),
{
    if rs.len() <= 1 {
        true
    } else {
        let k = rs.len() - 2;
        elements_trace(e, ty, l, l2, rs.drop_last(), from, to, fuel)
            && element_converted(e, ty, l[k], l2[k], rs[k], rs[k + 1], from, to, fuel)
    }
}

/// Every compound element of the list at `path` of `d0` converted as a
/// `ty`, in order, one level down.
pub open spec fn list_converted(e: Seq<Registration>, ty: TypeKey, path: Seq<char>, d0: NbtMap, d1: NbtMap, r0: LossReport, r1: LossReport, from: i32, to: i32, fuel: nat) -> bool
    decreases fuel, 2int, 0int,
{
    match list_of(d0@, path) {
        None => d1@ == d0@ && r1 == r0,
        Some(l) => exists|l2: Seq<NbtValue>, rs: Seq<LossReport>|
            #![trigger l2.len(), rs.len()]
            l2.len() == l.len() && rs.len() == l.len() + 1 && rs[0] == r0 && rs[l.len() as int] == r1
                && d1@ == d0@.insert(path, d1@[path]) && (d1@[path] matches NbtValue::List(v) && v@ == l2)
                && elements_trace(e, ty, l, l2, rs, from, to, fuel),
    }
}

/// The value at `path` of `d0` converted through the value type `ty`.
pub open spec fn value_at_path_converted(e: Seq<Registration>, ty: TypeKey, path: Seq<char>, d0: NbtMap, d1: NbtMap, from: i32, to: i32) -> bool {
    &&& d1@.dom() == d0@.dom()
    &&& d1@.remove(path) == d0@.remove(path)
    &&& match lookup(d0@, path) {
        Some(a) => value_tag_converted(e, ty, from, to, a, d1@[path]),
        None => d1@ == d0@,
    }
}

/// Convert a compound of type `ty` from `from` to `to`, recording losses.
pub fn convert_map(reg: &Registry, ty: TypeKey, data: &mut NbtMap, from: i32, to: i32, report: &mut LossReport, fuel: u32)
    ensures
        report_grows(*old(report), *final(report)),
        map_converted(reg.entries@, ty, *old(data), *final(data), *old(report), *final(report), from, to, fuel as nat),
    decreases fuel, 8int,
{
    let ghost e = reg.entries@;
    let ghost d0 = *data;
    let ghost r0 = *report;
    let n = reg.entries.len();
    if from < to {
        // Namespace hooks in force at `to`.
        let ghost mut hs: Seq<NbtMap> = seq![*data];
        let mut i: usize = 0;
        while i < n
            invariant
                n == reg.entries@.len(),
                e == reg.entries@,
                i <= n,
                *report == r0,
                hs.len() == i + 1,
                hs[0] == d0,
                hs[i as int] == *data,
                forall|j: int| 0 <= j < i ==> #[trigger] hook_step(e[j], ty, to, hs[j], hs[j + 1]),
            decreases n - i,
        {
            let ghost before = *data;
            let r = reg.entries[i];
            if r.ty == ty && r.version <= to {
                match r.action {
                    Action::Hook(h) => apply_map_hook(h, data),
                    _ => {},
                }
            }
            proof {
                assert(e[i as int] == r);
                assert(hook_step(e[i as int], ty, to, before, *data));
                let hs2 = hs.push(*data);
                assert forall|j: int| 0 <= j < i + 1 implies #[trigger] hook_step(e[j], ty, to, hs2[j], hs2[j + 1]) by {
                    if j < i {
                        assert(hook_step(e[j], ty, to, hs[j], hs[j + 1]));
                        assert(hs2[j] == hs[j] && hs2[j + 1] == hs[j + 1]);
                    }
                }
                hs = hs2;
            }
            i = i + 1;
        }
        let ghost mut ds: Seq<NbtMap> = seq![*data];
        let ghost mut rs: Seq<LossReport> = seq![*report];
        let mut i: usize = 0;
        while i < n
            invariant
                n == reg.entries@.len(),
                e == reg.entries@,
                i <= n,
                report_grows(r0, *report),
                ds.len() == i + 1,
                rs.len() == i + 1,
                ds[0] == hs[n as int],
                rs[0] == r0,
                ds[i as int] == *data,
                rs[i as int] == *report,
                forall|j: int| 0 <= j < i ==> #[trigger] forward_step(e[j], ty, from, to, ds[j], ds[j + 1], rs[j], rs[j + 1]),
            decreases n - i,
        {
            let ghost before = *data;
            let ghost rbefore = *report;
            let r = reg.entries[i];
            if r.ty == ty && from < r.version && r.version <= to {
                match r.action {
                    Action::Convert(c) => apply_conv(c, data, from, to, report),
                    Action::ConvertId(id, c) => {
                        if id_is(data, id) {
                            apply_conv(c, data, from, to, report);
                        }
                    },
                    Action::Rename(table) => rename_field(ty, data, table, false),
                    _ => {},
                }
            }
            proof {
                assert(e[i as int] == r);
                assert(forward_step(e[i as int], ty, from, to, before, *data, rbefore, *report));
                let ds2 = ds.push(*data);
                let rs2 = rs.push(*report);
                assert forall|j: int| 0 <= j < i + 1 implies #[trigger] forward_step(e[j], ty, from, to, ds2[j], ds2[j + 1], rs2[j], rs2[j + 1]) by {
                    if j < i {
                        assert(forward_step(e[j], ty, from, to, ds[j], ds[j + 1], rs[j], rs[j + 1]));
                        assert(ds2[j] == ds[j] && ds2[j + 1] == ds[j + 1] && rs2[j] == rs[j] && rs2[j + 1] == rs[j + 1]);
                    }
                }
                lemma_report_grows_trans(r0, rbefore, *report);
                ds = ds2;
                rs = rs2;
            }
            i = i + 1;
        }
        proof {
            assert(hooks_trace(e, ty, to, hs));
            assert(forward_trace(e, ty, from, to, ds, rs));
            assert(registrations_applied(e, ty, d0, *data, r0, *report, from, to));
        }
    } else if from > to {
        let ghost mut ds: Seq<NbtMap> = seq![*data];
        let ghost mut rs: Seq<LossReport> = seq![*report];
        let mut i: usize = n;
        while i > 0
            invariant
                n == reg.entries@.len(),
                e == reg.entries@,
                i <= n,
                report_grows(r0, *report),
                ds.len() == n - i + 1,
                rs.len() == n - i + 1,
                ds[n - i] == d0,
                rs[n - i] == r0,
                ds[0] == *data,
                rs[0] == *report,
                forall|j: int| i <= j < n ==> #[trigger] reverse_step(e[j], ty, from, to, ds[j - i + 1], ds[j - i], rs[j - i + 1], rs[j - i]),
            decreases i,
        {
            i = i - 1;
            let ghost before = *data;
            let ghost rbefore = *report;
            let r = reg.entries[i];
            if r.ty == ty && to < r.version && r.version <= from {
                match r.action {
                    Action::Revert(c) => apply_conv(c, data, from, to, report),
                    Action::RevertId(id, c) => {
                        if id_is(data, id) {
                            apply_conv(c, data, from, to, report);
                        }
                    },
                    Action::Rename(table) => rename_field(ty, data, table, true),
                    _ => {},
                }
            }
            proof {
                assert(e[i as int] == r);
                assert(reverse_step(e[i as int], ty, from, to, before, *data, rbefore, *report));
                let ds2 = seq![*data] + ds;
                let rs2 = seq![*report] + rs;
                assert forall|j: int| i <= j < n implies #[trigger] reverse_step(e[j], ty, from, to, ds2[j - i + 1], ds2[j - i], rs2[j - i + 1], rs2[j - i]) by {
                    if j > i {
                        assert(reverse_step(e[j], ty, from, to, ds[j - (i + 1) + 1], ds[j - (i + 1)], rs[j - (i + 1) + 1], rs[j - (i + 1)]));
                        assert(ds2[j - i + 1] == ds[j - (i + 1) + 1] && ds2[j - i] == ds[j - (i + 1)]);
                        assert(rs2[j - i + 1] == rs[j - (i + 1) + 1] && rs2[j - i] == rs[j - (i + 1)]);
                    } else {
                        assert(ds2[1] == ds[0] && rs2[1] == rs[0]);
                    }
                }
                lemma_report_grows_trans(r0, rbefore, *report);
                ds = ds2;
                rs = rs2;
            }
        }
        proof {
            assert forall|j: int| 0 <= j < e.len() implies #[trigger] reverse_step(e[j], ty, from, to, ds[j + 1], ds[j], rs[j + 1], rs[j]) by {
                assert(reverse_step(e[j], ty, from, to, ds[j - 0 + 1], ds[j - 0], rs[j - 0 + 1], rs[j - 0]));
            }
            assert(reverse_trace(e, ty, from, to, ds, rs));
            assert(registrations_applied(e, ty, d0, *data, r0, *report, from, to));
        }
    }
    let ghost dm = *data;
    let ghost rm = *report;
    proof {
        assert(registrations_applied(e, ty, d0, dm, r0, rm, from, to));
        assert(report_grows(r0, rm));
    }
    if fuel > 0 {
        walk_map(reg, ty, data, from, to, report, fuel);
        proof {
            lemma_report_grows_trans(r0, rm, *report);
        }
    }
    proof {
        assert(registrations_applied(e, ty, d0, dm, r0, rm, from, to) && if fuel > 0 {
            walked(e, ty, dm, *data, rm, *report, from, to, fuel as nat)
        } else {
            *data == dm && *report == rm
        });
    }
}

/// `v` is the greatest version among the first `n` entries of `e` that
/// satisfy `hit`, or `None` when none does.
pub open spec fn floor_among(e: Seq<Registration>, n: int, hit: spec_fn(Registration) -> bool, v: Option<i32>) -> bool {
    match v {
        None => forall|j: int| 0 <= j < n ==> !hit(#[trigger] e[j]),
        Some(x) => (exists|j: int| 0 <= j < n && hit(#[trigger] e[j]) && e[j].version == x)
            && forall|j: int| 0 <= j < n && hit(#[trigger] e[j]) ==> e[j].version <= x,
    }
}

/// The greatest version among the first `n` entries of `e` that satisfy
/// `hit`, or `None` when none does.
pub open spec fn floor_of(e: Seq<Registration>, n: int, hit: spec_fn(Registration) -> bool) -> Option<i32>
    decreases n,
{
    if n <= 0 {
        None
    } else {
        let b = floor_of(e, n - 1, hit);
        if hit(e[n - 1]) {
            match b {
                Some(x) => if e[n - 1].version > x { Some(e[n - 1].version) } else { Some(x) },
                None => Some(e[n - 1].version),
            }
        } else {
            b
        }
    }
}

/// A structure walker for `ty` registered at or before `to`.
pub open spec fn structure_walker_hit(ty: TypeKey, to: i32) -> spec_fn(Registration) -> bool {
    |r: Registration| r.ty == ty && r.version <= to && r.action is WalkAll
}

/// A walker (or a walker copy) for `id` of type `ty` registered at or
/// before `to`.
pub open spec fn id_walker_hit(ty: TypeKey, id: Seq<char>, to: i32) -> spec_fn(Registration) -> bool {
    |r: Registration| r.ty == ty && r.version <= to && match r.action {
        Action::Walk(wid, _) => wid@ == id,
        Action::CopyWalkers(_, dst) => dst@ == id,
        _ => false,
    }
}

/// The greatest version `<= to` at which `ty` has a structure walker.
fn structure_walker_floor(reg: &Registry, ty: TypeKey, to: i32) -> (v: Option<i32>)
    ensures
        v matches Some(x) ==> x <= to,
        floor_among(reg.entries@, reg.entries@.len() as int, structure_walker_hit(ty, to), v),
        v == floor_of(reg.entries@, reg.entries@.len() as int, structure_walker_hit(ty, to)),
{
    let ghost hit = structure_walker_hit(ty, to);
    let mut best: Option<i32> = None;
    let mut i: usize = 0;
    while i < reg.entries.len()
        invariant
            i <= reg.entries@.len(),
            best matches Some(x) ==> x <= to,
            hit == structure_walker_hit(ty, to),
            floor_among(reg.entries@, i as int, hit, best),
            best == floor_of(reg.entries@, i as int, hit),
        decreases reg.entries@.len() - i,
    {
        let r = reg.entries[i];
        if r.ty == ty && r.version <= to {
            match r.action {
                Action::WalkAll(_) => {
                    best = match best {
                        Some(b) => if r.version > b { Some(r.version) } else { Some(b) },
                        None => Some(r.version),
                    };
                },
                _ => {},
            }
        }
        proof {
            assert(reg.entries@[i as int] == r);
        }
        i = i + 1;
    }
    best
}

/// The greatest version `<= to` at which walkers are registered (or copied)
/// for `id`.
fn id_walker_floor(reg: &Registry, ty: TypeKey, id: &str, to: i32) -> (v: Option<i32>)
    ensures
        v matches Some(x) ==> x <= to,
        floor_among(reg.entries@, reg.entries@.len() as int, id_walker_hit(ty, id@, to), v),
        v == floor_of(reg.entries@, reg.entries@.len() as int, id_walker_hit(ty, id@, to)),
{
    let ghost hit = id_walker_hit(ty, id@, to);
    let mut best: Option<i32> = None;
    let mut i: usize = 0;
    while i < reg.entries.len()
        invariant
            i <= reg.entries@.len(),
            best matches Some(x) ==> x <= to,
            hit == id_walker_hit(ty, id@, to),
            floor_among(reg.entries@, i as int, hit, best),
            best == floor_of(reg.entries@, i as int, hit),
        decreases reg.entries@.len() - i,
    {
        let r = reg.entries[i];
        if r.ty == ty && r.version <= to {
            let hit_now = match r.action {
                Action::Walk(wid, _) => str_eq(wid, id),
                Action::CopyWalkers(_, dst) => str_eq(dst, id),
                _ => false,
            };
            if hit_now {
                best = match best {
                    Some(b) => if r.version > b { Some(r.version) } else { Some(b) },
                    None => Some(r.version),
                };
            }
        }
        proof {
            assert(reg.entries@[i as int] == r);
        }
        i = i + 1;
    }
    best
}

/// Run the walkers in force at `to` over `data`.
fn walk_map(reg: &Registry, ty: TypeKey, data: &mut NbtMap, from: i32, to: i32, report: &mut LossReport, fuel: u32)
    requires
        fuel > 0,
    ensures
        report_grows(*old(report), *final(report)),
        walked(reg.entries@, ty, *old(data), *final(data), *old(report), *final(report), from, to, fuel as nat),
    decreases fuel, 7int,
{
    let ghost e = reg.entries@;
    let ghost d0 = *data;
    let ghost r0 = *report;
    let n = reg.entries.len();
    let floor = structure_walker_floor(reg, ty, to);
    match floor {
        Some(v) => {
            let ghost mut ds: Seq<NbtMap> = seq![*data];
            let ghost mut rs: Seq<LossReport> = seq![*report];
            let mut i: usize = 0;
            while i < n
                invariant
                    n == reg.entries@.len(),
                    e == reg.entries@,
                    i <= n,
                    fuel > 0,
                    report_grows(r0, *report),
                    ds.len() == i + 1,
                    rs.len() == i + 1,
                    ds[0] == d0,
                    rs[0] == r0,
                    ds[i as int] == *data,
                    rs[i as int] == *report,
                    structure_trace(e, ty, v, ds, rs, from, to, fuel as nat),
                decreases n - i,
            {
                let ghost before = *data;
                let ghost rbefore = *report;
                let r = reg.entries[i];
                if r.ty == ty && r.version == v {
                    match r.action {
                        Action::WalkAll(w) => apply_walker(reg, w, data, from, to, report, fuel),
                        _ => {},
                    }
                }
                proof {
                    assert(e[i as int] == r);
                    assert(structure_walk_step(e, e[i as int], ty, v, before, *data, rbefore, *report, from, to, fuel as nat));
                    let ds2 = ds.push(*data);
                    let rs2 = rs.push(*report);
                    assert(ds2.drop_last() =~= ds);
                    assert(rs2.drop_last() =~= rs);
                    assert(ds2[i as int] == before && ds2[i + 1] == *data && rs2[i as int] == rbefore && rs2[i + 1] == *report);
                    assert(structure_trace(e, ty, v, ds2, rs2, from, to, fuel as nat));
                    lemma_report_grows_trans(r0, rbefore, *report);
                    ds = ds2;
                    rs = rs2;
                }
                i = i + 1;
            }
        },
        None => {},
    }
    let ghost dm = *data;
    let ghost rm = *report;
    let id = match data.get_string("id") {
        Some(s) => Some(s.to_owned()),
        None => None,
    };
    match id {
        Some(id) => {
            let idfloor = id_walker_floor(reg, ty, id.as_str(), to);
            match idfloor {
                Some(v) => {
                    let ghost mut ds: Seq<NbtMap> = seq![*data];
                    let ghost mut rs: Seq<LossReport> = seq![*report];
                    let mut i: usize = 0;
                    while i < n
                        invariant
                            n == reg.entries@.len(),
                            e == reg.entries@,
                            i <= n,
                            fuel > 0,
                            report_grows(r0, rm),
                            report_grows(rm, *report),
                            ds.len() == i + 1,
                            rs.len() == i + 1,
                            ds[0] == dm,
                            rs[0] == rm,
                            ds[i as int] == *data,
                            rs[i as int] == *report,
                            id_trace(e, ty, id@, v, ds, rs, from, to, fuel as nat),
                        decreases n - i,
                    {
                        let ghost before = *data;
                        let ghost rbefore = *report;
                        let r = reg.entries[i];
                        if r.ty == ty && r.version == v {
                            match r.action {
                                Action::Walk(wid, w) => {
                                    if str_eq(wid, id.as_str()) {
                                        apply_walker(reg, w, data, from, to, report, fuel);
                                    }
                                },
                                Action::CopyWalkers(src, dst) => {
                                    if str_eq(dst, id.as_str()) {
                                        walk_copied(reg, ty, src, v, data, from, to, report, fuel);
                                    }
                                },
                                _ => {},
                            }
                        }
                        proof {
                            assert(e[i as int] == r);
                            assert(id_walk_step(e, e[i as int], ty, id@, v, before, *data, rbefore, *report, from, to, fuel as nat));
                            let ds2 = ds.push(*data);
                            let rs2 = rs.push(*report);
                            assert(ds2.drop_last() =~= ds);
                            assert(rs2.drop_last() =~= rs);
                            assert(ds2[i as int] == before && ds2[i + 1] == *data && rs2[i as int] == rbefore && rs2[i + 1] == *report);
                            assert(id_trace(e, ty, id@, v, ds2, rs2, from, to, fuel as nat));
                            lemma_report_grows_trans(rm, rbefore, *report);
                            ds = ds2;
                            rs = rs2;
                        }
                        i = i + 1;
                    }
                    proof {
                        lemma_report_grows_trans(r0, rm, *report);
                        assert(str_of(dm@, "id"@) == Some(id@));
                        assert(id_walked(e, ty, dm, *data, rm, *report, from, to, fuel as nat));
                    }
                },
                None => {
                    proof {
                        assert(str_of(dm@, "id"@) == Some(id@));
                        assert(id_walked(e, ty, dm, *data, rm, *report, from, to, fuel as nat));
                    }
                },
            }
        },
        None => {},
    }
    proof {
        assert(id_walked(e, ty, dm, *data, rm, *report, from, to, fuel as nat));
        assert(walk_midpoint(dm, rm) == (dm, rm));
        assert(walked(e, ty, d0, *data, r0, *report, from, to, fuel as nat));
    }
}

pub proof fn lemma_report_grows_trans(a: LossReport, b: LossReport, c: LossReport)
    requires
        report_grows(a, b),
        report_grows(b, c),
    ensures
        report_grows(a, c),
{
    assert(c.entries@.subrange(0, a.entries@.len() as int) =~= b.entries@.subrange(0, a.entries@.len() as int));
}

/// Run the walkers `src` has in force at version `at`.
fn walk_copied(
    reg: &Registry,
    ty: TypeKey,
    src: &str,
    at: i32,
    data: &mut NbtMap,
    from: i32,
    to: i32,
    report: &mut LossReport,
    fuel: u32,
)
    requires
        fuel > 0,
    ensures
        report_grows(*old(report), *final(report)),
        copied_walked(reg.entries@, ty, src@, at, *old(data), *final(data), *old(report), *final(report), from, to, fuel as nat),
    decreases fuel, 6int,
{
    let ghost e = reg.entries@;
    let ghost d0 = *data;
    let ghost r0 = *report;
    let ghost hit = copy_source_hit(ty, src@, at);
    let n = reg.entries.len();
    let mut best: Option<i32> = None;
    let mut i: usize = 0;
    while i < n
        invariant
            n == reg.entries@.len(),
            e == reg.entries@,
            hit == copy_source_hit(ty, src@, at),
            i <= n,
            best == floor_of(e, i as int, hit),
        decreases n - i,
    {
        let r = reg.entries[i];
        proof {
            assert(e[i as int] == r);
        }
        if r.ty == ty && r.version <= at {
            match r.action {
                Action::Walk(wid, _) => {
                    if str_eq(wid, src) {
                        best = match best {
                            Some(b) => if r.version > b { Some(r.version) } else { Some(b) },
                            None => Some(r.version),
                        };
                    }
                },
                _ => {},
            }
        }
        i = i + 1;
    }
    match best {
        Some(v) => {
            let ghost mut ds: Seq<NbtMap> = seq![*data];
            let ghost mut rs: Seq<LossReport> = seq![*report];
            let mut i: usize = 0;
            while i < n
                invariant
                    n == reg.entries@.len(),
                    e == reg.entries@,
                    i <= n,
                    fuel > 0,
                    report_grows(r0, *report),
                    ds.len() == i + 1,
                    rs.len() == i + 1,
                    ds[0] == d0,
                    rs[0] == r0,
                    ds[i as int] == *data,
                    rs[i as int] == *report,
                    copied_trace(e, ty, src@, v, ds, rs, from, to, fuel as nat),
                decreases n - i,
            {
                let ghost before = *data;
                let ghost rbefore = *report;
                let r = reg.entries[i];
                if r.ty == ty && r.version == v {
                    match r.action {
                        Action::Walk(wid, w) => {
                            if str_eq(wid, src) {
                                apply_walker(reg, w, data, from, to, report, fuel);
                            }
                        },
                        _ => {},
                    }
                }
                proof {
                    assert(e[i as int] == r);
                    assert(copied_walk_step(e, e[i as int], ty, src@, v, before, *data, rbefore, *report, from, to, fuel as nat));
                    let ds2 = ds.push(*data);
                    let rs2 = rs.push(*report);
                    assert(ds2.drop_last() =~= ds);
                    assert(rs2.drop_last() =~= rs);
                    assert(ds2[i as int] == before && ds2[i + 1] == *data && rs2[i as int] == rbefore && rs2[i + 1] == *report);
                    assert(copied_trace(e, ty, src@, v, ds2, rs2, from, to, fuel as nat));
                    lemma_report_grows_trans(r0, rbefore, *report);
                    ds = ds2;
                    rs = rs2;
                }
                i = i + 1;
            }
            proof {
                assert(copied_walked(e, ty, src@, at, d0, *data, r0, *report, from, to, fuel as nat));
            }
        },
        None => {},
    }
}

/// Run one walker over `data`.
pub fn apply_walker(reg: &Registry, w: Walker, data: &mut NbtMap, from: i32, to: i32, report: &mut LossReport, fuel: u32)
    requires
        fuel > 0,
    ensures
        report_grows(*old(report), *final(report)),
        walker_applied(reg.entries@, w, *old(data), *final(data), *old(report), *final(report), from, to, fuel as nat),
    decreases fuel, 5int,
{
    let ghost e = reg.entries@;
    let ghost d0 = *data;
    let ghost r0 = *report;
    match w {
        Walker::Custom(cw) => apply_custom_walker(reg, cw, data, from, to, report, fuel),
        _ => {
            let paths = match w {
                Walker::ItemLists(p) => p,
                Walker::Items(p) => p,
                Walker::TileEntities(p) => p,
                Walker::BlockNames(p) => p,
                Walker::ItemNames(p) => p,
                Walker::Custom(_) => &[],
            };
            proof {
                assert(paths@ == walker_paths(w));
            }
            let ghost mut ds: Seq<NbtMap> = seq![*data];
            let ghost mut rs: Seq<LossReport> = seq![*report];
            let mut i: usize = 0;
            while i < paths.len()
                invariant
                    i <= paths@.len(),
                    paths@ == walker_paths(w),
                    !(w is Custom),
                    e == reg.entries@,
                    fuel > 0,
                    report_grows(r0, *report),
                    ds.len() == i + 1,
                    rs.len() == i + 1,
                    ds[0] == d0,
                    rs[0] == r0,
                    ds[i as int] == *data,
                    rs[i as int] == *report,
                    paths_trace(e, w, ds, rs, from, to, fuel as nat),
                decreases paths@.len() - i,
            {
                let ghost before = *data;
                let ghost rbefore = *report;
                let path = paths[i];
                proof {
                    assert(path@ == walker_paths(w)[i as int]@);
                }
                match w {
                    Walker::ItemLists(_) => walker::convert_list(reg, TypeKey::ItemStack, data, path, from, to, report, fuel),
                    Walker::Items(_) => walker::convert(reg, TypeKey::ItemStack, data, path, from, to, report, fuel),
                    Walker::TileEntities(_) => walker::convert(reg, TypeKey::TileEntity, data, path, from, to, report, fuel),
                    Walker::BlockNames(_) => walker::convert_value(reg, TypeKey::BlockName, data, path, from, to),
                    Walker::ItemNames(_) => walker::convert_value(reg, TypeKey::ItemName, data, path, from, to),
                    Walker::Custom(_) => {},
                }
                proof {
                    assert(path_step(e, w, walker_paths(w)[i as int]@, before, *data, rbefore, *report, from, to, fuel as nat));
                    let ds2 = ds.push(*data);
                    let rs2 = rs.push(*report);
                    assert(ds2.drop_last() =~= ds);
                    assert(rs2.drop_last() =~= rs);
                    assert(ds2[i as int] == before && ds2[i + 1] == *data && rs2[i as int] == rbefore && rs2[i + 1] == *report);
                    assert(paths_trace(e, w, ds2, rs2, from, to, fuel as nat));
                    lemma_report_grows_trans(r0, rbefore, *report);
                    ds = ds2;
                    rs = rs2;
                }
                i = i + 1;
            }
            proof {
                assert(walker_applied(e, w, d0, *data, r0, *report, from, to, fuel as nat));
            }
        },
    }
}

/// Pair `i` of `t` names `s` on the side looked up (the second member with
/// `back`, the first without).
pub open spec fn pair_hit(t: Seq<(&'static str, &'static str)>, s: Seq<char>, back: bool, i: int) -> bool {
    if back { t[i].1@ == s } else { t[i].0@ == s }
}

/// The partner of the side looked up in pair `i`.
pub open spec fn pair_partner(t: Seq<(&'static str, &'static str)>, back: bool, i: int) -> &'static str {
    if back { t[i].0 } else { t[i].1 }
}

/// `i` is the first pair of `t` naming `s`.
pub open spec fn first_hit_at(t: Seq<(&'static str, &'static str)>, s: Seq<char>, back: bool, i: int) -> bool {
    &&& 0 <= i < t.len()
    &&& pair_hit(t, s, back, i)
    &&& forall|j: int| 0 <= j < i ==> !pair_hit(t, s, back, j)
}

/// The partner of the first pair of `t` naming `s`, if any pair does.
pub open spec fn first_hit(t: Seq<(&'static str, &'static str)>, s: Seq<char>, back: bool) -> Option<&'static str> {
    if exists|i: int| first_hit_at(t, s, back, i) {
        Some(pair_partner(t, back, choose|i: int| first_hit_at(t, s, back, i)))
    } else {
        None
    }
}

/// The first pair naming `s` is unique.
pub proof fn lemma_first_hit_unique(t: Seq<(&'static str, &'static str)>, s: Seq<char>, back: bool, i: int)
    requires
        first_hit_at(t, s, back, i),
    ensures
        first_hit(t, s, back) == Some(pair_partner(t, back, i)),
{
    let k = choose|k: int| first_hit_at(t, s, back, k);
    assert(first_hit_at(t, s, back, k));
    if k < i {
        assert(!pair_hit(t, s, back, k));
    } else if i < k {
        assert(!pair_hit(t, s, back, i));
    }
}

/// No pair naming `s` means no first one.
pub proof fn lemma_first_hit_none(t: Seq<(&'static str, &'static str)>, s: Seq<char>, back: bool)
    requires
        forall|j: int| 0 <= j < t.len() ==> !pair_hit(t, s, back, j),
    ensures
        first_hit(t, s, back).is_none(),
{
}

/// Look `s` up among the first (or, with `back`, the second) members of the
/// pairs, handing back the partner.
pub fn rename_lookup(table: &[(&'static str, &'static str)], s: &str, back: bool) -> (r: Option<&'static str>)
    ensures
        r == first_hit(table@, s@, back),
        r matches Some(x) ==> exists|i: int| 0 <= i < table@.len() && if back {
            table@[i].1@ == s@ && table@[i].0 == x
        } else {
            table@[i].0@ == s@ && table@[i].1 == x
        },
        r is None ==> forall|i: int| 0 <= i < table@.len() ==> if back {
            table@[i].1@ != s@
        } else {
            table@[i].0@ != s@
        },
{
    let mut i: usize = 0;
    while i < table.len()
        invariant
            i <= table@.len(),
            forall|j: int| 0 <= j < i ==> if back {
                table@[j].1@ != s@
            } else {
                table@[j].0@ != s@
            },
        decreases table@.len() - i,
    {
        let (a, b) = table[i];
        if back {
            if str_eq(b, s) {
                proof {
                    assert(pair_hit(table@, s@, back, i as int));
                    lemma_first_hit_unique(table@, s@, back, i as int);
                }
                return Some(a);
            }
        } else {
            if str_eq(a, s) {
                proof {
                    assert(pair_hit(table@, s@, back, i as int));
                    lemma_first_hit_unique(table@, s@, back, i as int);
                }
                return Some(b);
            }
        }
        i = i + 1;
    }
    proof {
        assert forall|j: int| 0 <= j < table@.len() implies !pair_hit(table@, s@, back, j) by {}
        lemma_first_hit_none(table@, s@, back);
    }
    None
}

/// A value namespace hook for `ty` is registered at or before `to`.
pub open spec fn value_hooked(e: Seq<Registration>, ty: TypeKey, to: i32, n: int) -> bool {
    exists|j: int| 0 <= j < n && (#[trigger] e[j]).ty == ty && e[j].version <= to
        && e[j].action matches Action::Hook(Hook::NamespacedValue)
}

/// What registration `r` does to the value `s` when it is a rename of `ty`
/// registered in `(lo, hi]`: forward (or with `back`, backward) through its
/// table; anything else leaves `s` alone.
pub open spec fn rename_step(r: Registration, ty: TypeKey, lo: i32, hi: i32, back: bool, s: Seq<char>) -> Seq<char> {
    if r.ty == ty && lo < r.version && r.version <= hi {
        match r.action {
            Action::Rename(t) => match first_hit(table_pairs(t), s, back) {
                Some(x) => x@,
                None => s,
            },
            _ => s,
        }
    } else {
        s
    }
}

/// `s` after the renames among the first `n` entries, in order.
pub open spec fn renamed_forward(e: Seq<Registration>, ty: TypeKey, from: i32, to: i32, s: Seq<char>, n: int) -> Seq<char>
    decreases n,
{
    if n <= 0 {
        s
    } else {
        rename_step(e[n - 1], ty, from, to, false, renamed_forward(e, ty, from, to, s, n - 1))
    }
}

/// `s` after the renames among the entries from `i` on, backward and in
/// reverse order.
pub open spec fn renamed_backward(e: Seq<Registration>, ty: TypeKey, from: i32, to: i32, s: Seq<char>, i: int) -> Seq<char>
    decreases e.len() - i,
{
    if 0 <= i < e.len() {
        rename_step(e[i], ty, to, from, true, renamed_backward(e, ty, from, to, s, i + 1))
    } else {
        s
    }
}

/// The value `s` of type `ty` converted from `from` to `to` under the
/// registrations `e`.
pub open spec fn value_converted(e: Seq<Registration>, ty: TypeKey, s: Seq<char>, from: i32, to: i32) -> Seq<char> {
    if from < to {
        renamed_forward(e, ty, from, to, if value_hooked(e, ty, to, e.len() as int) { namespaced(s) } else { s }, e.len() as int)
    } else if from > to {
        renamed_backward(e, ty, from, to, s, 0)
    } else {
        s
    }
}

/// Convert a value of a value type (an id string) from `from` to `to`:
/// namespace hooks (forward), then every rename in range, in order forward
/// and in reverse order backward. Anything but a string is left alone.
pub fn convert_value_of(reg: &Registry, ty: TypeKey, v: &mut NbtValue, from: i32, to: i32)
    ensures
        !(*old(v) is String) ==> *final(v) == *old(v),
        (*final(v) is String) == (*old(v) is String),
        *old(v) matches NbtValue::String(s0) ==> (*final(v) matches NbtValue::String(s1)
            && s1@ == value_converted(reg.entries@, ty, s0@, from, to)),
{
    let s0 = match &*v {
        NbtValue::String(s) => s.clone(),
        _ => return,
    };
    let ghost e = reg.entries@;
    let mut s = s0;
    let n = reg.entries.len();
    if from < to {
        let mut hooked = false;
        let mut i: usize = 0;
        while i < n
            invariant
                n == reg.entries@.len(),
                e == reg.entries@,
                i <= n,
                hooked == value_hooked(e, ty, to, i as int),
            decreases n - i,
        {
            let r = reg.entries[i];
            proof {
                assert(e[i as int] == r);
            }
            if r.ty == ty && r.version <= to {
                match r.action {
                    Action::Hook(Hook::NamespacedValue) => {
                        hooked = true;
                    },
                    _ => {},
                }
            }
            i = i + 1;
        }
        if hooked {
            s = correct_namespace(s.as_str());
        }
        let ghost base = s@;
        let mut i: usize = 0;
        while i < n
            invariant
                n == reg.entries@.len(),
                e == reg.entries@,
                i <= n,
                s@ == renamed_forward(e, ty, from, to, base, i as int),
            decreases n - i,
        {
            let r = reg.entries[i];
            proof {
                assert(e[i as int] == r);
            }
            if r.ty == ty && from < r.version && r.version <= to {
                match r.action {
                    Action::Rename(table) => {
                        match rename_lookup(rename_table(table), s.as_str(), false) {
                            Some(x) => {
                                s = x.to_owned();
                            },
                            None => {},
                        }
                    },
                    _ => {},
                }
            }
            i = i + 1;
        }
    } else if from > to {
        let ghost base = s@;
        let mut i: usize = n;
        while i > 0
            invariant
                n == reg.entries@.len(),
                e == reg.entries@,
                i <= n,
                s@ == renamed_backward(e, ty, from, to, base, i as int),
            decreases i,
        {
            i = i - 1;
            let r = reg.entries[i];
            proof {
                assert(e[i as int] == r);
            }
            if r.ty == ty && to < r.version && r.version <= from {
                match r.action {
                    Action::Rename(table) => {
                        match rename_lookup(rename_table(table), s.as_str(), true) {
                            Some(x) => {
                                s = x.to_owned();
                            },
                            None => {},
                        }
                    },
                    _ => {},
                }
            }
        }
    }
    *v = NbtValue::String(s);
}

/// `d1` and the report `r` are what converting the compound `d0` of type
/// `ty` from `from` to `to` under the registrations `e` makes of it, starting
/// from an empty report and descending at most [`MAX_DEPTH`] levels.
pub open spec fn converted_fresh(e: Seq<Registration>, ty: TypeKey, d0: NbtMap, d1: NbtMap, r: LossReport, from: i32, to: i32) -> bool {
    exists|r0: LossReport| #![trigger map_converted(e, ty, d0, d1, r0, r, from, to, MAX_DEPTH as nat)]
        r0.entries@.len() == 0 && map_converted(e, ty, d0, d1, r0, r, from, to, MAX_DEPTH as nat)
}

/// Convert an entity compound from `from` to `to`, with every version's
/// registrations, returning what was lost.
pub fn convert_entity_reverse(data: &mut NbtMap, from: i32, to: i32) -> (r: LossReport)
    ensures
        converted_fresh(super::versions::all_registrations(), TypeKey::Entity, *old(data), *final(data), r, from, to),
{
    convert_with_all(TypeKey::Entity, data, from, to)
}

/// Convert an item stack compound from `from` to `to`, returning what was
/// lost.
pub fn convert_item_stack_reverse(data: &mut NbtMap, from: i32, to: i32) -> (r: LossReport)
    ensures
        converted_fresh(super::versions::all_registrations(), TypeKey::ItemStack, *old(data), *final(data), r, from, to),
{
    convert_with_all(TypeKey::ItemStack, data, from, to)
}

/// Convert a block state compound from `from` to `to`, returning what was
/// lost.
pub fn convert_block_state_reverse(data: &mut NbtMap, from: i32, to: i32) -> (r: LossReport)
    ensures
        converted_fresh(super::versions::all_registrations(), TypeKey::BlockState, *old(data), *final(data), r, from, to),
{
    convert_with_all(TypeKey::BlockState, data, from, to)
}

/// Convert a compound of type `ty` with the registrations of every version.
pub fn convert_with_all(ty: TypeKey, data: &mut NbtMap, from: i32, to: i32) -> (r: LossReport)
    ensures
        converted_fresh(super::versions::all_registrations(), ty, *old(data), *final(data), r, from, to),
{
    let reg = super::versions::build_registry();
    let mut report = LossReport::new();
    let ghost r0 = report;
    convert_map(&reg, ty, data, from, to, &mut report, MAX_DEPTH);
    proof {
        assert(map_converted(super::versions::all_registrations(), ty, *old(data), *data, r0, report, from, to, MAX_DEPTH as nat));
    }
    report
}

} // verus!
