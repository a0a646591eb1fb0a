//! Walker descent primitives and the reusable walker constructors. Walkers
//! do not change their own compound: they find nested typed values and
//! convert them as their own type.

use vstd::prelude::*;
use crate::nbt::{NbtMap, NbtValue, map_of, list_of, lookup};
use super::versions::{v99, v704, v4059, v4307};
use crate::loss::LossReport;
use super::registry::{convert_map, convert_value_of, report_grows, first_hit, value_at_path_converted, lemma_report_grows_trans, value_tag_converted, at_path_converted, list_converted, elements_trace, element_converted, map_converted, compound_of, Registration, Registry, TypeKey, Walker};

verus! {

/// One step of a walker that walks a compound's members in a fixed order.
#[derive(Clone, Copy)]
pub enum WalkStep {
    /// Nothing happens.
    Skip,
    /// The compound at the path converted as the type.
    At(TypeKey, &'static str),
    /// The list at the path converted as a list of the type.
    List(TypeKey, &'static str),
    /// The child at the second path of each compound of the list at the
    /// first path converted as the type.
    ListPath(TypeKey, &'static str, &'static str),
    /// The value at the path converted through the value type.
    Value(TypeKey, &'static str),
    /// Each value of the list at the path converted through the value type.
    ValueList(TypeKey, &'static str),
    /// The list at the path converted as text components when the item is
    /// a written book.
    BookList(&'static str),
    /// The `can_break`/`can_place_on` predicates at the path (one predicate
    /// list per component).
    CanPredicates(&'static str),
    /// The block predicates at the path (one predicate or a list of them).
    BlockPredicates(&'static str),
    /// The entities allowed by `minecraft:equippable`.
    Equippable,
    /// The pages of `minecraft:written_book_content`; compound pages are
    /// converted whole when the flag is set.
    BookPages(bool),
    /// The `EntityTag` converted as an entity, its id set meanwhile from
    /// the item id when it has none.
    EntityTagFor,
    /// The `BlockEntityTag` converted as a block entity, its id set from the
    /// item id.
    BlockEntityTagFor,
    /// The `EntityTag` converted as an entity, its id defaulted to the one
    /// the item resolves to.
    EntityTagResolved,
    /// The `BlockEntityTag` converted as a block entity, its id defaulted to
    /// the one the item resolves to.
    BlockEntityTagResolved,
    /// The display `Name`, and with the flag its `Lore`, converted as text
    /// components.
    Display(bool),
}

/// `q2` is the `minecraft:equippable` component `q` with its
/// `allowed_entities` converted as entity names, one id or a list of them.
pub open spec fn equippable_done(e: Seq<Registration>, q: NbtMap, q2: NbtMap, from: i32, to: i32) -> bool {
    exists|qm: NbtMap| #![trigger value_at_path_converted(e, TypeKey::EntityName, "allowed_entities"@, q, qm, from, to)]
        value_at_path_converted(e, TypeKey::EntityName, "allowed_entities"@, q, qm, from, to)
            && value_list_at_path_converted(e, TypeKey::EntityName, "allowed_entities"@, qm, q2, from, to)
}

/// The compound at `path` of `d0` replaced by one `m2` with `rel(m, m2)`,
/// where `m` is the compound held there; nothing happens when there is none.
pub open spec fn nested_done(path: Seq<char>, d0: NbtMap, d1: NbtMap, m2: NbtMap) -> bool {
    d1@ == d0@.insert(path, compound_of(m2))
}

/// `d2` is `d` with its display `Name` (and with `lore` its `Lore`)
/// converted as text components.
pub open spec fn display_done(e: Seq<Registration>, lore: bool, d: NbtMap, d2: NbtMap, r0: LossReport, r1: LossReport, from: i32, to: i32, fuel: nat) -> bool
    decreases fuel, 3int, 0int,
{
    if lore {
        exists|dm: NbtMap, rm: LossReport| #![trigger display_midpoint(dm, rm)]
            display_midpoint(dm, rm) == (dm, rm)
                && at_path_converted(e, TypeKey::TextComponent, "Name"@, d, dm, r0, rm, from, to, fuel)
                && list_converted(e, TypeKey::TextComponent, "Lore"@, dm, d2, rm, r1, from, to, fuel)
    } else {
        at_path_converted(e, TypeKey::TextComponent, "Name"@, d, d2, r0, r1, from, to, fuel)
    }
}

/// The state between a display's name and its lore.
pub open spec fn display_midpoint(d: NbtMap, r: LossReport) -> (NbtMap, LossReport) {
    (d, r)
}

/// What step `s` makes of `d0` and the report `r0`; `item` is the id of
/// the item stack being walked, where there is one.
pub open spec fn step_effect(e: Seq<Registration>, s: WalkStep, item: Option<Seq<char>>, d0: NbtMap, d1: NbtMap, r0: LossReport, r1: LossReport, from: i32, to: i32, fuel: nat) -> bool
    decreases fuel, 8int, 0int,
{
    match s {
        WalkStep::Skip => d1 == d0 && r1 == r0,
        WalkStep::At(ty, p) => at_path_converted(e, ty, p@, d0, d1, r0, r1, from, to, fuel),
        WalkStep::List(ty, p) => list_converted(e, ty, p@, d0, d1, r0, r1, from, to, fuel),
        WalkStep::ListPath(ty, lp, ep) => list_path_effect(e, ty, lp@, ep@, d0, d1, r0, r1, from, to, fuel),
        WalkStep::Value(ty, p) => value_at_path_converted(e, ty, p@, d0, d1, from, to) && r1 == r0,
        WalkStep::ValueList(ty, p) => value_list_at_path_converted(e, ty, p@, d0, d1, from, to) && r1 == r0,
        WalkStep::BookList(p) => if item == Some("minecraft:written_book"@) {
            list_converted(e, TypeKey::TextComponent, p@, d0, d1, r0, r1, from, to, fuel)
        } else {
            d1 == d0 && r1 == r0
        },
        WalkStep::CanPredicates(p) => v4059::can_predicates_walked(e, p@, d0, d1, from, to) && r1 == r0,
        WalkStep::BlockPredicates(p) => v4307::block_predicates_walked(e, p@, d0, d1, from, to) && r1 == r0,
        WalkStep::Equippable => r1 == r0 && match map_of(d0@, "minecraft:equippable"@) {
            None => d1@ == d0@,
            Some(q) => exists|q2: NbtMap| #![trigger compound_of(q2)]
                equippable_done(e, q, q2, from, to) && nested_done("minecraft:equippable"@, d0, d1, q2),
        },
        WalkStep::BookPages(whole) => match map_of(d0@, "minecraft:written_book_content"@) {
            None => d1@ == d0@ && r1 == r0,
            Some(b) => exists|b2: NbtMap| #![trigger compound_of(b2)]
                v4059::pages_walked(e, whole, b, b2, r0, r1, from, to, fuel) && nested_done("minecraft:written_book_content"@, d0, d1, b2),
        },
        WalkStep::EntityTagFor => match map_of(d0@, "EntityTag"@) {
            None => d1@ == d0@ && r1 == r0,
            Some(m) => exists|m2: NbtMap| #![trigger compound_of(m2)]
                v99::converted_with_id(e, TypeKey::Entity, m, m2, match item {
                    Some(i) => v99::entity_for(i),
                    None => None,
                }, false, r0, r1, from, to, fuel) && nested_done("EntityTag"@, d0, d1, m2),
        },
        WalkStep::BlockEntityTagFor => match map_of(d0@, "BlockEntityTag"@) {
            None => d1@ == d0@ && r1 == r0,
            Some(m) => exists|m2: NbtMap| #![trigger compound_of(m2)]
                v99::converted_with_id(e, TypeKey::TileEntity, m, m2, match item {
                    Some(i) => first_hit(v99::item_tile_entity_ids(), i, false),
                    None => None,
                }, true, r0, r1, from, to, fuel) && nested_done("BlockEntityTag"@, d0, d1, m2),
        },
        WalkStep::EntityTagResolved => match map_of(d0@, "EntityTag"@) {
            None => d1@ == d0@ && r1 == r0,
            Some(m) => exists|m2: NbtMap| #![trigger compound_of(m2)]
                v704::converted_with_default_id(e, TypeKey::Entity, m, m2, v704::entity_resolved(item, m@, from), r0, r1, from, to, fuel)
                    && nested_done("EntityTag"@, d0, d1, m2),
        },
        WalkStep::BlockEntityTagResolved => match map_of(d0@, "BlockEntityTag"@) {
            None => d1@ == d0@ && r1 == r0,
            Some(m) => exists|m2: NbtMap| #![trigger compound_of(m2)]
                v704::converted_with_default_id(e, TypeKey::TileEntity, m, m2, v704::block_entity_resolved(item, from), r0, r1, from, to, fuel)
                    && nested_done("BlockEntityTag"@, d0, d1, m2),
        },
        WalkStep::Display(lore) => match map_of(d0@, "display"@) {
            None => d1@ == d0@ && r1 == r0,
            Some(dsp) => exists|dsp2: NbtMap| #![trigger compound_of(dsp2)]
                display_done(e, lore, dsp, dsp2, r0, r1, from, to, fuel) && nested_done("display"@, d0, d1, dsp2),
        },
    }
}

/// The states `ds`, `rs` run through the first `ds.len() - 1` of `steps`,
/// in order.
pub open spec fn steps_trace(e: Seq<Registration>, steps: Seq<WalkStep>, item: Option<Seq<char>>, ds: Seq<NbtMap>, rs: Seq<LossReport>, from: i32, to: i32, fuel: nat) -> bool
    decreases fuel, 9int, ds.len(),
{
    if ds.len() <= 1 {
        true
    } else {
        let k = ds.len() - 2;
        steps_trace(e, steps, item, ds.drop_last(), rs.drop_last(), from, to, fuel)
            && step_effect(e, steps[k], item, ds[k], ds[k + 1], rs[k], rs[k + 1], from, to, fuel)
    }
}

/// `steps` take `d0`, `r0` to `d1`, `r1`, in order.
pub open spec fn steps_done(e: Seq<Registration>, steps: Seq<WalkStep>, item: Option<Seq<char>>, d0: NbtMap, d1: NbtMap, r0: LossReport, r1: LossReport, from: i32, to: i32, fuel: nat) -> bool
    decreases fuel, 10int, 0int,
{
    exists|ds: Seq<NbtMap>, rs: Seq<LossReport>| #![trigger ds.len(), rs.len()]
        ds.len() == steps.len() + 1 && rs.len() == steps.len() + 1 && ds[0] == d0 && rs[0] == r0
            && ds[steps.len() as int] == d1 && rs[steps.len() as int] == r1
            && steps_trace(e, steps, item, ds, rs, from, to, fuel)
}

/// One more step keeps the trace.
pub proof fn lemma_steps_push(e: Seq<Registration>, steps: Seq<WalkStep>, item: Option<Seq<char>>, ds: Seq<NbtMap>, rs: Seq<LossReport>, d: NbtMap, r: LossReport, from: i32, to: i32, fuel: nat)
    requires
        steps_trace(e, steps, item, ds, rs, from, to, fuel),
        1 <= ds.len(),
        ds.len() == rs.len(),
        ds.len() <= steps.len(),
        step_effect(e, steps[ds.len() - 1], item, ds.last(), d, rs.last(), r, from, to, fuel),
    ensures
        steps_trace(e, steps, item, ds.push(d), rs.push(r), from, to, fuel),
{
    assert(ds.push(d).drop_last() =~= ds);
    assert(rs.push(r).drop_last() =~= rs);
}

/// The list at `inner` of the compound at `outer` of `d0` converted as a
/// list of `ty` compounds; nothing happens when `outer` holds no compound.
pub open spec fn nested_list_converted(e: Seq<Registration>, ty: TypeKey, outer: Seq<char>, inner: Seq<char>, d0: NbtMap, d1: NbtMap, r0: LossReport, r1: LossReport, from: i32, to: i32, fuel: nat) -> bool
    decreases fuel, 3int, 0int,
{
    match map_of(d0@, outer) {
        None => d1@ == d0@ && r1 == r0,
        Some(o) => exists|o2: NbtMap| #![trigger compound_of(o2)]
            list_converted(e, ty, inner, o, o2, r0, r1, from, to, fuel) && d1@ == d0@.insert(outer, compound_of(o2)),
    }
}

/// The compounds at `paths` of `d0` converted as `ty`, in order.
pub open spec fn paths_at_converted(e: Seq<Registration>, ty: TypeKey, paths: Seq<&'static str>, d0: NbtMap, d1: NbtMap, r0: LossReport, r1: LossReport, from: i32, to: i32, fuel: nat) -> bool
    decreases fuel, 3int, 0int,
{
    exists|ds: Seq<NbtMap>, rs: Seq<LossReport>| #![trigger ds.len(), rs.len()]
        ds.len() == paths.len() + 1 && rs.len() == paths.len() + 1 && ds[0] == d0 && rs[0] == r0
            && ds[paths.len() as int] == d1 && rs[paths.len() as int] == r1
            && forall|i: int| 0 <= i < paths.len() ==> #[trigger] at_path_converted(e, ty, paths[i]@, ds[i], ds[i + 1], rs[i], rs[i + 1], from, to, fuel)
}

/// Replacing the value at `key` of a map whose other entries are those of
/// `old` gives `old` with that value at `key`.
pub proof fn lemma_replaced_at(old: Map<Seq<char>, NbtValue>, mid: Map<Seq<char>, NbtValue>, key: Seq<char>, v: NbtValue)
    requires
        mid.dom() == old.dom(),
        mid.remove(key) == old.remove(key),
    ensures
        mid.insert(key, v) == old.insert(key, v),
{
    assert forall|k: Seq<char>| k != key && old.dom().contains(k) implies mid[k] == old[k] by {
        assert(mid.dom().contains(k));
        assert(mid.remove(key).dom().contains(k));
        assert(old.remove(key).dom().contains(k));
        assert(mid.remove(key)[k] == mid[k]);
        assert(old.remove(key)[k] == old[k]);
        assert(mid.remove(key)[k] == old.remove(key)[k]);
    }
    assert forall|k: Seq<char>| #![auto] mid.insert(key, v).dom().contains(k) <==> old.insert(key, v).dom().contains(k) by {
        if k != key {
            assert(mid.remove(key).dom().contains(k) <==> old.remove(key).dom().contains(k));
        }
    }
    assert(mid.insert(key, v) =~= old.insert(key, v));
}

/// Convert the compound at `data[path]` as a `ty`. Nothing else in `data`
/// changes, and `path` still holds a compound afterwards; nothing happens
/// when `path` holds no compound.
pub fn convert(reg: &Registry, ty: TypeKey, data: &mut NbtMap, path: &str, from: i32, to: i32, report: &mut LossReport, fuel: u32)
    requires
        fuel > 0,
    ensures
        report_grows(*old(report), *final(report)),
        map_of(old(data)@, path@).is_none() ==> final(data)@ == old(data)@,
        map_of(old(data)@, path@).is_some() ==> map_of(final(data)@, path@).is_some()
            && final(data)@.remove(path@) == old(data)@.remove(path@),
        at_path_converted(reg.entries@, ty, path@, *old(data), *final(data), *old(report), *final(report), from, to, fuel as nat),
    decreases fuel, 1int,
{
    match data.take_map(path) {
        Some(mut m) => {
            let ghost m0 = m;
            let ghost mid = *data;
            convert_map(reg, ty, &mut m, from, to, report, fuel - 1);
            data.set_map(path, m);
            proof {
                assert(final(data)@.remove(path@) =~= old(data)@.remove(path@));
                lemma_replaced_at(old(data)@, mid@, path@, NbtValue::Compound(m));
                assert(compound_of(m) == NbtValue::Compound(m));
                assert(data@ == old(data)@.insert(path@, NbtValue::Compound(m)));
                assert(map_converted(reg.entries@, ty, m0, m, *old(report), *report, from, to, ((fuel as nat) - 1) as nat));
            }
        },
        None => {},
    }
}

/// Convert every compound element of the list at `data[path]` as a `ty`;
/// other elements, and everything else in `data`, stay as they were.
pub fn convert_list(reg: &Registry, ty: TypeKey, data: &mut NbtMap, path: &str, from: i32, to: i32, report: &mut LossReport, fuel: u32)
    requires
        fuel > 0,
    ensures
        report_grows(*old(report), *final(report)),
        list_of(old(data)@, path@).is_none() ==> final(data)@ == old(data)@,
        list_of(old(data)@, path@) matches Some(l) ==> list_of(final(data)@, path@) matches Some(l2) && l2.len() == l.len()
            && final(data)@.remove(path@) == old(data)@.remove(path@),
        list_converted(reg.entries@, ty, path@, *old(data), *final(data), *old(report), *final(report), from, to, fuel as nat),
    decreases fuel, 1int,
{
    match data.take_list(path) {
        Some(list) => {
            let ghost l0 = list@;
            let ghost mid = *data;
            let out = convert_elements(reg, ty, list, from, to, report, fuel);
            let ghost l2 = out@;
            let ghost outv = NbtValue::List(out);
            data.set_list(path, out);
            proof {
                assert(final(data)@.remove(path@) =~= old(data)@.remove(path@));
                lemma_replaced_at(old(data)@, mid@, path@, outv);
                assert(data@ == old(data)@.insert(path@, data@[path@]));
                assert(list_of(old(data)@, path@) == Some(l0));
                let rs = choose|rs: Seq<LossReport>| rs.len() == l0.len() + 1 && rs[0] == *old(report)
                    && rs[l0.len() as int] == *report && elements_trace(reg.entries@, ty, l0, l2, rs, from, to, fuel as nat);
                assert(elements_trace(reg.entries@, ty, l0, l2, rs, from, to, fuel as nat));
            }
        },
        None => {},
    }
}

/// Convert each compound of `list` as a `ty`, keeping order and length.
fn convert_elements(reg: &Registry, ty: TypeKey, list: Vec<NbtValue>, from: i32, to: i32, report: &mut LossReport, fuel: u32) -> (out: Vec<NbtValue>)
    requires
        fuel > 0,
    ensures
        report_grows(*old(report), *final(report)),
        out@.len() == list@.len(),
        forall|i: int| 0 <= i < list@.len() ==> (#[trigger] out@[i] is Compound) == (list@[i] is Compound),
        exists|rs: Seq<LossReport>| rs.len() == list@.len() + 1 && rs[0] == *old(report)
            && rs[list@.len() as int] == *final(report) && #[trigger] elements_trace(reg.entries@, ty, list@, out@, rs, from, to, fuel as nat),
    decreases fuel, 0int,
{
    let ghost e = reg.entries@;
    let ghost r0 = *report;
    let ghost l0 = list@;
    let mut rest = list;
    let mut out: Vec<NbtValue> = Vec::new();
    let ghost mut rs: Seq<LossReport> = seq![*report];
    while rest.len() > 0
        invariant
            fuel > 0,
            e == reg.entries@,
            report_grows(r0, *report),
            out@.len() + rest@.len() == l0.len(),
            rest@ == l0.subrange(out@.len() as int, l0.len() as int),
            forall|i: int| 0 <= i < out@.len() ==> (#[trigger] out@[i] is Compound) == (l0[i] is Compound),
            rs.len() == out@.len() + 1,
            rs[0] == r0,
            rs[out@.len() as int] == *report,
            elements_trace(e, ty, l0, out@, rs, from, to, fuel as nat),
        decreases rest@.len(),
    {
        let ghost k = out@.len() as int;
        let el = rest.remove(0);
        proof {
            assert(el == l0[k]);
            assert(rest@ =~= l0.subrange(k + 1, l0.len() as int));
        }
        let ghost r1 = *report;
        let ghost out0 = out@;
        let conv = match el {
            NbtValue::Compound(mut m) => {
                let ghost m0 = m;
                convert_map(reg, ty, &mut m, from, to, report, fuel - 1);
                proof {
                    assert(map_converted(e, ty, m0, m, r1, *report, from, to, ((fuel as nat) - 1) as nat));
                    assert(compound_of(m) == NbtValue::Compound(m));
                }
                NbtValue::Compound(m)
            },
            other => other,
        };
        proof {
            assert(element_converted(e, ty, l0[k], conv, r1, *report, from, to, fuel as nat));
        }
        out.push(conv);
        proof {
            let rs2 = rs.push(*report);
            assert(rs2.drop_last() =~= rs);
            assert forall|j: int| 0 <= j < k implies out@[j] == out0[j] by {}
            lemma_elements_trace_extend(e, ty, l0, out0, out@, rs, from, to, fuel as nat);
            assert(elements_trace(e, ty, l0, out@, rs2, from, to, fuel as nat));
            lemma_report_grows_trans(r0, r1, *report);
            rs = rs2;
        }
    }
    proof {
        assert(l0.subrange(out@.len() as int, l0.len() as int).len() == 0);
    }
    out
}

/// Extending the converted list keeps the trace of its first elements.
proof fn lemma_elements_trace_extend(e: Seq<Registration>, ty: TypeKey, l: Seq<NbtValue>, a: Seq<NbtValue>, b: Seq<NbtValue>, rs: Seq<LossReport>, from: i32, to: i32, fuel: nat)
    requires
        elements_trace(e, ty, l, a, rs, from, to, fuel),
        rs.len() <= a.len() + 1,
        a.len() <= b.len(),
        forall|j: int| 0 <= j < a.len() ==> b[j] == a[j],
    ensures
        elements_trace(e, ty, l, b, rs, from, to, fuel),
    decreases rs.len(),
{
    if rs.len() > 1 {
        lemma_elements_trace_extend(e, ty, l, a, b, rs.drop_last(), from, to, fuel);
    }
}

/// Element `a` of a list, a compound whose `element_path` child is
/// converted as a `ty` into `b`; anything else stays.
pub open spec fn element_path_converted(e: Seq<Registration>, ty: TypeKey, element_path: Seq<char>, a: NbtValue, b: NbtValue, r0: LossReport, r1: LossReport, from: i32, to: i32, fuel: nat) -> bool
    decreases fuel, 3int, 0int,
{
    match a {
        NbtValue::Compound(m) => b matches NbtValue::Compound(m2)
            && at_path_converted(e, ty, element_path, m, m2, r0, r1, from, to, fuel),
        _ => b == a && r1 == r0,
    }
}

/// The list `l` with the `element_path` child of each compound converted,
/// in order, giving `l2`, the report running through `rs`.
pub open spec fn list_elements_path_converted(e: Seq<Registration>, ty: TypeKey, element_path: Seq<char>, l: Seq<NbtValue>, l2: Seq<NbtValue>, rs: Seq<LossReport>, from: i32, to: i32, fuel: nat) -> bool
    decreases fuel, 4int, 0int,
{
    &&& l2.len() == l.len()
    &&& rs.len() == l.len() + 1
    &&& forall|i: int| 0 <= i < l.len() ==> #[trigger] element_path_converted(e, ty, element_path, l[i], l2[i], rs[i], rs[i + 1], from, to, fuel)
}

/// The list `l` with the `element_path` child of each compound converted,
/// in order, giving `l2`, with the report going from `r0` to `r1`.
pub open spec fn list_path_converted(e: Seq<Registration>, ty: TypeKey, element_path: Seq<char>, l: Seq<NbtValue>, l2: Seq<NbtValue>, r0: LossReport, r1: LossReport, from: i32, to: i32, fuel: nat) -> bool
    decreases fuel, 5int, 0int,
{
    exists|rs: Seq<LossReport>| #![trigger rs.len()] rs.len() == l.len() + 1 && rs[0] == r0 && rs[l.len() as int] == r1
        && list_elements_path_converted(e, ty, element_path, l, l2, rs, from, to, fuel)
}

/// What converting the `element_path` child of each compound of the list
/// at `list_path` makes of `d0` and the report `r0`.
pub open spec fn list_path_effect(e: Seq<Registration>, ty: TypeKey, list_path: Seq<char>, element_path: Seq<char>, d0: NbtMap, d1: NbtMap, r0: LossReport, r1: LossReport, from: i32, to: i32, fuel: nat) -> bool
    decreases fuel, 6int, 0int,
{
    match list_of(d0@, list_path) {
        None => d1@ == d0@ && r1 == r0,
        Some(l) => d1@ == d0@.insert(list_path, d1@[list_path])
            && (list_of(d1@, list_path) matches Some(l2) && list_path_converted(e, ty, element_path, l, l2, r0, r1, from, to, fuel)),
    }
}

/// For each compound of the list at `data[list_path]`, convert its
/// `[element_path]` child compound as a `ty`.
pub fn convert_list_path(
    reg: &Registry,
    ty: TypeKey,
    data: &mut NbtMap,
    list_path: &str,
    element_path: &str,
    from: i32,
    to: i32,
    report: &mut LossReport,
    fuel: u32,
)
    requires
        fuel > 0,
    ensures
        report_grows(*old(report), *final(report)),
        list_of(old(data)@, list_path@).is_none() ==> final(data)@ == old(data)@,
        list_of(old(data)@, list_path@) matches Some(l) ==> list_of(final(data)@, list_path@) matches Some(l2)
            && l2.len() == l.len() && final(data)@.remove(list_path@) == old(data)@.remove(list_path@),
        list_of(old(data)@, list_path@).is_none() ==> *final(report) == *old(report),
        list_of(old(data)@, list_path@) is Some ==> final(data)@ == old(data)@.insert(list_path@, final(data)@[list_path@]),
        list_of(old(data)@, list_path@) matches Some(l) ==> (list_of(final(data)@, list_path@) matches Some(l2)
            && list_path_converted(reg.entries@, ty, element_path@, l, l2, *old(report), *final(report), from, to, fuel as nat)),
        list_path_effect(reg.entries@, ty, list_path@, element_path@, *old(data), *final(data), *old(report), *final(report), from, to, fuel as nat),
    decreases fuel, 2int,
{
    match data.take_list(list_path) {
        Some(list) => {
            let ghost e = reg.entries@;
            let ghost r0 = *report;
            let ghost l0 = list@;
            let ghost mid = *data;
            let mut rest = list;
            let mut out: Vec<NbtValue> = Vec::new();
            let ghost mut rs: Seq<LossReport> = seq![*report];
            while rest.len() > 0
                invariant
                    fuel > 0,
                    e == reg.entries@,
                    report_grows(r0, *report),
                    out@.len() + rest@.len() == l0.len(),
                    rest@ == l0.subrange(out@.len() as int, l0.len() as int),
                    rs.len() == out@.len() + 1,
                    rs[0] == r0,
                    rs[out@.len() as int] == *report,
                    forall|i: int| 0 <= i < out@.len() ==> #[trigger] element_path_converted(e, ty, element_path@, l0[i], out@[i], rs[i], rs[i + 1], from, to, fuel as nat),
                decreases rest@.len(),
            {
                let ghost k = out@.len() as int;
                let el = rest.remove(0);
                proof {
                    assert(el == l0[k]);
                    assert(rest@ =~= l0.subrange(k + 1, l0.len() as int));
                }
                let ghost r1 = *report;
                let conv = match el {
                    NbtValue::Compound(mut m) => {
                        convert(reg, ty, &mut m, element_path, from, to, report, fuel);
                        NbtValue::Compound(m)
                    },
                    other => other,
                };
                proof {
                    assert(element_path_converted(e, ty, element_path@, l0[k], conv, r1, *report, from, to, fuel as nat));
                }
                let ghost out0 = out@;
                let ghost rs0 = rs;
                out.push(conv);
                proof {
                    rs = rs.push(*report);
                    assert forall|i: int| 0 <= i < out@.len() implies #[trigger] element_path_converted(e, ty, element_path@, l0[i], out@[i], rs[i], rs[i + 1], from, to, fuel as nat) by {
                        if i < k {
                            assert(element_path_converted(e, ty, element_path@, l0[i], out0[i], rs0[i], rs0[i + 1], from, to, fuel as nat));
                        }
                    }
                    lemma_report_grows_trans(r0, r1, *report);
                }
            }
            let ghost l2 = out@;
            let ghost outv = NbtValue::List(out);
            data.set_list(list_path, out);
            proof {
                assert(final(data)@.remove(list_path@) =~= old(data)@.remove(list_path@));
                lemma_replaced_at(old(data)@, mid@, list_path@, outv);
                assert(data@ == old(data)@.insert(list_path@, outv));
                assert(data@[list_path@] == outv);
                assert(outv matches NbtValue::List(v) && v@ == l2);
                assert(list_of(data@, list_path@) == Some(l2));
                assert(forall|i: int| #![trigger l0[i]] 0 <= i < l0.len() ==> element_path_converted(e, ty, element_path@, l0[i], l2[i], rs[i], rs[i + 1], from, to, fuel as nat));
                assert(list_elements_path_converted(e, ty, element_path@, l0, l2, rs, from, to, fuel as nat));
                assert(list_of(old(data)@, list_path@) == Some(l0));
                assert(out@.len() == l0.len());
                assert(rs[l0.len() as int] == *report);
                assert(list_path_converted(e, ty, element_path@, l0, l2, r0, *report, from, to, fuel as nat));
            }
        },
        None => {},
    }
}

/// Convert the value at `data[path]` through a value type (an id string).
pub fn convert_value(reg: &Registry, ty: TypeKey, data: &mut NbtMap, path: &str, from: i32, to: i32)
    ensures
        final(data)@.dom() == old(data)@.dom(),
        final(data)@.remove(path@) == old(data)@.remove(path@),
        match lookup(old(data)@, path@) {
            Some(a) => value_tag_converted(reg.entries@, ty, from, to, a, final(data)@[path@]),
            None => final(data)@ == old(data)@,
        },
{
    match data.take(path) {
        Some(mut v) => {
            convert_value_of(reg, ty, &mut v, from, to);
            data.set(path, v);
            proof {
                assert(final(data)@.remove(path@) =~= old(data)@.remove(path@));
                assert(final(data)@.dom() =~= old(data)@.dom());
            }
        },
        None => {
            proof {
                assert(old(data)@.remove(path@) =~= old(data)@);
            }
        },
    }
}

/// The list at `path` of `d0` converted element by element through the
/// value type `ty`.
pub open spec fn value_list_at_path_converted(e: Seq<Registration>, ty: TypeKey, path: Seq<char>, d0: NbtMap, d1: NbtMap, from: i32, to: i32) -> bool {
    &&& d1@.dom() == d0@.dom()
    &&& d1@.remove(path) == d0@.remove(path)
    &&& match list_of(d0@, path) {
        Some(l) => d1@[path] matches NbtValue::List(l2) && l2@.len() == l.len()
            && forall|i: int| 0 <= i < l.len() ==> value_tag_converted(e, ty, from, to, #[trigger] l[i], l2@[i]),
        None => d1@ == d0@,
    }
}

/// Convert every element of the list at `data[path]` through a value type.
pub fn convert_value_list(reg: &Registry, ty: TypeKey, data: &mut NbtMap, path: &str, from: i32, to: i32)
    ensures
        final(data)@.dom() == old(data)@.dom(),
        final(data)@.remove(path@) == old(data)@.remove(path@),
        match list_of(old(data)@, path@) {
            Some(l) => final(data)@[path@] matches NbtValue::List(l2) && l2@.len() == l.len()
                && forall|i: int| 0 <= i < l.len() ==> value_tag_converted(reg.entries@, ty, from, to, #[trigger] l[i], l2@[i]),
            None => final(data)@ == old(data)@,
        },
        value_list_at_path_converted(reg.entries@, ty, path@, *old(data), *final(data), from, to),
{
    match data.take_list(path) {
        Some(list) => {
            let ghost l0 = list@;
            let mut rest = list;
            let mut out: Vec<NbtValue> = Vec::new();
            while rest.len() > 0
                invariant
                    out@.len() + rest@.len() == l0.len(),
                    rest@ == l0.subrange(out@.len() as int, l0.len() as int),
                    forall|i: int| 0 <= i < out@.len() ==> value_tag_converted(reg.entries@, ty, from, to, #[trigger] l0[i], out@[i]),
                decreases rest@.len(),
            {
                let ghost k = out@.len() as int;
                let mut el = rest.remove(0);
                proof {
                    assert(el == l0[k]);
                    assert(rest@ =~= l0.subrange(k + 1, l0.len() as int));
                }
                convert_value_of(reg, ty, &mut el, from, to);
                out.push(el);
            }
            data.set_list(path, out);
            proof {
                assert(final(data)@.remove(path@) =~= old(data)@.remove(path@));
                assert(final(data)@.dom() =~= old(data)@.dom());
            }
        },
        None => {},
    }
}

/// Each path is a list of item stacks.
pub fn item_lists(paths: &'static [&'static str]) -> (w: Walker)
    ensures
        w == Walker::ItemLists(paths),
{
    Walker::ItemLists(paths)
}

/// Each path is a single item stack.
pub fn items(paths: &'static [&'static str]) -> (w: Walker)
    ensures
        w == Walker::Items(paths),
{
    Walker::Items(paths)
}

/// Each path is a single block entity.
pub fn tile_entities(paths: &'static [&'static str]) -> (w: Walker)
    ensures
        w == Walker::TileEntities(paths),
{
    Walker::TileEntities(paths)
}

/// Each path is a block id.
pub fn block_names(paths: &'static [&'static str]) -> (w: Walker)
    ensures
        w == Walker::BlockNames(paths),
{
    Walker::BlockNames(paths)
}

/// Each path is an item id.
pub fn item_names(paths: &'static [&'static str]) -> (w: Walker)
    ensures
        w == Walker::ItemNames(paths),
{
    Walker::ItemNames(paths)
}

} // verus!
