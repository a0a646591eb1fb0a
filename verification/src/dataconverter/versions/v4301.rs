//! V4301: a mob's equipment fields fold into one `equipment` compound:
//! `body_armor_item` becomes `body`, `saddle` stays `saddle`, the
//! `ArmorItems` list fills feet, legs, chest and head, the `HandItems` list
//! fills mainhand and offhand. Only items with an `id` are kept, and
//! `equipment` is written only when something was kept.

use vstd::prelude::*;
use crate::nbt::{has_entry_key, is_empty_compound, lemma_entries_map_at, list_of, lookup, map_of, NbtMap, NbtValue};
use crate::loss::{appended_at, lemma_appended_chain, lemma_appended_none, lemma_appended_one, report, report_loss, LossEntry, LossKind, LossReport, Severity};
use super::super::registry::{entry, lemma_report_grows_trans, report_grows, Action, Registration, Registry, RegistryBuilder, TypeKey, Walker};
use super::super::dispatch::{Conv, CustomWalker};
use super::super::walker::{convert, lemma_replaced_at, paths_at_converted};
use super::super::registry::{at_path_converted, compound_of};

verus! {

/// This version.
pub const VERSION: i32 = 4301;

/// The slots `ArmorItems` fills, by index.
pub open spec fn armor_slots() -> Seq<Seq<char>> {
    seq!["feet"@, "legs"@, "chest"@, "head"@]
}

/// The slots `HandItems` fills, by index.
pub open spec fn hand_slots() -> Seq<Seq<char>> {
    seq!["mainhand"@, "offhand"@]
}

/// The texts of a list of names.
pub open spec fn slot_views(names: Seq<&'static str>) -> Seq<Seq<char>> {
    names.map_values(|s: &'static str| s@)
}

/// No name occurs twice.
pub open spec fn distinct(ns: Seq<Seq<char>>) -> bool {
    forall|i: int, j: int| 0 <= i < ns.len() && 0 <= j < ns.len() && i != j ==> ns[i] != ns[j]
}

/// An item worth keeping: a compound with an `id`.
pub open spec fn keeps(v: NbtValue) -> bool {
    v matches NbtValue::Compound(m) && m@.dom().contains("id"@)
}

/// `e` with the kept items among the first `n` of `l` under their slot names.
pub open spec fn slots_from(e: Map<Seq<char>, NbtValue>, l: Seq<NbtValue>, names: Seq<Seq<char>>, n: int) -> Map<Seq<char>, NbtValue>
    decreases n,
{
    if n <= 0 {
        e
    } else {
        let e1 = slots_from(e, l, names, n - 1);
        if keeps(l[n - 1]) {
            e1.insert(names[n - 1], l[n - 1])
        } else {
            e1
        }
    }
}

/// `e` with the item at `k` of `d` under `slot`, when it is kept.
pub open spec fn kept_field(e: Map<Seq<char>, NbtValue>, d: Map<Seq<char>, NbtValue>, k: Seq<char>, slot: Seq<char>) -> Map<Seq<char>, NbtValue> {
    match lookup(d, k) {
        Some(v) => if keeps(v) { e.insert(slot, v) } else { e },
        None => e,
    }
}

/// The smaller of two numbers.
pub open spec fn min(a: int, b: int) -> int {
    if a < b { a } else { b }
}

/// `e` with the kept items of the list at `k` of `d` under `names`.
pub open spec fn listed_slots(e: Map<Seq<char>, NbtValue>, d: Map<Seq<char>, NbtValue>, k: Seq<char>, names: Seq<Seq<char>>) -> Map<Seq<char>, NbtValue> {
    match list_of(d, k) {
        Some(l) => slots_from(e, l, names, min(l.len() as int, names.len() as int)),
        None => e,
    }
}

/// The equipment the forward gathers from `d`.
pub open spec fn gathered_equipment(d: Map<Seq<char>, NbtValue>) -> Map<Seq<char>, NbtValue> {
    let e1 = kept_field(Map::empty(), d, "body_armor_item"@, "body"@);
    let e2 = kept_field(e1, d, "saddle"@, "saddle"@);
    listed_slots(listed_slots(e2, d, "ArmorItems"@, armor_slots()), d, "HandItems"@, hand_slots())
}

/// `d` without the legacy equipment fields.
pub open spec fn without_legacy(d: Map<Seq<char>, NbtValue>) -> Map<Seq<char>, NbtValue> {
    d.remove("ArmorItems"@).remove("HandItems"@).remove("body_armor_item"@).remove("saddle"@)
}

/// Put `v` under `slot` when it is kept.
fn move_kept(v: Option<NbtValue>, slot: &str, e: &mut NbtMap)
    ensures
        final(e)@ == match v {
            Some(x) => if keeps(x) { old(e)@.insert(slot@, x) } else { old(e)@ },
            None => old(e)@,
        },
{
    match v {
        Some(NbtValue::Compound(m)) => {
            if m.has_key("id") {
                e.set(slot, NbtValue::Compound(m));
            }
        },
        _ => {},
    }
}

/// Put the kept items among the first entries of `l` under `names`.
fn move_items(l: Vec<NbtValue>, names: &[&'static str], e: &mut NbtMap)
    ensures
        final(e)@ == slots_from(old(e)@, l@, slot_views(names@), min(l@.len() as int, names@.len() as int)),
{
    let ghost l0 = l@;
    let ghost ns = slot_views(names@);
    let n = if l.len() < names.len() { l.len() } else { names.len() };
    let mut rest = l;
    let mut i: usize = 0;
    while i < n
        invariant
            n == min(l0.len() as int, names@.len() as int),
            i <= n,
            rest@ == l0.skip(i as int),
            ns == slot_views(names@),
            e@ == slots_from(old(e)@, l0, ns, i as int),
        decreases n - i,
    {
        let v = rest.remove(0);
        assert(v == l0[i as int]);
        assert(l0.skip(i as int).remove(0) =~= l0.skip(i + 1));
        match v {
            NbtValue::Compound(m) => {
                if m.has_key("id") {
                    e.set(names[i], NbtValue::Compound(m));
                }
            },
            _ => {},
        }
        i = i + 1;
    }
}

/// What [`fold_equipment`] makes of `data_in`.
pub open spec fn fold_equipment_effect(data_in: NbtMap, data_out: NbtMap) -> bool {
    &&& ({
                let e = gathered_equipment(data_in@);
                let base = without_legacy(data_in@);
                if e == Map::<Seq<char>, NbtValue>::empty() {
                    data_out@ == base
                } else {
                    map_of(data_out@, "equipment"@) matches Some(q) && q@ == e
                        && data_out@ == base.insert("equipment"@, data_out@["equipment"@])
                }
            })
}

/// Forward: gather the equipment and drop the legacy fields.
pub fn fold_equipment(data: &mut NbtMap)
    ensures
        ({
            let e = gathered_equipment(old(data)@);
            let base = without_legacy(old(data)@);
            if e == Map::<Seq<char>, NbtValue>::empty() {
                final(data)@ == base
            } else {
                map_of(final(data)@, "equipment"@) matches Some(q) && q@ == e
                    && final(data)@ == base.insert("equipment"@, final(data)@["equipment"@])
            }
        }),
{
    let ghost d0 = data@;
    proof {
        reveal_strlit("body_armor_item");
        reveal_strlit("saddle");
        reveal_strlit("ArmorItems");
        reveal_strlit("HandItems");
        assert("body_armor_item"@[0] != "saddle"@[0]);
        assert("body_armor_item"@[0] != "ArmorItems"@[0]);
        assert("body_armor_item"@[0] != "HandItems"@[0]);
        assert("saddle"@[0] != "ArmorItems"@[0]);
        assert("saddle"@[0] != "HandItems"@[0]);
        assert("ArmorItems"@[0] != "HandItems"@[0]);
    }
    let mut equipment = NbtMap::new();
    let body = data.take("body_armor_item");
    move_kept(body, "body", &mut equipment);
    let saddle = data.take("saddle");
    move_kept(saddle, "saddle", &mut equipment);
    let ghost e2 = equipment@;
    assert(e2 == kept_field(kept_field(Map::empty(), d0, "body_armor_item"@, "body"@), d0, "saddle"@, "saddle"@));
    let armor = data.take("ArmorItems");
    match armor {
        Some(NbtValue::List(l)) => {
            let names: &[&'static str] = &["feet", "legs", "chest", "head"];
            assert(slot_views(names@) =~= armor_slots());
            move_items(l, names, &mut equipment);
        },
        _ => {},
    }
    let ghost e3 = equipment@;
    assert(e3 == listed_slots(e2, d0, "ArmorItems"@, armor_slots()));
    let hands = data.take("HandItems");
    match hands {
        Some(NbtValue::List(l)) => {
            let names: &[&'static str] = &["mainhand", "offhand"];
            assert(slot_views(names@) =~= hand_slots());
            move_items(l, names, &mut equipment);
        },
        _ => {},
    }
    assert(equipment@ == gathered_equipment(d0));
    assert(data@ =~= without_legacy(d0));
    if !equipment.is_empty() {
        data.set_map("equipment", equipment);
    }
}

/// `k` holds something other than a compound.
pub open spec fn bad(e: Map<Seq<char>, NbtValue>, k: Seq<char>) -> bool {
    e.dom().contains(k) && !(e[k] is Compound)
}

/// One of `ns` is present in `e`.
pub open spec fn any_present(e: Map<Seq<char>, NbtValue>, ns: Seq<Seq<char>>) -> bool {
    exists|i: int| 0 <= i < ns.len() && e.dom().contains(#[trigger] ns[i])
}

/// `m` without the keys `s`.
pub open spec fn remove_all(m: Map<Seq<char>, NbtValue>, s: Seq<Seq<char>>) -> Map<Seq<char>, NbtValue>
    decreases s.len(),
{
    if s.len() == 0 {
        m
    } else {
        remove_all(m, s.drop_last()).remove(s.last())
    }
}

/// Why the slot `k` cannot go into the legacy list `dst`.
pub open spec fn slot_message(k: Seq<char>, dst: Seq<char>) -> Seq<char> {
    "equipment."@ + k + " is not an item compound and has no legacy "@ + dst
        + " slot representation; using empty placeholder"@
}

/// What rebuilding the list `dst` from the slots `s` of `m` reports: one
/// loss per slot that holds something other than a compound, in order.
pub open spec fn bad_tags(m: Map<Seq<char>, NbtValue>, s: Seq<Seq<char>>, dst: Seq<char>) -> Seq<(LossKind, Severity, Seq<char>)>
    decreases s.len(),
{
    if s.len() == 0 {
        Seq::empty()
    } else {
        bad_tags(m, s.drop_last(), dst) + if bad(m, s.last()) {
            seq![(LossKind::UnsupportedInTarget, Severity::Loss, slot_message(s.last(), dst))]
        } else {
            Seq::empty()
        }
    }
}

/// Why the key `k` of an equipment compound is dropped: it is no slot.
pub open spec fn leftover_message(k: Seq<char>) -> Seq<char> {
    "equipment."@ + k + " has no pre-4301 legacy slot representation; dropping it"@
}

/// One loss per key of `ks`, in order, each saying it is no slot.
pub open spec fn leftover_tags(ks: Seq<Seq<char>>) -> Seq<(LossKind, Severity, Seq<char>)> {
    ks.map_values(|k: Seq<char>| (LossKind::UnsupportedInTarget, Severity::Loss, leftover_message(k)))
}

/// What `remove_all` keeps.
pub proof fn lemma_remove_all(m: Map<Seq<char>, NbtValue>, s: Seq<Seq<char>>, k: Seq<char>)
    ensures
        remove_all(m, s).dom().contains(k) == (m.dom().contains(k) && !s.contains(k)),
        remove_all(m, s).dom().contains(k) ==> remove_all(m, s)[k] == m[k],
    decreases s.len(),
{
    if s.len() > 0 {
        lemma_remove_all(m, s.drop_last(), k);
        assert(s.contains(k) == (s.drop_last().contains(k) || s.last() == k)) by {
            if s.contains(k) {
                let i = choose|i: int| 0 <= i < s.len() && s[i] == k;
                if i < s.len() - 1 {
                    assert(s.drop_last()[i] == k);
                }
            }
            if s.drop_last().contains(k) {
                let i = choose|i: int| 0 <= i < s.drop_last().len() && s.drop_last()[i] == k;
                assert(s[i] == k);
            }
        }
    }
}

/// The list rebuilt at `k`: one entry per slot name, the slot's compound or
/// an empty compound in its place.
pub open spec fn rebuilt_list(
    before: Map<Seq<char>, NbtValue>,
    after: Map<Seq<char>, NbtValue>,
    e: Map<Seq<char>, NbtValue>,
    ns: Seq<Seq<char>>,
    k: Seq<char>,
) -> bool {
    &&& after == before.insert(k, after[k])
    &&& list_of(after, k) matches Some(l)
    &&& l.len() == ns.len()
    &&& forall|i: int| 0 <= i < ns.len() ==> if lookup(e, ns[i]) matches Some(NbtValue::Compound(_)) {
        #[trigger] l[i] == e[ns[i]]
    } else {
        is_empty_compound(l[i])
    }
}

/// Rebuild the list `dst_path` of `dst` from the slots `names` of `eq`,
/// when any of them is present; a slot that is not a compound is a loss
/// and gets an empty placeholder.
fn rebuild_list(eq: &mut NbtMap, names: &[&'static str], dst_path: &str, dst: &mut NbtMap, rep: &mut LossReport)
    requires
        distinct(slot_views(names@)),
    ensures
        ({
            let ns = slot_views(names@);
            if any_present(old(eq)@, ns) {
                &&& final(eq)@ == remove_all(old(eq)@, ns)
                &&& rebuilt_list(old(dst)@, final(dst)@, old(eq)@, ns, dst_path@)
                &&& appended_at(old(rep).entries@, final(rep).entries@, VERSION, bad_tags(old(eq)@, ns, dst_path@))
            } else {
                &&& final(eq)@ == old(eq)@
                &&& final(dst)@ == old(dst)@
                &&& final(rep).entries@ == old(rep).entries@
            }
        }),
{
    let ghost ns = slot_views(names@);
    let ghost e0 = eq@;
    let mut any = false;
    let mut i: usize = 0;
    while i < names.len()
        invariant
            i <= names@.len(),
            ns == slot_views(names@),
            e0 == eq@,
            any == exists|j: int| 0 <= j < i && eq@.dom().contains(#[trigger] ns[j]),
        decreases names@.len() - i,
    {
        assert(ns[i as int] == names@[i as int]@);
        if eq.has_key(names[i]) {
            any = true;
        }
        proof {
            if !any {
                assert forall|j: int| 0 <= j < i + 1 implies !eq@.dom().contains(#[trigger] ns[j]) by {}
            }
        }
        i = i + 1;
    }
    if !any {
        return;
    }
    let ghost r0 = rep.entries@;
    proof {
        lemma_appended_none(r0, VERSION);
        assert(ns.take(0) =~= Seq::<Seq<char>>::empty());
    }
    let mut list: Vec<NbtValue> = Vec::new();
    let mut i: usize = 0;
    while i < names.len()
        invariant
            i <= names@.len(),
            ns == slot_views(names@),
            distinct(ns),
            eq@ == remove_all(e0, ns.take(i as int)),
            list@.len() == i,
            forall|j: int| 0 <= j < i ==> if lookup(e0, ns[j]) matches Some(NbtValue::Compound(_)) {
                #[trigger] list@[j] == e0[ns[j]]
            } else {
                is_empty_compound(list@[j])
            },
            appended_at(r0, rep.entries@, VERSION, bad_tags(e0, ns.take(i as int), dst_path@)),
        decreases names@.len() - i,
    {
        let ghost before = rep.entries@;
        proof {
            lemma_remove_all(e0, ns.take(i as int), ns[i as int]);
            assert(!ns.take(i as int).contains(ns[i as int])) by {
                if ns.take(i as int).contains(ns[i as int]) {
                    let j = choose|j: int| 0 <= j < i && ns.take(i as int)[j] == ns[i as int];
                    assert(ns[j] == ns[i as int]);
                }
            }
            assert(ns.take(i + 1).drop_last() =~= ns.take(i as int));
        }
        match eq.take(names[i]) {
            Some(NbtValue::Compound(item)) => {
                list.push(NbtValue::Compound(item));
                proof {
                    lemma_appended_none(before, VERSION);
                    lemma_appended_chain(r0, before, rep.entries@, VERSION, bad_tags(e0, ns.take(i as int), dst_path@), Seq::empty());
                    assert(bad_tags(e0, ns.take(i as int), dst_path@) + Seq::<(LossKind, Severity, Seq<char>)>::empty()
                        =~= bad_tags(e0, ns.take(i + 1), dst_path@));
                }
            },
            Some(_) => {
                let mut msg = String::from_str("equipment.");
                msg.append(names[i]);
                msg.append(" is not an item compound and has no legacy ");
                msg.append(dst_path);
                msg.append(" slot representation; using empty placeholder");
                report_loss(rep, VERSION, LossKind::UnsupportedInTarget, Severity::Loss, msg);
                proof {
                    let t = seq![(LossKind::UnsupportedInTarget, Severity::Loss, slot_message(ns[i as int], dst_path@))];
                    lemma_appended_one(before, rep.entries@, VERSION, LossKind::UnsupportedInTarget, Severity::Loss, slot_message(ns[i as int], dst_path@));
                    lemma_appended_chain(r0, before, rep.entries@, VERSION, bad_tags(e0, ns.take(i as int), dst_path@), t);
                    assert(bad_tags(e0, ns.take(i as int), dst_path@) + t =~= bad_tags(e0, ns.take(i + 1), dst_path@));
                }
                list.push(NbtValue::Compound(NbtMap::new()));
            },
            None => {
                list.push(NbtValue::Compound(NbtMap::new()));
                proof {
                    lemma_appended_none(before, VERSION);
                    lemma_appended_chain(r0, before, rep.entries@, VERSION, bad_tags(e0, ns.take(i as int), dst_path@), Seq::empty());
                    assert(bad_tags(e0, ns.take(i as int), dst_path@) + Seq::<(LossKind, Severity, Seq<char>)>::empty()
                        =~= bad_tags(e0, ns.take(i + 1), dst_path@));
                }
            },
        }
        i = i + 1;
    }
    proof {
        assert(ns.take(names@.len() as int) =~= ns);
    }
    dst.set_list(dst_path, list);
    proof {
        let l = list_of(dst@, dst_path@).unwrap();
        assert forall|j: int| 0 <= j < ns.len() implies if lookup(e0, ns[j]) matches Some(NbtValue::Compound(_)) {
            #[trigger] l[j] == e0[ns[j]]
        } else {
            is_empty_compound(l[j])
        } by {}
    }
}

/// The `ArmorItems` step of the reverse.
pub open spec fn armor_rebuilt(d3: Map<Seq<char>, NbtValue>, d4: Map<Seq<char>, NbtValue>, eb: Map<Seq<char>, NbtValue>) -> bool {
    if any_present(eb, armor_slots()) {
        rebuilt_list(d3, d4, eb, armor_slots(), "ArmorItems"@)
    } else {
        d4 == d3
    }
}

/// The legacy fields restored straight from `body` and `saddle`.
pub open spec fn fields_restored(d: Map<Seq<char>, NbtValue>, e: Map<Seq<char>, NbtValue>) -> Map<Seq<char>, NbtValue> {
    let d1 = d.remove("equipment"@);
    let d2 = if lookup(e, "body"@) matches Some(NbtValue::Compound(_)) { d1.insert("body_armor_item"@, e["body"@]) } else { d1 };
    if lookup(e, "saddle"@) matches Some(NbtValue::Compound(_)) { d2.insert("saddle"@, e["saddle"@]) } else { d2 }
}

/// The slots left once the armor slots are taken.
pub open spec fn after_armor(eb: Map<Seq<char>, NbtValue>) -> Map<Seq<char>, NbtValue> {
    if any_present(eb, armor_slots()) { remove_all(eb, armor_slots()) } else { eb }
}

/// Both lists rebuilt from the slots `eb` over `d3`.
pub open spec fn lists_rebuilt(d3: Map<Seq<char>, NbtValue>, eb: Map<Seq<char>, NbtValue>, after: Map<Seq<char>, NbtValue>) -> bool {
    let ea = after_armor(eb);
    exists|d4: Map<Seq<char>, NbtValue>| {
        &&& #[trigger] armor_rebuilt(d3, d4, eb)
        &&& (if any_present(ea, hand_slots()) { rebuilt_list(d4, after, ea, hand_slots(), "HandItems"@) } else { after == d4 })
    }
}

/// The data after the reverse, for an `equipment` compound `e` taken from
/// `d`.
pub open spec fn unfolded(d: Map<Seq<char>, NbtValue>, e: Map<Seq<char>, NbtValue>, after: Map<Seq<char>, NbtValue>) -> bool {
    lists_rebuilt(fields_restored(d, e), e.remove("body"@).remove("saddle"@), after)
}

/// The keys of an `equipment` compound `e` that are no slot at all.
pub open spec fn leftover_keys(e: Map<Seq<char>, NbtValue>) -> Map<Seq<char>, NbtValue> {
    let eb = e.remove("body"@).remove("saddle"@);
    let ea = if any_present(eb, armor_slots()) { remove_all(eb, armor_slots()) } else { eb };
    if any_present(ea, hand_slots()) { remove_all(ea, hand_slots()) } else { ea }
}

/// The slot losses of the reverse, for an `equipment` compound `e`, in
/// order: `body`, `saddle`, the armor slots and the hand slots that are not
/// compounds.
pub open spec fn slot_tags(e: Map<Seq<char>, NbtValue>) -> Seq<(LossKind, Severity, Seq<char>)> {
    let eb = e.remove("body"@).remove("saddle"@);
    let ea = if any_present(eb, armor_slots()) { remove_all(eb, armor_slots()) } else { eb };
    (if bad(e, "body"@) {
        seq![(LossKind::UnsupportedInTarget, Severity::Loss, "equipment.body is not an item compound and has no legacy body_armor_item representation; dropping it"@)]
    } else {
        Seq::empty()
    }) + (if bad(e, "saddle"@) {
        seq![(LossKind::UnsupportedInTarget, Severity::Loss, "equipment.saddle is not an item compound and has no legacy saddle representation; dropping it"@)]
    } else {
        Seq::empty()
    }) + (if any_present(eb, armor_slots()) {
        bad_tags(eb, armor_slots(), "ArmorItems"@)
    } else {
        Seq::empty()
    }) + (if any_present(ea, hand_slots()) {
        bad_tags(ea, hand_slots(), "HandItems"@)
    } else {
        Seq::empty()
    })
}

/// What the reverse reports for an `equipment` compound `e`: the slot
/// losses, then one loss per key that is no slot, each key once (in the
/// compound's own order, which the map does not record).
pub open spec fn unfold_reported(e: Map<Seq<char>, NbtValue>, r: Seq<LossEntry>, r2: Seq<LossEntry>) -> bool {
    exists|ks: Seq<Seq<char>>|
        #![trigger leftover_tags(ks)]
        ks.no_duplicates() && ks.to_set() == leftover_keys(e).dom()
            && appended_at(r, r2, VERSION, slot_tags(e) + leftover_tags(ks))
}

/// Move the slot `k` of `e` to `field` of `d` when it is a compound; a
/// present slot of another kind is a loss.
fn unfold_field(e: &mut NbtMap, k: &str, d: &mut NbtMap, field: &str, rep: &mut LossReport, msg: &str)
    ensures
        final(e)@ == old(e)@.remove(k@),
        final(d)@ == if lookup(old(e)@, k@) matches Some(NbtValue::Compound(_)) {
            old(d)@.insert(field@, old(e)@[k@])
        } else {
            old(d)@
        },
        if bad(old(e)@, k@) {
            crate::loss::one_more_with(old(rep).entries@, final(rep).entries@, VERSION, LossKind::UnsupportedInTarget, Severity::Loss, msg@)
        } else {
            final(rep).entries@ == old(rep).entries@
        },
{
    match e.take(k) {
        Some(NbtValue::Compound(m)) => d.set(field, NbtValue::Compound(m)),
        Some(_) => report(rep, VERSION, LossKind::UnsupportedInTarget, Severity::Loss, msg),
        None => {},
    }
}

/// What [`unfold_equipment`] makes of `data_in` and the report `rep_in`.
pub open spec fn unfold_equipment_effect(data_in: NbtMap, data_out: NbtMap, rep_in: LossReport, rep_out: LossReport) -> bool {
    &&& match lookup(data_in@, "equipment"@) {
                Some(NbtValue::Compound(e)) => unfolded(data_in@, e@, data_out@)
                    && unfold_reported(e@, rep_in.entries@, rep_out.entries@),
                _ => data_out@ == data_in@ && rep_out.entries@ == rep_in.entries@,
            }
}

/// Reverse: unfold `equipment` back into the legacy fields. Missing slots
/// come back as empty compounds, the legacy placeholder; a slot that is not
/// a compound, and a key that is no slot, are losses.
pub fn unfold_equipment(data: &mut NbtMap, rep: &mut LossReport)
    ensures
        match lookup(old(data)@, "equipment"@) {
            Some(NbtValue::Compound(e)) => unfolded(old(data)@, e@, final(data)@)
                && unfold_reported(e@, old(rep).entries@, final(rep).entries@),
            _ => final(data)@ == old(data)@ && final(rep).entries@ == old(rep).entries@,
        },
{
    let mut equipment = match data.take("equipment") {
        Some(NbtValue::Compound(m)) => m,
        Some(other) => {
            data.set("equipment", other);
            proof {
                assert(data@ =~= old(data)@);
            }
            return;
        },
        None => return,
    };
    let ghost e = equipment@;
    let ghost r0 = rep.entries@;
    let ghost t_body: Seq<(LossKind, Severity, Seq<char>)> = if bad(e, "body"@) {
        seq![(LossKind::UnsupportedInTarget, Severity::Loss, "equipment.body is not an item compound and has no legacy body_armor_item representation; dropping it"@)]
    } else {
        Seq::empty()
    };
    unfold_field(
        &mut equipment,
        "body",
        data,
        "body_armor_item",
        rep,
        "equipment.body is not an item compound and has no legacy body_armor_item representation; dropping it",
    );
    let ghost r1 = rep.entries@;
    proof {
        if bad(e, "body"@) {
            lemma_appended_one(r0, r1, VERSION, LossKind::UnsupportedInTarget, Severity::Loss, "equipment.body is not an item compound and has no legacy body_armor_item representation; dropping it"@);
        } else {
            lemma_appended_none(r0, VERSION);
        }
        reveal_strlit("body");
        reveal_strlit("saddle");
        assert("body"@[0] != "saddle"@[0]);
    }
    let ghost t_sad: Seq<(LossKind, Severity, Seq<char>)> = if bad(e, "saddle"@) {
        seq![(LossKind::UnsupportedInTarget, Severity::Loss, "equipment.saddle is not an item compound and has no legacy saddle representation; dropping it"@)]
    } else {
        Seq::empty()
    };
    unfold_field(
        &mut equipment,
        "saddle",
        data,
        "saddle",
        rep,
        "equipment.saddle is not an item compound and has no legacy saddle representation; dropping it",
    );
    let ghost r2 = rep.entries@;
    proof {
        if bad(e, "saddle"@) {
            lemma_appended_one(r1, r2, VERSION, LossKind::UnsupportedInTarget, Severity::Loss, "equipment.saddle is not an item compound and has no legacy saddle representation; dropping it"@);
        } else {
            lemma_appended_none(r1, VERSION);
        }
        lemma_appended_chain(r0, r1, r2, VERSION, t_body, t_sad);
    }
    let ghost d3 = data@;
    let ghost eb = equipment@;
    let armor: &[&'static str] = &["feet", "legs", "chest", "head"];
    proof {
        assert(slot_views(armor@) =~= armor_slots());
        reveal_strlit("feet");
        reveal_strlit("legs");
        reveal_strlit("chest");
        reveal_strlit("head");
        assert("feet"@[0] != "legs"@[0]);
        assert("feet"@[0] != "chest"@[0]);
        assert("feet"@[0] != "head"@[0]);
        assert("legs"@[0] != "chest"@[0]);
        assert("legs"@[0] != "head"@[0]);
        assert("chest"@[0] != "head"@[0]);
        assert(distinct(armor_slots()));
    }
    rebuild_list(&mut equipment, armor, "ArmorItems", data, rep);
    let ghost d4 = data@;
    let ghost r3 = rep.entries@;
    let ghost ea = equipment@;
    let ghost t_armor: Seq<(LossKind, Severity, Seq<char>)> = if any_present(eb, armor_slots()) {
        bad_tags(eb, armor_slots(), "ArmorItems"@)
    } else {
        Seq::empty()
    };
    proof {
        if !any_present(eb, armor_slots()) {
            lemma_appended_none(r2, VERSION);
        }
        lemma_appended_chain(r0, r2, r3, VERSION, t_body + t_sad, t_armor);
    }
    let hands: &[&'static str] = &["mainhand", "offhand"];
    proof {
        assert(slot_views(hands@) =~= hand_slots());
        reveal_strlit("mainhand");
        reveal_strlit("offhand");
        assert("mainhand"@[0] != "offhand"@[0]);
        assert(distinct(hand_slots()));
    }
    rebuild_list(&mut equipment, hands, "HandItems", data, rep);
    let ghost r4 = rep.entries@;
    let ghost t_hand: Seq<(LossKind, Severity, Seq<char>)> = if any_present(ea, hand_slots()) {
        bad_tags(ea, hand_slots(), "HandItems"@)
    } else {
        Seq::empty()
    };
    proof {
        assert(eb == e.remove("body"@).remove("saddle"@));
        assert(ea == if any_present(eb, armor_slots()) { remove_all(eb, armor_slots()) } else { eb });
        assert(if any_present(ea, hand_slots()) { rebuilt_list(d4, data@, ea, hand_slots(), "HandItems"@) } else { data@ == d4 });
        assert(d3 == fields_restored(old(data)@, e));
        assert(ea == after_armor(eb));
        assert(armor_rebuilt(d3, d4, eb));
        assert(lists_rebuilt(d3, eb, data@));
        assert(unfolded(old(data)@, e, data@));
        if !any_present(ea, hand_slots()) {
            lemma_appended_none(r3, VERSION);
        }
        lemma_appended_chain(r0, r3, r4, VERSION, t_body + t_sad + t_armor, t_hand);
        assert(t_body + t_sad + t_armor + t_hand == slot_tags(e));
    }
    let ghost eh = equipment@;
    let rest = equipment.into_entries();
    let ghost ks = rest@.map_values(|p: (String, NbtValue)| p.0@);
    proof {
        lemma_appended_none(r4, VERSION);
        assert(ks.take(0) =~= Seq::<Seq<char>>::empty());
        assert(leftover_tags(ks.take(0)) =~= Seq::<(LossKind, Severity, Seq<char>)>::empty());
    }
    let mut i: usize = 0;
    while i < rest.len()
        invariant
            i <= rest@.len(),
            ks == rest@.map_values(|p: (String, NbtValue)| p.0@),
            appended_at(r4, rep.entries@, VERSION, leftover_tags(ks.take(i as int))),
        decreases rest@.len() - i,
    {
        let ghost before = rep.entries@;
        let mut msg = String::from_str("equipment.");
        msg.append(rest[i].0.as_str());
        msg.append(" has no pre-4301 legacy slot representation; dropping it");
        report_loss(rep, VERSION, LossKind::UnsupportedInTarget, Severity::Loss, msg);
        proof {
            let t = seq![(LossKind::UnsupportedInTarget, Severity::Loss, leftover_message(ks[i as int]))];
            lemma_appended_one(before, rep.entries@, VERSION, LossKind::UnsupportedInTarget, Severity::Loss, leftover_message(ks[i as int]));
            lemma_appended_chain(r4, before, rep.entries@, VERSION, leftover_tags(ks.take(i as int)), t);
            assert(leftover_tags(ks.take(i as int)) + t =~= leftover_tags(ks.take(i + 1)));
        }
        i = i + 1;
    }
    proof {
        assert(ks.take(rest@.len() as int) =~= ks);
        lemma_appended_chain(r0, r4, rep.entries@, VERSION, slot_tags(e), leftover_tags(ks));
        assert(ks.no_duplicates()) by {
            assert forall|a: int, b: int| 0 <= a < ks.len() && 0 <= b < ks.len() && a != b implies ks[a] != ks[b] by {
                assert(ks[a] == rest@[a].0@ && ks[b] == rest@[b].0@);
            }
        }
        assert(eh == leftover_keys(e));
        assert(ks.to_set() =~= leftover_keys(e).dom()) by {
            assert forall|k: Seq<char>| ks.to_set().contains(k) implies leftover_keys(e).dom().contains(k) by {
                let a = choose|a: int| 0 <= a < ks.len() && ks[a] == k;
                lemma_entries_map_at(rest@, a);
            }
            assert forall|k: Seq<char>| leftover_keys(e).dom().contains(k) implies ks.to_set().contains(k) by {
                assert(has_entry_key(rest@, k));
                let a = choose|a: int| 0 <= a < rest@.len() && (#[trigger] rest@[a]).0@ == k;
                assert(ks[a] == k);
            }
        }
        assert(leftover_tags(ks) == leftover_tags(ks));
    }
}

/// The equipment slots an entity's `equipment` compound holds.
pub open spec fn equipment_slots() -> Seq<&'static str> {
    seq!["mainhand", "offhand", "feet", "legs", "chest", "head", "body", "saddle"]
}

/// What the equipment walker makes of an entity: each slot of its
/// `equipment` compound converted as an item stack, in order.
pub open spec fn equipment_walked(e: Seq<Registration>, d0: NbtMap, d1: NbtMap, r0: LossReport, r1: LossReport, from: i32, to: i32, fuel: nat) -> bool
    decreases fuel, 8int, 0int,
{
    match map_of(d0@, "equipment"@) {
        None => d1@ == d0@ && r1 == r0,
        Some(q) => exists|q2: NbtMap| #![trigger compound_of(q2)]
            paths_at_converted(e, TypeKey::ItemStack, equipment_slots(), q, q2, r0, r1, from, to, fuel)
                && d1@ == d0@.insert("equipment"@, compound_of(q2)),
    }
}

/// The equipment walker: each slot of `equipment` is an item stack.
pub fn walk_equipment(reg: &Registry, data: &mut NbtMap, from: i32, to: i32, report: &mut LossReport, fuel: u32)
    requires
        fuel > 0,
    ensures
        report_grows(*old(report), *final(report)),
        equipment_walked(reg.entries@, *old(data), *final(data), *old(report), *final(report), from, to, fuel as nat),
    decreases fuel, 3int,
{
    let ghost r0 = *report;
    let ghost e = reg.entries@;
    match data.take_map("equipment") {
        Some(mut equipment) => {
            let ghost mid = *data;
            let ghost q0 = equipment;
            let slots: &[&'static str] = &["mainhand", "offhand", "feet", "legs", "chest", "head", "body", "saddle"];
            proof {
                assert(slots@ == equipment_slots());
            }
            let ghost mut ds: Seq<NbtMap> = seq![equipment];
            let ghost mut rs: Seq<LossReport> = seq![*report];
            let mut i: usize = 0;
            while i < slots.len()
                invariant
                    i <= slots@.len(),
                    slots@ == equipment_slots(),
                    e == reg.entries@,
                    fuel > 0,
                    report_grows(r0, *report),
                    ds.len() == i + 1,
                    rs.len() == i + 1,
                    ds[0] == q0,
                    rs[0] == r0,
                    ds[i as int] == equipment,
                    rs[i as int] == *report,
                    forall|j: int| 0 <= j < i ==> #[trigger] at_path_converted(e, TypeKey::ItemStack, equipment_slots()[j]@, ds[j], ds[j + 1], rs[j], rs[j + 1], from, to, fuel as nat),
                decreases slots@.len() - i,
            {
                let ghost r1 = *report;
                let ghost before = equipment;
                convert(reg, TypeKey::ItemStack, &mut equipment, slots[i], from, to, report, fuel);
                proof {
                    lemma_report_grows_trans(r0, r1, *report);
                    let ds2 = ds.push(equipment);
                    let rs2 = rs.push(*report);
                    assert forall|j: int| 0 <= j < i + 1 implies #[trigger] at_path_converted(e, TypeKey::ItemStack, equipment_slots()[j]@, ds2[j], ds2[j + 1], rs2[j], rs2[j + 1], from, to, fuel as nat) by {
                        if j < i {
                            assert(at_path_converted(e, TypeKey::ItemStack, equipment_slots()[j]@, ds[j], ds[j + 1], rs[j], rs[j + 1], from, to, fuel as nat));
                            assert(ds2[j] == ds[j] && ds2[j + 1] == ds[j + 1] && rs2[j] == rs[j] && rs2[j + 1] == rs[j + 1]);
                        } else {
                            assert(ds2[j] == before && ds2[j + 1] == equipment && rs2[j] == r1 && rs2[j + 1] == *report);
                        }
                    }
                    ds = ds2;
                    rs = rs2;
                }
                i = i + 1;
            }
            let ghost q1 = equipment;
            data.set_map("equipment", equipment);
            proof {
                lemma_replaced_at(old(data)@, mid@, "equipment"@, NbtValue::Compound(q1));
                assert(compound_of(q1) == NbtValue::Compound(q1));
                assert(ds.len() == equipment_slots().len() + 1);
                assert(forall|j: int| #![trigger ds[j]] 0 <= j < equipment_slots().len() ==> at_path_converted(e, TypeKey::ItemStack, equipment_slots()[j]@, ds[j], ds[j + 1], rs[j], rs[j + 1], from, to, fuel as nat));
                assert(paths_at_converted(e, TypeKey::ItemStack, equipment_slots(), q0, q1, r0, *report, from, to, fuel as nat));
            }
        },
        None => {},
    }
}

/// What this version registers.
pub open spec fn registrations() -> Seq<Registration> {
    seq![
        entry(TypeKey::EntityEquipment, VERSION, 0, Action::Convert(Conv::V4301FoldEquipment)),
        entry(TypeKey::EntityEquipment, VERSION, 0, Action::Revert(Conv::V4301UnfoldEquipment)),
        entry(TypeKey::EntityEquipment, VERSION, 0, Action::WalkAll(Walker::Custom(CustomWalker::V4301Equipment))),
    ]
}

/// Register this version's converters and walker.
pub fn register(reg: &mut RegistryBuilder)
    ensures
        final(reg).entries@ == old(reg).entries@ + registrations(),
{
    reg.add(TypeKey::EntityEquipment, VERSION, 0, Action::Convert(Conv::V4301FoldEquipment));
    reg.add(TypeKey::EntityEquipment, VERSION, 0, Action::Revert(Conv::V4301UnfoldEquipment));
    reg.add(TypeKey::EntityEquipment, VERSION, 0, Action::WalkAll(Walker::Custom(CustomWalker::V4301Equipment)));
    proof {
        assert(final(reg).entries@ =~= old(reg).entries@ + registrations());
    }
}

} // verus!
