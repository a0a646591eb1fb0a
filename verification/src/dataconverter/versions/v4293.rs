//! V4293: an entity's per-slot drop chance lists (`ArmorDropChances`,
//! `HandDropChances`) and `body_armor_drop_chance` become one
//! `drop_chances` compound holding the chances that differ from the
//! default 0.085.

use vstd::prelude::*;
use crate::nbt::{is_number, list_of, lookup, map_of, reads_f64, NbtMap, NbtValue};
use crate::float::{f32_eq, f32_equal, f64_to_f32_bits, narrows_to};
use super::super::registry::{entry, Action, Registration, RegistryBuilder, TypeKey};
use super::super::dispatch::Conv;

verus! {

/// This version.
pub const VERSION: i32 = 4293;

/// The default drop chance, 0.085, as binary32 bits.
pub const DEFAULT_CHANCE: u32 = 0x3DAE_147B;

/// `c` is the chance a tag gives: a number narrowed to a float, else the
/// default.
pub open spec fn chance_rel(v: Option<NbtValue>, c: u32) -> bool {
    match v {
        Some(t) => if is_number(t) {
            exists|x: u64| #[trigger] reads_f64(t, x) && narrows_to(x, c)
        } else {
            c == DEFAULT_CHANCE
        },
        None => c == DEFAULT_CHANCE,
    }
}

/// The chance a tag gives.
fn read_chance(v: Option<&NbtValue>) -> (c: u32)
    ensures
        chance_rel(
            match v {
                Some(t) => Some(*t),
                None => None,
            },
            c,
        ),
{
    match v {
        Some(t) => match crate::nbt::value_as_f64(t) {
            Some(x) => f64_to_f32_bits(x),
            None => DEFAULT_CHANCE,
        },
        None => DEFAULT_CHANCE,
    }
}

/// The element at `i` of the list at `path`, if there is one.
pub open spec fn list_slot(m: Map<Seq<char>, NbtValue>, path: Seq<char>, i: int) -> Option<NbtValue> {
    match list_of(m, path) {
        Some(l) => if 0 <= i < l.len() {
            Some(l[i])
        } else {
            None
        },
        None => None,
    }
}

/// The element at `i` of the list at `path`, if there is one.
fn list_elem<'a>(m: &'a NbtMap, path: &str, i: usize) -> (r: Option<&'a NbtValue>)
    ensures
        match r {
            Some(t) => list_slot(m@, path@, i as int) == Some(*t),
            None => list_slot(m@, path@, i as int) is None,
        },
{
    match m.get_list(path) {
        Some(l) => if i < l.len() {
            Some(&l[i])
        } else {
            None
        },
        None => None,
    }
}

/// `d` holds the chance `v` gives at `name` where it differs from the
/// default, and nothing at `name` where it does not.
pub open spec fn slot_collected(v: Option<NbtValue>, d: Map<Seq<char>, NbtValue>, name: Seq<char>) -> bool {
    exists|c: u32|
        #[trigger] chance_rel(v, c) && if f32_equal(c, DEFAULT_CHANCE) {
            !d.dom().contains(name)
        } else {
            d.dom().contains(name) && d[name] == NbtValue::Float(c)
        }
}

/// Put the chance `v` gives at `name` where it differs from the default.
fn collect_slot(d: &mut NbtMap, v: Option<&NbtValue>, name: &str)
    requires
        !old(d)@.dom().contains(name@),
    ensures
        slot_collected(
            match v {
                Some(t) => Some(*t),
                None => None,
            },
            final(d)@,
            name@,
        ),
        final(d)@.remove(name@) == old(d)@,
        forall|k: Seq<char>|
            k != name@ ==> (#[trigger] final(d)@.dom().contains(k) == old(d)@.dom().contains(k) && final(d)@[k]
                == old(d)@[k]),
{
    let c = read_chance(v);
    if !f32_eq(c, DEFAULT_CHANCE) {
        d.set_f32_bits(name, c);
    }
    proof {
        assert(final(d)@.remove(name@) =~= old(d)@);
    }
}

/// The drop chance slot keys are distinct from one another and from the
/// entity fields.
proof fn lemma_slot_keys()
    ensures
        "feet"@ != "legs"@,
        "feet"@ != "chest"@,
        "feet"@ != "head"@,
        "feet"@ != "mainhand"@,
        "feet"@ != "offhand"@,
        "feet"@ != "body"@,
        "legs"@ != "chest"@,
        "legs"@ != "head"@,
        "legs"@ != "mainhand"@,
        "legs"@ != "offhand"@,
        "legs"@ != "body"@,
        "chest"@ != "head"@,
        "chest"@ != "mainhand"@,
        "chest"@ != "offhand"@,
        "chest"@ != "body"@,
        "head"@ != "mainhand"@,
        "head"@ != "offhand"@,
        "head"@ != "body"@,
        "mainhand"@ != "offhand"@,
        "mainhand"@ != "body"@,
        "offhand"@ != "body"@,
        "ArmorDropChances"@ != "HandDropChances"@,
        "ArmorDropChances"@ != "body_armor_drop_chance"@,
        "ArmorDropChances"@ != "drop_chances"@,
        "HandDropChances"@ != "body_armor_drop_chance"@,
        "HandDropChances"@ != "drop_chances"@,
        "body_armor_drop_chance"@ != "drop_chances"@,
{
    reveal_strlit("feet");
    reveal_strlit("legs");
    reveal_strlit("chest");
    reveal_strlit("head");
    reveal_strlit("mainhand");
    reveal_strlit("offhand");
    reveal_strlit("body");
    reveal_strlit("ArmorDropChances");
    reveal_strlit("HandDropChances");
    reveal_strlit("body_armor_drop_chance");
    reveal_strlit("drop_chances");
    assert("feet"@[0] != "legs"@[0]);
    assert("feet"@[0] != "chest"@[0]);
    assert("feet"@[0] != "head"@[0]);
    assert("feet"@[0] != "mainhand"@[0]);
    assert("feet"@[0] != "offhand"@[0]);
    assert("feet"@[0] != "body"@[0]);
    assert("legs"@[0] != "chest"@[0]);
    assert("legs"@[0] != "head"@[0]);
    assert("legs"@[0] != "mainhand"@[0]);
    assert("legs"@[0] != "offhand"@[0]);
    assert("legs"@[0] != "body"@[0]);
    assert("chest"@[0] != "head"@[0]);
    assert("chest"@[0] != "mainhand"@[0]);
    assert("chest"@[0] != "offhand"@[0]);
    assert("chest"@[0] != "body"@[0]);
    assert("head"@[0] != "mainhand"@[0]);
    assert("head"@[0] != "offhand"@[0]);
    assert("head"@[0] != "body"@[0]);
    assert("mainhand"@[0] != "offhand"@[0]);
    assert("mainhand"@[0] != "body"@[0]);
    assert("offhand"@[0] != "body"@[0]);
    assert("ArmorDropChances"@[0] != "HandDropChances"@[0]);
    assert("ArmorDropChances"@[0] != "body_armor_drop_chance"@[0]);
    assert("ArmorDropChances"@[0] != "drop_chances"@[0]);
    assert("HandDropChances"@[0] != "body_armor_drop_chance"@[0]);
    assert("HandDropChances"@[0] != "drop_chances"@[0]);
    assert("body_armor_drop_chance"@[0] != "drop_chances"@[0]);
}

/// `d` is the drop chances collected from entity `m`: each armor, hand and
/// body chance that differs from the default, under its slot name, and
/// nothing else.
pub open spec fn chances_collected(m: Map<Seq<char>, NbtValue>, d: Map<Seq<char>, NbtValue>) -> bool {
    &&& d.dom().subset_of(set!["feet"@, "legs"@, "chest"@, "head"@, "mainhand"@, "offhand"@, "body"@])
    &&& slot_collected(list_slot(m, "ArmorDropChances"@, 0), d, "feet"@)
    &&& slot_collected(list_slot(m, "ArmorDropChances"@, 1), d, "legs"@)
    &&& slot_collected(list_slot(m, "ArmorDropChances"@, 2), d, "chest"@)
    &&& slot_collected(list_slot(m, "ArmorDropChances"@, 3), d, "head"@)
    &&& slot_collected(list_slot(m, "HandDropChances"@, 0), d, "mainhand"@)
    &&& slot_collected(list_slot(m, "HandDropChances"@, 1), d, "offhand"@)
    &&& slot_collected(lookup(m, "body_armor_drop_chance"@), d, "body"@)
}

/// The entity after the forward change: the three fields removed, and the
/// collected chances at `drop_chances` where there are any.
pub open spec fn chances_moved(old: Map<Seq<char>, NbtValue>, new: Map<Seq<char>, NbtValue>) -> bool {
    exists|d: Map<Seq<char>, NbtValue>|
        #[trigger] chances_collected(old, d) && {
            &&& new.remove("drop_chances"@) == old.remove("ArmorDropChances"@).remove("HandDropChances"@).remove(
                "body_armor_drop_chance"@,
            ).remove("drop_chances"@)
            &&& if d.dom().len() > 0 {
                map_of(new, "drop_chances"@) matches Some(c) && c@ == d
            } else {
                lookup(new, "drop_chances"@) == lookup(old, "drop_chances"@)
            }
        }
}

/// What [`collect_drop_chances`] makes of `data_in`.
pub open spec fn collect_drop_chances_effect(data_in: NbtMap, data_out: NbtMap) -> bool {
    &&& chances_moved(data_in@, data_out@)
}

/// Forward on an entity.
pub fn collect_drop_chances(data: &mut NbtMap)
    ensures
        chances_moved(old(data)@, final(data)@),
{
    proof {
        lemma_slot_keys();
    }
    let mut d = NbtMap::new();
    collect_slot(&mut d, list_elem(data, "ArmorDropChances", 0), "feet");
    let ghost d1 = d@;
    collect_slot(&mut d, list_elem(data, "ArmorDropChances", 1), "legs");
    let ghost d2 = d@;
    collect_slot(&mut d, list_elem(data, "ArmorDropChances", 2), "chest");
    let ghost d3 = d@;
    collect_slot(&mut d, list_elem(data, "ArmorDropChances", 3), "head");
    let ghost d4 = d@;
    collect_slot(&mut d, list_elem(data, "HandDropChances", 0), "mainhand");
    let ghost d5 = d@;
    collect_slot(&mut d, list_elem(data, "HandDropChances", 1), "offhand");
    let ghost d6 = d@;
    collect_slot(&mut d, data.get("body_armor_drop_chance"), "body");
    let ghost m0 = data@;
    data.take("ArmorDropChances");
    data.take("HandDropChances");
    data.take("body_armor_drop_chance");
    let ghost m1 = data@;
    let nonempty = !d.is_empty();
    let ghost dd = d@;
    if nonempty {
        data.set_map("drop_chances", d);
    }
    proof {
        assert(dd.remove("body"@).remove("offhand"@).remove("mainhand"@).remove("head"@).remove("chest"@).remove(
            "legs"@,
        ).remove("feet"@) =~= Map::<Seq<char>, NbtValue>::empty());
        assert(dd.dom().subset_of(set!["feet"@, "legs"@, "chest"@, "head"@, "mainhand"@, "offhand"@, "body"@])) by {
            assert forall|k: Seq<char>| dd.dom().contains(k) implies set![
                "feet"@,
                "legs"@,
                "chest"@,
                "head"@,
                "mainhand"@,
                "offhand"@,
                "body"@,
            ].contains(k) by {
                if k != "feet"@ && k != "legs"@ && k != "chest"@ && k != "head"@ && k != "mainhand"@ && k
                    != "offhand"@ && k != "body"@ {
                    assert(dd.remove("body"@).remove("offhand"@).remove("mainhand"@).remove("head"@).remove(
                        "chest"@,
                    ).remove("legs"@).remove("feet"@).dom().contains(k));
                }
            }
        }
        assert(chances_collected(old(data)@, dd));
        assert(data@.remove("drop_chances"@) =~= old(data)@.remove("ArmorDropChances"@).remove(
            "HandDropChances"@,
        ).remove("body_armor_drop_chance"@).remove("drop_chances"@));
        if !nonempty {
            assert(lookup(data@, "drop_chances"@) == lookup(old(data)@, "drop_chances"@)) by {
                assert(m1.remove("drop_chances"@) =~= m0.remove("ArmorDropChances"@).remove("HandDropChances"@).remove(
                    "body_armor_drop_chance"@,
                ).remove("drop_chances"@));
                assert(m1.dom().contains("drop_chances"@) == m0.dom().contains("drop_chances"@));
            }
        }
    }
}

/// The armor slot names, in list order.
pub open spec fn armor_slots() -> Seq<&'static str> {
    seq!["feet", "legs", "chest", "head"]
}

/// The hand slot names, in list order.
pub open spec fn hand_slots() -> Seq<&'static str> {
    seq!["mainhand", "offhand"]
}

/// The armor slot names, in list order.
fn armor_slot_table() -> (t: &'static [&'static str])
    ensures
        t@ == armor_slots(),
{
    &["feet", "legs", "chest", "head"]
}

/// The hand slot names, in list order.
fn hand_slot_table() -> (t: &'static [&'static str])
    ensures
        t@ == hand_slots(),
{
    &["mainhand", "offhand"]
}

/// `t` is the float the drop chances `d` give for slot `name`.
pub open spec fn elem_rebuilt(d: Map<Seq<char>, NbtValue>, name: &'static str, t: NbtValue) -> bool {
    exists|c: u32| #[trigger] chance_rel(lookup(d, name@), c) && t == NbtValue::Float(c)
}

/// `new` holds at `path` the list of the chances `d` gives for `names`
/// (the default where `d` has none), where `d` names any of them; else
/// `path` is as in `old`.
pub open spec fn rebuilt(
    d: Map<Seq<char>, NbtValue>,
    old: Map<Seq<char>, NbtValue>,
    new: Map<Seq<char>, NbtValue>,
    path: Seq<char>,
    names: Seq<&'static str>,
) -> bool {
    if forall|i: int| 0 <= i < names.len() ==> !d.dom().contains(#[trigger] names[i]@) {
        lookup(new, path) == lookup(old, path)
    } else {
        match list_of(new, path) {
            Some(l) => l.len() == names.len() && forall|i: int|
                0 <= i < names.len() ==> #[trigger] elem_rebuilt(d, names[i], l[i]),
            None => false,
        }
    }
}

/// Write at `dst_path` the list of the chances `src` gives for `names`,
/// where `src` names any of them.
fn reverse_drop_chances(src: &NbtMap, names: &'static [&'static str], dst: &mut NbtMap, dst_path: &str)
    ensures
        rebuilt(src@, old(dst)@, final(dst)@, dst_path@, names@),
        final(dst)@.remove(dst_path@) == old(dst)@.remove(dst_path@),
{
    let mut any = false;
    let mut i: usize = 0;
    while i < names.len()
        invariant
            i <= names@.len(),
            any == exists|j: int| 0 <= j < i && src@.dom().contains(#[trigger] names@[j]@),
        decreases names@.len() - i,
    {
        if src.get(names[i]).is_some() {
            any = true;
        }
        i = i + 1;
    }
    if !any {
        proof {
            assert(final(dst)@.remove(dst_path@) =~= old(dst)@.remove(dst_path@));
        }
        return ;
    }
    let mut list: Vec<NbtValue> = Vec::new();
    let mut k: usize = 0;
    while k < names.len()
        invariant
            k <= names@.len(),
            list@.len() == k,
            forall|j: int| 0 <= j < k ==> #[trigger] elem_rebuilt(src@, names@[j], list@[j]),
        decreases names@.len() - k,
    {
        let c = read_chance(src.get(names[k]));
        list.push(NbtValue::Float(c));
        proof {
            assert(elem_rebuilt(src@, names@[k as int], list@[k as int]));
        }
        k = k + 1;
    }
    let ghost mid = dst@;
    dst.set_list(dst_path, list);
    proof {
        assert(dst@.remove(dst_path@) =~= mid.remove(dst_path@));
    }
}

/// The entity after the reverse change: a `drop_chances` compound spread
/// back into the armor and hand lists (the default filling slots it does
/// not name) and the body chance.
pub open spec fn chances_spread(old: Map<Seq<char>, NbtValue>, new: Map<Seq<char>, NbtValue>) -> bool {
    match lookup(old, "drop_chances"@) {
        Some(NbtValue::Compound(m)) => {
            let base = old.remove("drop_chances"@);
            &&& !new.dom().contains("drop_chances"@)
            &&& new.remove("ArmorDropChances"@).remove("HandDropChances"@).remove("body_armor_drop_chance"@)
                == base.remove("ArmorDropChances"@).remove("HandDropChances"@).remove("body_armor_drop_chance"@)
            &&& rebuilt(m@, base, new, "ArmorDropChances"@, armor_slots())
            &&& rebuilt(m@, base, new, "HandDropChances"@, hand_slots())
            &&& match lookup(m@, "body"@) {
                Some(v) => if is_number(v) {
                    match lookup(new, "body_armor_drop_chance"@) {
                        Some(NbtValue::Float(n)) => exists|x: u64| #[trigger] reads_f64(v, x) && narrows_to(x, n),
                        _ => false,
                    }
                } else {
                    lookup(new, "body_armor_drop_chance"@) == lookup(base, "body_armor_drop_chance"@)
                },
                None => lookup(new, "body_armor_drop_chance"@) == lookup(base, "body_armor_drop_chance"@),
            }
        },
        _ => new == old,
    }
}

/// What [`spread_drop_chances`] makes of `data_in`.
pub open spec fn spread_drop_chances_effect(data_in: NbtMap, data_out: NbtMap) -> bool {
    &&& chances_spread(data_in@, data_out@)
}

/// Reverse on an entity.
pub fn spread_drop_chances(data: &mut NbtMap)
    ensures
        chances_spread(old(data)@, final(data)@),
{
    proof {
        lemma_slot_keys();
    }
    let dc = match data.take("drop_chances") {
        Some(NbtValue::Compound(m)) => m,
        Some(other) => {
            data.set("drop_chances", other);
            proof {
                assert(data@ =~= old(data)@);
            }
            return ;
        },
        None => {
            proof {
                assert(data@ =~= old(data)@);
            }
            return ;
        },
    };
    let ghost base = data@;
    reverse_drop_chances(&dc, armor_slot_table(), data, "ArmorDropChances");
    let ghost m1 = data@;
    reverse_drop_chances(&dc, hand_slot_table(), data, "HandDropChances");
    let ghost m2 = data@;
    proof {
        assert(lookup(m2, "ArmorDropChances"@) == lookup(m1, "ArmorDropChances"@)) by {
            assert(m2.remove("HandDropChances"@).dom().contains("ArmorDropChances"@) == m2.dom().contains("ArmorDropChances"@));
            assert(m1.remove("HandDropChances"@).dom().contains("ArmorDropChances"@) == m1.dom().contains("ArmorDropChances"@));
            assert(m2.remove("HandDropChances"@)["ArmorDropChances"@] == m2["ArmorDropChances"@]);
            assert(m1.remove("HandDropChances"@)["ArmorDropChances"@] == m1["ArmorDropChances"@]);
        }
        assert(lookup(m1, "HandDropChances"@) == lookup(base, "HandDropChances"@)) by {
            assert(m1.remove("ArmorDropChances"@).dom().contains("HandDropChances"@) == m1.dom().contains("HandDropChances"@));
            assert(base.remove("ArmorDropChances"@).dom().contains("HandDropChances"@) == base.dom().contains("HandDropChances"@));
            assert(m1.remove("ArmorDropChances"@)["HandDropChances"@] == m1["HandDropChances"@]);
            assert(base.remove("ArmorDropChances"@)["HandDropChances"@] == base["HandDropChances"@]);
        }
        assert(lookup(m2, "body_armor_drop_chance"@) == lookup(base, "body_armor_drop_chance"@)) by {
            assert(m2.remove("HandDropChances"@).remove("ArmorDropChances"@) =~= m1.remove("HandDropChances"@).remove("ArmorDropChances"@));
            assert(m1.remove("HandDropChances"@).remove("ArmorDropChances"@) =~= m1.remove("ArmorDropChances"@).remove("HandDropChances"@));
            assert(m1.remove("ArmorDropChances"@).remove("HandDropChances"@) =~= base.remove("ArmorDropChances"@).remove("HandDropChances"@));
            assert(base.remove("ArmorDropChances"@).remove("HandDropChances"@) =~= base.remove("HandDropChances"@).remove("ArmorDropChances"@));
            assert(m2.remove("HandDropChances"@).remove("ArmorDropChances"@) =~= base.remove("HandDropChances"@).remove("ArmorDropChances"@));
            assert(m2.remove("HandDropChances"@).remove("ArmorDropChances"@).dom().contains("body_armor_drop_chance"@) == m2.dom().contains("body_armor_drop_chance"@));
            assert(base.remove("HandDropChances"@).remove("ArmorDropChances"@).dom().contains("body_armor_drop_chance"@) == base.dom().contains("body_armor_drop_chance"@));
            assert(m2.remove("HandDropChances"@).remove("ArmorDropChances"@)["body_armor_drop_chance"@] == m2["body_armor_drop_chance"@]);
            assert(base.remove("HandDropChances"@).remove("ArmorDropChances"@)["body_armor_drop_chance"@] == base["body_armor_drop_chance"@]);
        }
    }
    let body = match dc.get("body") {
        Some(v) => crate::nbt::value_as_f64(v),
        None => None,
    };
    match body {
        Some(x) => {
            data.set("body_armor_drop_chance", NbtValue::Float(f64_to_f32_bits(x)));
        },
        None => {},
    }
    proof {
        assert(data@.remove("body_armor_drop_chance"@) =~= m2.remove("body_armor_drop_chance"@));
        assert(m2.remove("HandDropChances"@).remove("ArmorDropChances"@) =~= m1.remove("HandDropChances"@).remove("ArmorDropChances"@));
        assert(m1.remove("HandDropChances"@).remove("ArmorDropChances"@) =~= m1.remove("ArmorDropChances"@).remove("HandDropChances"@));
        assert(m1.remove("ArmorDropChances"@).remove("HandDropChances"@) =~= base.remove("ArmorDropChances"@).remove("HandDropChances"@));
        assert(base.remove("ArmorDropChances"@).remove("HandDropChances"@) =~= base.remove("HandDropChances"@).remove("ArmorDropChances"@));
        assert(data@.remove("ArmorDropChances"@).remove("HandDropChances"@).remove("body_armor_drop_chance"@)
            =~= m2.remove("body_armor_drop_chance"@).remove("HandDropChances"@).remove("ArmorDropChances"@));
        assert(m2.remove("body_armor_drop_chance"@).remove("HandDropChances"@).remove("ArmorDropChances"@)
            =~= m2.remove("HandDropChances"@).remove("ArmorDropChances"@).remove("body_armor_drop_chance"@));
        assert(base.remove("HandDropChances"@).remove("ArmorDropChances"@).remove("body_armor_drop_chance"@)
            =~= base.remove("ArmorDropChances"@).remove("HandDropChances"@).remove("body_armor_drop_chance"@));
        assert(data@.remove("ArmorDropChances"@).remove("HandDropChances"@).remove("body_armor_drop_chance"@)
            =~= base.remove("ArmorDropChances"@).remove("HandDropChances"@).remove("body_armor_drop_chance"@));
        assert(!data@.dom().contains("drop_chances"@)) by {
            assert(!base.dom().contains("drop_chances"@));
            assert(base.remove("ArmorDropChances"@).remove("HandDropChances"@).remove("body_armor_drop_chance"@).dom().contains("drop_chances"@) == base.dom().contains("drop_chances"@));
            assert(data@.remove("ArmorDropChances"@).remove("HandDropChances"@).remove("body_armor_drop_chance"@).dom().contains("drop_chances"@) == data@.dom().contains("drop_chances"@));
        }
        assert(lookup(data@, "ArmorDropChances"@) == lookup(m2, "ArmorDropChances"@));
        assert(lookup(data@, "HandDropChances"@) == lookup(m2, "HandDropChances"@));
    }
}

/// What this version registers.
pub open spec fn registrations() -> Seq<Registration> {
    seq![
        entry(TypeKey::Entity, VERSION, 0, Action::Convert(Conv::V4293CollectDropChances)),
        entry(TypeKey::Entity, VERSION, 0, Action::Revert(Conv::V4293SpreadDropChances)),
    ]
}

/// Register this version's converters.
pub fn register(reg: &mut RegistryBuilder)
    ensures
        final(reg).entries@ == old(reg).entries@ + registrations(),
{
    reg.add(TypeKey::Entity, VERSION, 0, Action::Convert(Conv::V4293CollectDropChances));
    reg.add(TypeKey::Entity, VERSION, 0, Action::Revert(Conv::V4293SpreadDropChances));
    proof {
        assert(final(reg).entries@ =~= old(reg).entries@ + registrations());
    }
}

} // verus!
