//! V4300: the saddle moves into the `saddle` slot. Mobs that held a
//! `SaddleItem` have it renamed; pigs and striders turn their `Saddle` flag
//! into a saddle item. Either way a saddle that moved gets a guaranteed drop
//! chance. Llamas, donkeys and mules keep their `Items` inventory walker;
//! horses lose theirs.

use vstd::prelude::*;
use crate::nbt::{bool_of, int_of, long_of, lookup, map_of, renamed, str_of, NbtMap, NbtValue};
use crate::loss::{one_more_with, report, LossKind, LossReport, Severity};
use crate::text::str_eq;
use super::super::registry::{entry, Action, Registration, RegistryBuilder, TypeKey, Walker};
use super::super::dispatch::{Conv, CustomWalker};
use super::super::walker::item_lists;

verus! {

/// This version.
pub const VERSION: i32 = 4300;

/// The bits of the float 2.0, the guaranteed drop chance.
pub const GUARANTEED_F32_BITS: u32 = 0x4000_0000;

/// Mobs that held their saddle as a `SaddleItem` compound.
pub open spec fn is_saddle_item_entity(id: Seq<char>) -> bool {
    id == "minecraft:horse"@ || id == "minecraft:skeleton_horse"@ || id == "minecraft:zombie_horse"@
        || id == "minecraft:donkey"@ || id == "minecraft:mule"@ || id == "minecraft:camel"@
        || id == "minecraft:llama"@ || id == "minecraft:trader_llama"@
}

/// Mobs that held their saddle as a `Saddle` flag.
pub open spec fn is_saddle_flag_entity(id: Seq<char>) -> bool {
    id == "minecraft:pig"@ || id == "minecraft:strider"@
}

fn saddle_item_entity(id: &str) -> (b: bool)
    ensures
        b == is_saddle_item_entity(id@),
{
    str_eq(id, "minecraft:horse") || str_eq(id, "minecraft:skeleton_horse") || str_eq(id, "minecraft:zombie_horse")
        || str_eq(id, "minecraft:donkey") || str_eq(id, "minecraft:mule") || str_eq(id, "minecraft:camel")
        || str_eq(id, "minecraft:llama") || str_eq(id, "minecraft:trader_llama")
}

fn saddle_flag_entity(id: &str) -> (b: bool)
    ensures
        b == is_saddle_flag_entity(id@),
{
    str_eq(id, "minecraft:pig") || str_eq(id, "minecraft:strider")
}

/// The drop chances of a mob: its compound `drop_chances`, or nothing.
pub open spec fn chances_of(data: Map<Seq<char>, NbtValue>) -> Map<Seq<char>, NbtValue> {
    match map_of(data, "drop_chances"@) {
        Some(d) => d@,
        None => Map::empty(),
    }
}

/// `after` is `before` with `drop_chances.saddle` set to the float 2.0 (and
/// `drop_chances` made a compound if it was not one).
pub open spec fn with_saddle_chance(before: Map<Seq<char>, NbtValue>, after: Map<Seq<char>, NbtValue>) -> bool {
    &&& map_of(after, "drop_chances"@) matches Some(d2)
    &&& d2@ == chances_of(before).insert("saddle"@, NbtValue::Float(GUARANTEED_F32_BITS))
    &&& after.remove("drop_chances"@) == before.remove("drop_chances"@)
}

/// `v` is a number (any numeric tag).
pub open spec fn is_number(v: NbtValue) -> bool {
    v is Byte || v is Short || v is Int || v is Long || v is Float || v is Double
}

/// `v` is a number equal to two.
pub open spec fn is_two(v: NbtValue) -> bool {
    match v {
        NbtValue::Byte(x) => x == 2,
        NbtValue::Short(x) => x == 2,
        NbtValue::Int(x) => x == 2,
        NbtValue::Long(x) => x == 2,
        NbtValue::Float(b) => b == GUARANTEED_F32_BITS,
        NbtValue::Double(b) => b == 0x4000_0000_0000_0000,
        _ => false,
    }
}

fn number_other_than_two(v: &NbtValue) -> (b: bool)
    ensures
        b == (is_number(*v) && !is_two(*v)),
{
    match v {
        NbtValue::Byte(x) => *x != 2,
        NbtValue::Short(x) => *x != 2,
        NbtValue::Int(x) => *x != 2,
        NbtValue::Long(x) => *x != 2,
        NbtValue::Float(b) => *b != GUARANTEED_F32_BITS,
        NbtValue::Double(b) => *b != 0x4000_0000_0000_0000,
        _ => false,
    }
}

/// Give the mob a guaranteed saddle drop chance.
pub fn set_guaranteed_saddle_drop_chance(data: &mut NbtMap)
    ensures
        with_saddle_chance(old(data)@, final(data)@),
{
    if data.get_map("drop_chances").is_none() {
        data.set_map("drop_chances", NbtMap::new());
        proof {
            assert(data@.remove("drop_chances"@) =~= old(data)@.remove("drop_chances"@));
        }
    }
    let ghost d1 = data@;
    match data.take_map("drop_chances") {
        Some(mut d) => {
            d.set_f32_bits("saddle", GUARANTEED_F32_BITS);
            data.set_map("drop_chances", d);
            proof {
                assert(data@.remove("drop_chances"@) =~= d1.remove("drop_chances"@));
            }
        },
        None => {},
    }
}

/// `after` is `before` without `drop_chances.saddle`, and without
/// `drop_chances` when that leaves it empty; `rep` gains a loss when the
/// dropped chance was a number other than two.
pub open spec fn without_saddle_chance(
    before: Map<Seq<char>, NbtValue>,
    after: Map<Seq<char>, NbtValue>,
    r0: Seq<crate::loss::LossEntry>,
    r1: Seq<crate::loss::LossEntry>,
) -> bool {
    match map_of(before, "drop_chances"@) {
        Some(d) => {
            let d1 = d@.remove("saddle"@);
            &&& if d1.dom().len() == 0 {
                after == before.remove("drop_chances"@)
            } else {
                map_of(after, "drop_chances"@) matches Some(d2) && d2@ == d1
                    && after.remove("drop_chances"@) == before.remove("drop_chances"@)
            }
            &&& if lookup(d@, "saddle"@) matches Some(c) && is_number(c) && !is_two(c) {
                one_more_with(r0, r1, VERSION, LossKind::UnsupportedInTarget, Severity::Loss,
                    "saddle drop_chances.saddle has no pre-4300 representation; dropping it"@)
            } else {
                r1 == r0
            }
        },
        None => after == before && r1 == r0,
    }
}

/// Take the guaranteed saddle drop chance away again.
pub fn remove_guaranteed_saddle_drop_chance(data: &mut NbtMap, rep: &mut LossReport)
    ensures
        without_saddle_chance(old(data)@, final(data)@, old(rep).entries@, final(rep).entries@),
{
    match data.take_map("drop_chances") {
        Some(mut d) => {
            let ghost mid = data@;
            let odd = match d.get("saddle") {
                Some(c) => number_other_than_two(c),
                None => false,
            };
            if odd {
                report(
                    rep,
                    VERSION,
                    LossKind::UnsupportedInTarget,
                    Severity::Loss,
                    "saddle drop_chances.saddle has no pre-4300 representation; dropping it",
                );
            }
            d.take("saddle");
            if d.is_empty() {
                data.take("drop_chances");
                proof {
                    assert(data@ =~= old(data)@.remove("drop_chances"@));
                }
            } else {
                data.set_map("drop_chances", d);
                proof {
                    assert(data@.remove("drop_chances"@) =~= old(data)@.remove("drop_chances"@));
                }
            }
        },
        None => {},
    }
}

/// A saddle item exactly as the forward makes it: the saddle, count 1 (a
/// missing count counts as 1).
pub open spec fn is_canonical_saddle_item(item: Map<Seq<char>, NbtValue>) -> bool {
    str_of(item, "id"@) == Some("minecraft:saddle"@) && match long_of(item, "count"@) {
        Some(c) => c == 1,
        None => true,
    }
}

fn canonical_saddle_item(item: &NbtMap) -> (b: bool)
    ensures
        b == is_canonical_saddle_item(item@),
{
    let is_saddle = match item.get_string("id") {
        Some(id) => str_eq(id, "minecraft:saddle"),
        None => false,
    };
    is_saddle && match item.get_i64("count") {
        Some(c) => c == 1,
        None => true,
    }
}

/// The saddle item the forward gives a saddled pig or strider.
pub open spec fn is_new_saddle_item(v: NbtValue) -> bool {
    v matches NbtValue::Compound(s) && s@.dom() == set!["id"@, "count"@] && str_of(s@, "id"@) == Some("minecraft:saddle"@)
        && s@["count"@] == NbtValue::Int(1)
}

/// What [`move_saddle`] makes of `data_in`.
pub open spec fn move_saddle_effect(data_in: NbtMap, data_out: NbtMap) -> bool {
    &&& match str_of(data_in@, "id"@) {
                Some(id) => if is_saddle_item_entity(id) {
                    if data_in@.dom().contains("SaddleItem"@) {
                        with_saddle_chance(renamed(data_in@, "SaddleItem"@, "saddle"@), data_out@)
                    } else {
                        data_out@ == data_in@
                    }
                } else if is_saddle_flag_entity(id) {
                    if bool_of(data_in@, "Saddle"@) == Some(true) {
                        is_new_saddle_item(data_out@["saddle"@]) && with_saddle_chance(
                            data_in@.remove("Saddle"@).insert("saddle"@, data_out@["saddle"@]),
                            data_out@,
                        )
                    } else {
                        data_out@ == data_in@.remove("Saddle"@)
                    }
                } else {
                    data_out@ == data_in@
                },
                None => data_out@ == data_in@,
            }
}

/// Forward: move the saddle into the `saddle` slot.
pub fn move_saddle(data: &mut NbtMap)
    ensures
        match str_of(old(data)@, "id"@) {
            Some(id) => if is_saddle_item_entity(id) {
                if old(data)@.dom().contains("SaddleItem"@) {
                    with_saddle_chance(renamed(old(data)@, "SaddleItem"@, "saddle"@), final(data)@)
                } else {
                    final(data)@ == old(data)@
                }
            } else if is_saddle_flag_entity(id) {
                if bool_of(old(data)@, "Saddle"@) == Some(true) {
                    is_new_saddle_item(final(data)@["saddle"@]) && with_saddle_chance(
                        old(data)@.remove("Saddle"@).insert("saddle"@, final(data)@["saddle"@]),
                        final(data)@,
                    )
                } else {
                    final(data)@ == old(data)@.remove("Saddle"@)
                }
            } else {
                final(data)@ == old(data)@
            },
            None => final(data)@ == old(data)@,
        },
{
    let (item_mob, flag_mob) = match data.get_string("id") {
        Some(id) => (saddle_item_entity(id), saddle_flag_entity(id)),
        None => return,
    };
    if item_mob {
        if !data.has_key("SaddleItem") {
            return;
        }
        data.rename_key("SaddleItem", "saddle");
        set_guaranteed_saddle_drop_chance(data);
    } else if flag_mob {
        let saddle = match data.get_bool("Saddle") {
            Some(b) => b,
            None => false,
        };
        data.take("Saddle");
        if !saddle {
            return;
        }
        let mut saddle_item = NbtMap::new();
        saddle_item.set_string("id", "minecraft:saddle");
        saddle_item.set_i32("count", 1);
        proof {
            reveal_strlit("id");
            reveal_strlit("count");
            assert("id"@[0] != "count"@[0]);
            assert(saddle_item@.dom() =~= set!["id"@, "count"@]);
        }
        data.set_map("saddle", saddle_item);
        let ghost before_chance = data@;
        set_guaranteed_saddle_drop_chance(data);
        proof {
            reveal_strlit("saddle");
            reveal_strlit("drop_chances");
            assert("saddle"@[0] != "drop_chances"@[0]);
            assert(before_chance.remove("drop_chances"@).dom().contains("saddle"@));
            assert(data@.remove("drop_chances"@)["saddle"@] == before_chance.remove("drop_chances"@)["saddle"@]);
            assert(data@["saddle"@] == before_chance["saddle"@]);
        }
    }
}

/// What [`restore_saddle`] makes of `data_in` and the report `rep_in`.
pub open spec fn restore_saddle_effect(data_in: NbtMap, data_out: NbtMap, rep_in: LossReport, rep_out: LossReport) -> bool {
    &&& match str_of(data_in@, "id"@) {
                Some(id) => if is_saddle_item_entity(id) && data_in@.dom().contains("saddle"@) {
                    without_saddle_chance(
                        renamed(data_in@, "saddle"@, "SaddleItem"@),
                        data_out@,
                        rep_in.entries@,
                        rep_out.entries@,
                    )
                } else if is_saddle_item_entity(id) {
                    data_out@ == data_in@ && rep_out.entries@ == rep_in.entries@
                } else if is_saddle_flag_entity(id) {
                    let had = data_in@.dom().contains("saddle"@);
                    let odd = had && match map_of(data_in@, "saddle"@) {
                        Some(s) => !is_canonical_saddle_item(s@),
                        None => true,
                    };
                    exists|mid: Map<Seq<char>, NbtValue>, r: Seq<crate::loss::LossEntry>|
                        #[trigger] without_saddle_chance(data_in@.remove("saddle"@), mid, r, rep_out.entries@)
                        && data_out@ == mid.insert("Saddle"@, NbtValue::Byte(if had { 1i8 } else { 0i8 }))
                        && if odd {
                            one_more_with(rep_in.entries@, r, VERSION, LossKind::UnsupportedInTarget, Severity::Loss,
                            if map_of(data_in@, "saddle"@) is Some {
                                "pig/strider saddle item data has no legacy boolean representation; restoring Saddle=true"@
                            } else {
                                "non-compound pig/strider saddle value has no legacy boolean representation; restoring Saddle=true"@
                            })
                        } else {
                            r == rep_in.entries@
                        }
                } else {
                    data_out@ == data_in@ && rep_out.entries@ == rep_in.entries@
                },
                None => data_out@ == data_in@ && rep_out.entries@ == rep_in.entries@,
            }
}

/// Reverse: move the saddle back. A `saddle` of a saddle-item mob becomes
/// `SaddleItem` again (lossless); a pig or strider gets `Saddle` back, true
/// exactly when it had a `saddle`, with a loss when that saddle was anything
/// but the plain saddle item. The guaranteed drop chance goes either way.
pub fn restore_saddle(data: &mut NbtMap, rep: &mut LossReport)
    ensures
        match str_of(old(data)@, "id"@) {
            Some(id) => if is_saddle_item_entity(id) && old(data)@.dom().contains("saddle"@) {
                without_saddle_chance(
                    renamed(old(data)@, "saddle"@, "SaddleItem"@),
                    final(data)@,
                    old(rep).entries@,
                    final(rep).entries@,
                )
            } else if is_saddle_item_entity(id) {
                final(data)@ == old(data)@ && final(rep).entries@ == old(rep).entries@
            } else if is_saddle_flag_entity(id) {
                let had = old(data)@.dom().contains("saddle"@);
                let odd = had && match map_of(old(data)@, "saddle"@) {
                    Some(s) => !is_canonical_saddle_item(s@),
                    None => true,
                };
                exists|mid: Map<Seq<char>, NbtValue>, r: Seq<crate::loss::LossEntry>|
                    #[trigger] without_saddle_chance(old(data)@.remove("saddle"@), mid, r, final(rep).entries@)
                    && final(data)@ == mid.insert("Saddle"@, NbtValue::Byte(if had { 1i8 } else { 0i8 }))
                    && if odd {
                        one_more_with(old(rep).entries@, r, VERSION, LossKind::UnsupportedInTarget, Severity::Loss,
                            if map_of(old(data)@, "saddle"@) is Some {
                                "pig/strider saddle item data has no legacy boolean representation; restoring Saddle=true"@
                            } else {
                                "non-compound pig/strider saddle value has no legacy boolean representation; restoring Saddle=true"@
                            })
                    } else {
                        r == old(rep).entries@
                    }
            } else {
                final(data)@ == old(data)@ && final(rep).entries@ == old(rep).entries@
            },
            None => final(data)@ == old(data)@ && final(rep).entries@ == old(rep).entries@,
        },
{
    let (item_mob, flag_mob) = match data.get_string("id") {
        Some(id) => (saddle_item_entity(id), saddle_flag_entity(id)),
        None => return,
    };
    if item_mob {
        if !data.has_key("saddle") {
            return;
        }
        data.rename_key("saddle", "SaddleItem");
        remove_guaranteed_saddle_drop_chance(data, rep);
    } else if flag_mob {
        let had_saddle = data.has_key("saddle");
        let odd = match data.get_map("saddle") {
            Some(s) => !canonical_saddle_item(s),
            None => had_saddle,
        };
        if odd {
            if data.get_map("saddle").is_some() {
                report(
                    rep,
                    VERSION,
                    LossKind::UnsupportedInTarget,
                    Severity::Loss,
                    "pig/strider saddle item data has no legacy boolean representation; restoring Saddle=true",
                );
            } else {
                report(
                    rep,
                    VERSION,
                    LossKind::UnsupportedInTarget,
                    Severity::Loss,
                    "non-compound pig/strider saddle value has no legacy boolean representation; restoring Saddle=true",
                );
            }
        }
        let ghost r = rep.entries@;
        data.take("saddle");
        remove_guaranteed_saddle_drop_chance(data, rep);
        let ghost mid = data@;
        data.set_bool("Saddle", had_saddle);
        proof {
            assert(without_saddle_chance(old(data)@.remove("saddle"@), mid, r, rep.entries@));
        }
    }
}

/// The now empty walker of the horses.
pub fn walk_nothing(data: &mut NbtMap, report: &mut LossReport)
    ensures
        final(data)@ == old(data)@,
        *final(report) == *old(report),
{
}

/// What this version registers.
pub open spec fn registrations() -> Seq<Registration> {
    seq![
        entry(TypeKey::Entity, VERSION, 0, Action::Convert(Conv::V4300MoveSaddle)),
        entry(TypeKey::Entity, VERSION, 0, Action::Revert(Conv::V4300RestoreSaddle)),
        entry(TypeKey::Entity, VERSION, 0, Action::Walk("minecraft:llama", Walker::ItemLists(&["Items"]))),
        entry(TypeKey::Entity, VERSION, 0, Action::Walk("minecraft:trader_llama", Walker::ItemLists(&["Items"]))),
        entry(TypeKey::Entity, VERSION, 0, Action::Walk("minecraft:donkey", Walker::ItemLists(&["Items"]))),
        entry(TypeKey::Entity, VERSION, 0, Action::Walk("minecraft:mule", Walker::ItemLists(&["Items"]))),
        entry(TypeKey::Entity, VERSION, 0, Action::Walk("minecraft:horse", Walker::Custom(CustomWalker::V4300Nothing))),
        entry(TypeKey::Entity, VERSION, 0, Action::Walk("minecraft:skeleton_horse", Walker::Custom(CustomWalker::V4300Nothing))),
        entry(TypeKey::Entity, VERSION, 0, Action::Walk("minecraft:zombie_horse", Walker::Custom(CustomWalker::V4300Nothing))),
    ]
}

/// Register this version's converters and walkers.
pub fn register(reg: &mut RegistryBuilder)
    ensures
        final(reg).entries@ == old(reg).entries@ + registrations(),
{
    reg.add(TypeKey::Entity, VERSION, 0, Action::Convert(Conv::V4300MoveSaddle));
    reg.add(TypeKey::Entity, VERSION, 0, Action::Revert(Conv::V4300RestoreSaddle));
    reg.add(TypeKey::Entity, VERSION, 0, Action::Walk("minecraft:llama", item_lists(&["Items"])));
    reg.add(TypeKey::Entity, VERSION, 0, Action::Walk("minecraft:trader_llama", item_lists(&["Items"])));
    reg.add(TypeKey::Entity, VERSION, 0, Action::Walk("minecraft:donkey", item_lists(&["Items"])));
    reg.add(TypeKey::Entity, VERSION, 0, Action::Walk("minecraft:mule", item_lists(&["Items"])));
    reg.add(TypeKey::Entity, VERSION, 0, Action::Walk("minecraft:horse", Walker::Custom(CustomWalker::V4300Nothing)));
    reg.add(TypeKey::Entity, VERSION, 0, Action::Walk("minecraft:skeleton_horse", Walker::Custom(CustomWalker::V4300Nothing)));
    reg.add(TypeKey::Entity, VERSION, 0, Action::Walk("minecraft:zombie_horse", Walker::Custom(CustomWalker::V4300Nothing)));
    proof {
        assert(final(reg).entries@ =~= old(reg).entries@ + registrations());
    }
}

} // verus!
