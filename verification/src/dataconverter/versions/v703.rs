//! V703: a horse's `Type` becomes its id (`Horse`, `Donkey`, `Mule`,
//! `ZombieHorse`, `SkeletonHorse`), and each id walks its saddle, armor and
//! chest items.

use vstd::prelude::*;
use crate::nbt::{int_of, is_str, NbtMap, NbtValue};
use super::super::registry::{entry, Action, Registration, RegistryBuilder, TypeKey, Walker};
use super::super::dispatch::Conv;
use super::super::walker::{item_lists, items};

verus! {

/// This version.
pub const VERSION: i32 = 703;

/// The horse ids, by legacy type.
pub open spec fn horse_ids() -> Seq<&'static str> {
    seq!["Horse", "Donkey", "Mule", "ZombieHorse", "SkeletonHorse"]
}

/// The id a legacy horse type becomes: 1 to 4 their kinds, anything else a
/// plain horse.
pub open spec fn horse_id(t: i32) -> Seq<char> {
    if 1 <= t <= 4 { horse_ids()[t as int]@ } else { "Horse"@ }
}

fn horse_id_str(t: i32) -> (s: &'static str)
    ensures
        s@ == horse_id(t),
{
    if t == 1 {
        "Donkey"
    } else if t == 2 {
        "Mule"
    } else if t == 3 {
        "ZombieHorse"
    } else if t == 4 {
        "SkeletonHorse"
    } else {
        "Horse"
    }
}

/// What [`split_horse`] makes of `data_in`.
pub open spec fn split_horse_effect(data_in: NbtMap, data_out: NbtMap) -> bool {
    &&& ({
                let t = match int_of(data_in@, "Type"@) { Some(t) => t, None => 0i32 };
                &&& data_out@ == data_in@.remove("Type"@).insert("id"@, data_out@["id"@])
                &&& is_str(data_out@["id"@], horse_id(t))
            })
}

/// Forward: `Type` (0 when missing) goes and picks the id.
pub fn split_horse(data: &mut NbtMap)
    ensures
        ({
            let t = match int_of(old(data)@, "Type"@) { Some(t) => t, None => 0i32 };
            &&& final(data)@ == old(data)@.remove("Type"@).insert("id"@, final(data)@["id"@])
            &&& is_str(final(data)@["id"@], horse_id(t))
        }),
{
    let horse_type = match data.get_i32("Type") {
        Some(t) => t,
        None => 0,
    };
    data.take("Type");
    data.set_string("id", horse_id_str(horse_type));
}

/// What [`merge_horse`] makes of `data_in`.
pub open spec fn merge_horse_effect(data_in: NbtMap, data_out: NbtMap, t: i32) -> bool {
    &&& data_out@ == data_in@.insert("id"@, data_out@["id"@]).insert("Type"@, NbtValue::Int(t))
    &&& is_str(data_out@["id"@], "EntityHorse"@)
}

/// Reverse: the id goes back to `EntityHorse` with `Type` `t` (lossless: the
/// id carried the type).
pub fn merge_horse(data: &mut NbtMap, t: i32)
    ensures
        final(data)@ == old(data)@.insert("id"@, final(data)@["id"@]).insert("Type"@, NbtValue::Int(t)),
        is_str(final(data)@["id"@], "EntityHorse"@),
{
    proof {
        reveal_strlit("id");
        reveal_strlit("Type");
        assert("id"@[0] != "Type"@[0]);
    }
    data.set_string("id", "EntityHorse");
    data.set_i32("Type", t);
}

fn horse_name(t: usize) -> (s: &'static str)
    requires
        t < 5,
    ensures
        s == horse_ids()[t as int],
{
    let ids: [&'static str; 5] = ["Horse", "Donkey", "Mule", "ZombieHorse", "SkeletonHorse"];
    ids[t]
}

/// The reverse converters of the horse ids, one per type.
pub open spec fn merge_registrations(n: int) -> Seq<Registration>
    decreases n,
{
    if n <= 0 {
        Seq::empty()
    } else {
        merge_registrations(n - 1).push(
            entry(TypeKey::Entity, VERSION, 0, Action::RevertId(horse_ids()[n - 1], Conv::V703MergeHorse((n - 1) as i32))),
        )
    }
}

/// The item walkers of the horse ids.
pub open spec fn walker_registrations() -> Seq<Registration> {
    seq![
        entry(TypeKey::Entity, VERSION, 0, Action::Walk("Horse", Walker::Items(&["ArmorItem", "SaddleItem"]))),
        entry(TypeKey::Entity, VERSION, 0, Action::Walk("Donkey", Walker::Items(&["SaddleItem"]))),
        entry(TypeKey::Entity, VERSION, 0, Action::Walk("Donkey", Walker::ItemLists(&["Items"]))),
        entry(TypeKey::Entity, VERSION, 0, Action::Walk("Mule", Walker::Items(&["SaddleItem"]))),
        entry(TypeKey::Entity, VERSION, 0, Action::Walk("Mule", Walker::ItemLists(&["Items"]))),
        entry(TypeKey::Entity, VERSION, 0, Action::Walk("ZombieHorse", Walker::Items(&["SaddleItem"]))),
        entry(TypeKey::Entity, VERSION, 0, Action::Walk("SkeletonHorse", Walker::Items(&["SaddleItem"]))),
    ]
}

/// What this version registers.
pub open spec fn registrations() -> Seq<Registration> {
    seq![entry(TypeKey::Entity, VERSION, 0, Action::ConvertId("EntityHorse", Conv::V703SplitHorse))]
        + merge_registrations(5) + walker_registrations()
}

/// Register this version's converters and walkers.
pub fn register(reg: &mut RegistryBuilder)
    ensures
        final(reg).entries@ == old(reg).entries@ + registrations(),
{
    reg.add(TypeKey::Entity, VERSION, 0, Action::ConvertId("EntityHorse", Conv::V703SplitHorse));
    let ghost r1 = reg.entries@;
    let mut t: usize = 0;
    while t < 5
        invariant
            t <= 5,
            reg.entries@ == r1 + merge_registrations(t as int),
        decreases 5 - t,
    {
        reg.add(TypeKey::Entity, VERSION, 0, Action::RevertId(horse_name(t), Conv::V703MergeHorse(t as i32)));
        proof {
            assert(reg.entries@ =~= r1 + merge_registrations(t + 1));
        }
        t = t + 1;
    }
    reg.add(TypeKey::Entity, VERSION, 0, Action::Walk("Horse", items(&["ArmorItem", "SaddleItem"])));
    reg.add(TypeKey::Entity, VERSION, 0, Action::Walk("Donkey", items(&["SaddleItem"])));
    reg.add(TypeKey::Entity, VERSION, 0, Action::Walk("Donkey", item_lists(&["Items"])));
    reg.add(TypeKey::Entity, VERSION, 0, Action::Walk("Mule", items(&["SaddleItem"])));
    reg.add(TypeKey::Entity, VERSION, 0, Action::Walk("Mule", item_lists(&["Items"])));
    reg.add(TypeKey::Entity, VERSION, 0, Action::Walk("ZombieHorse", items(&["SaddleItem"])));
    reg.add(TypeKey::Entity, VERSION, 0, Action::Walk("SkeletonHorse", items(&["SaddleItem"])));
    proof {
        assert(final(reg).entries@ =~= old(reg).entries@ + registrations());
    }
}

} // verus!
