//! V4306: the thrown potion entity splits by its held item into the splash
//! and lingering potion entities, which walk as the potion did.

use vstd::prelude::*;
use crate::nbt::{is_str, map_of, str_of, NbtMap};
use crate::loss::LossReport;
use crate::text::str_eq;
use super::super::registry::{entry, report_grows, Action, Registration, Registry, RegistryBuilder, TypeKey, Walker};
use super::super::dispatch::{Conv, CustomWalker};

verus! {

/// This version.
pub const VERSION: i32 = 4306;

/// The potion holds a lingering potion item.
pub open spec fn holds_lingering(data: Map<Seq<char>, crate::nbt::NbtValue>) -> bool {
    match map_of(data, "Item"@) {
        Some(item) => str_of(item@, "id"@) == Some("minecraft:lingering_potion"@),
        None => false,
    }
}

/// What [`split_potion`] makes of `data_in`.
pub open spec fn split_potion_effect(data_in: NbtMap, data_out: NbtMap) -> bool {
    &&& data_out@ == data_in@.insert("id"@, data_out@["id"@])
    &&& is_str(
                data_out@["id"@],
                if holds_lingering(data_in@) { "minecraft:lingering_potion"@ } else { "minecraft:splash_potion"@ },
            )
}

/// Forward: the id becomes the lingering or the splash potion by the held
/// item.
pub fn split_potion(data: &mut NbtMap)
    ensures
        final(data)@ == old(data)@.insert("id"@, final(data)@["id"@]),
        is_str(
            final(data)@["id"@],
            if holds_lingering(old(data)@) { "minecraft:lingering_potion"@ } else { "minecraft:splash_potion"@ },
        ),
{
    let is_lingering = match data.get_map("Item") {
        Some(item) => match item.get_string("id") {
            Some(id) => str_eq(id, "minecraft:lingering_potion"),
            None => false,
        },
        None => false,
    };
    data.set_string("id", if is_lingering { "minecraft:lingering_potion" } else { "minecraft:splash_potion" });
}

/// What [`merge_potion`] makes of `data_in`.
pub open spec fn merge_potion_effect(data_in: NbtMap, data_out: NbtMap) -> bool {
    &&& data_out@ == data_in@.insert("id"@, data_out@["id"@])
    &&& is_str(data_out@["id"@], "minecraft:potion"@)
}

/// Reverse: either new id goes back to `minecraft:potion` (lossless: the
/// held item still tells which).
pub fn merge_potion(data: &mut NbtMap)
    ensures
        final(data)@ == old(data)@.insert("id"@, final(data)@["id"@]),
        is_str(final(data)@["id"@], "minecraft:potion"@),
{
    data.set_string("id", "minecraft:potion");
}

/// The now empty walker of the plain potion id.
pub fn walk_nothing(reg: &Registry, data: &mut NbtMap, from: i32, to: i32, report: &mut LossReport, fuel: u32)
    ensures
        final(data)@ == old(data)@,
        *final(report) == *old(report),
{
}

/// What this version registers.
pub open spec fn registrations() -> Seq<Registration> {
    seq![
        entry(TypeKey::Entity, VERSION, 0, Action::ConvertId("minecraft:potion", Conv::V4306SplitPotion)),
        entry(TypeKey::Entity, VERSION, 0, Action::RevertId("minecraft:splash_potion", Conv::V4306MergePotion)),
        entry(TypeKey::Entity, VERSION, 0, Action::RevertId("minecraft:lingering_potion", Conv::V4306MergePotion)),
        entry(TypeKey::Entity, VERSION, 0, Action::CopyWalkers("minecraft:potion", "minecraft:splash_potion")),
        entry(TypeKey::Entity, VERSION, 0, Action::CopyWalkers("minecraft:potion", "minecraft:lingering_potion")),
        entry(TypeKey::Entity, VERSION, 0, Action::Walk("minecraft:potion", Walker::Custom(CustomWalker::V4306Nothing))),
    ]
}

/// Register this version's converters and walkers.
pub fn register(reg: &mut RegistryBuilder)
    ensures
        final(reg).entries@ == old(reg).entries@ + registrations(),
{
    reg.add(TypeKey::Entity, VERSION, 0, Action::ConvertId("minecraft:potion", Conv::V4306SplitPotion));
    reg.add(TypeKey::Entity, VERSION, 0, Action::RevertId("minecraft:splash_potion", Conv::V4306MergePotion));
    reg.add(TypeKey::Entity, VERSION, 0, Action::RevertId("minecraft:lingering_potion", Conv::V4306MergePotion));
    reg.add(TypeKey::Entity, VERSION, 0, Action::CopyWalkers("minecraft:potion", "minecraft:splash_potion"));
    reg.add(TypeKey::Entity, VERSION, 0, Action::CopyWalkers("minecraft:potion", "minecraft:lingering_potion"));
    reg.add(TypeKey::Entity, VERSION, 0, Action::Walk("minecraft:potion", Walker::Custom(CustomWalker::V4306Nothing)));
    proof {
        assert(final(reg).entries@ =~= old(reg).entries@ + registrations());
    }
}

} // verus!
