//! V4763: villagers and zombie villagers gain `VillagerDataFinalized`.

use vstd::prelude::*;
use crate::nbt::{bool_of, NbtMap, NbtValue};
use super::super::registry::{entry, Action, Registration, RegistryBuilder, TypeKey};
use super::super::dispatch::Conv;

verus! {

/// This version.
pub const VERSION: i32 = 4763;

/// What [`finalize`] makes of `data_in`.
pub open spec fn finalize_effect(data_in: NbtMap, data_out: NbtMap) -> bool {
    &&& data_out@ == data_in@.insert("VillagerDataFinalized"@, NbtValue::Byte(1))
}

/// Forward: set `VillagerDataFinalized` to true.
pub fn finalize(data: &mut NbtMap)
    ensures
        final(data)@ == old(data)@.insert("VillagerDataFinalized"@, NbtValue::Byte(1)),
{
    data.set_bool("VillagerDataFinalized", true);
}

/// What [`unfinalize`] makes of `data_in`.
pub open spec fn unfinalize_effect(data_in: NbtMap, data_out: NbtMap) -> bool {
    &&& if bool_of(data_in@, "VillagerDataFinalized"@) == Some(true) {
                data_out@ == data_in@.remove("VillagerDataFinalized"@)
            } else {
                data_out@ == data_in@
            }
}

/// Reverse: drop a true `VillagerDataFinalized` (the older format had no
/// such field); any other value stays.
pub fn unfinalize(data: &mut NbtMap)
    ensures
        if bool_of(old(data)@, "VillagerDataFinalized"@) == Some(true) {
            final(data)@ == old(data)@.remove("VillagerDataFinalized"@)
        } else {
            final(data)@ == old(data)@
        },
{
    match data.get_bool("VillagerDataFinalized") {
        Some(true) => {
            data.take("VillagerDataFinalized");
        },
        _ => {},
    }
}

/// What this version registers.
pub open spec fn registrations() -> Seq<Registration> {
    seq![
        entry(TypeKey::Entity, VERSION, 0, Action::ConvertId("minecraft:villager", Conv::V4763Finalize)),
        entry(TypeKey::Entity, VERSION, 0, Action::RevertId("minecraft:villager", Conv::V4763Unfinalize)),
        entry(TypeKey::Entity, VERSION, 0, Action::ConvertId("minecraft:zombie_villager", Conv::V4763Finalize)),
        entry(TypeKey::Entity, VERSION, 0, Action::RevertId("minecraft:zombie_villager", Conv::V4763Unfinalize)),
    ]
}

/// Register this version's converters.
pub fn register(reg: &mut RegistryBuilder)
    ensures
        final(reg).entries@ == old(reg).entries@ + registrations(),
{
    reg.add(TypeKey::Entity, VERSION, 0, Action::ConvertId("minecraft:villager", Conv::V4763Finalize));
    reg.add(TypeKey::Entity, VERSION, 0, Action::RevertId("minecraft:villager", Conv::V4763Unfinalize));
    reg.add(TypeKey::Entity, VERSION, 0, Action::ConvertId("minecraft:zombie_villager", Conv::V4763Finalize));
    reg.add(TypeKey::Entity, VERSION, 0, Action::RevertId("minecraft:zombie_villager", Conv::V4763Unfinalize));
    proof {
        assert(final(reg).entries@ =~= old(reg).entries@ + registrations());
    }
}

} // verus!
