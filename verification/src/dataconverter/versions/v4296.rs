//! V4296: an area effect cloud gains `potion_duration_scale` 0.25.

use vstd::prelude::*;
use crate::nbt::{is_quarter_number, lookup, NbtMap, NbtValue};
use super::super::registry::{entry, Action, Registration, RegistryBuilder, TypeKey};
use super::super::dispatch::Conv;

verus! {

/// This version.
pub const VERSION: i32 = 4296;

/// The bits of the float 0.25.
pub const QUARTER_F32_BITS: u32 = 0x3E80_0000;

/// What [`add_duration_scale`] makes of `data_in`.
pub open spec fn add_duration_scale_effect(data_in: NbtMap, data_out: NbtMap) -> bool {
    &&& data_out@ == data_in@.insert("potion_duration_scale"@, NbtValue::Float(QUARTER_F32_BITS))
}

/// Forward: set `potion_duration_scale` to the float 0.25.
pub fn add_duration_scale(data: &mut NbtMap)
    ensures
        final(data)@ == old(data)@.insert("potion_duration_scale"@, NbtValue::Float(QUARTER_F32_BITS)),
{
    data.set_f32_bits("potion_duration_scale", QUARTER_F32_BITS);
}

/// What [`drop_duration_scale`] makes of `data_in`.
pub open spec fn drop_duration_scale_effect(data_in: NbtMap, data_out: NbtMap) -> bool {
    &&& if lookup(data_in@, "potion_duration_scale"@) matches Some(v) && is_quarter_number(v) {
                data_out@ == data_in@.remove("potion_duration_scale"@)
            } else {
                data_out@ == data_in@
            }
}

/// Reverse: drop `potion_duration_scale` when it is the 0.25 the forward
/// added; any other scale was set by hand and stays.
pub fn drop_duration_scale(data: &mut NbtMap)
    ensures
        if lookup(old(data)@, "potion_duration_scale"@) matches Some(v) && is_quarter_number(v) {
            final(data)@ == old(data)@.remove("potion_duration_scale"@)
        } else {
            final(data)@ == old(data)@
        },
{
    let quarter = match data.get("potion_duration_scale") {
        Some(v) => crate::nbt::value_is_quarter(v),
        None => false,
    };
    if quarter {
        data.take("potion_duration_scale");
    }
}

/// What this version registers.
pub open spec fn registrations() -> Seq<Registration> {
    seq![
        entry(TypeKey::Entity, VERSION, 0, Action::ConvertId("minecraft:area_effect_cloud", Conv::V4296AddDurationScale)),
        entry(TypeKey::Entity, VERSION, 0, Action::RevertId("minecraft:area_effect_cloud", Conv::V4296DropDurationScale)),
    ]
}

/// Register this version's converters.
pub fn register(reg: &mut RegistryBuilder)
    ensures
        final(reg).entries@ == old(reg).entries@ + registrations(),
{
    reg.add(TypeKey::Entity, VERSION, 0, Action::ConvertId("minecraft:area_effect_cloud", Conv::V4296AddDurationScale));
    reg.add(TypeKey::Entity, VERSION, 0, Action::RevertId("minecraft:area_effect_cloud", Conv::V4296DropDurationScale));
    proof {
        assert(final(reg).entries@ =~= old(reg).entries@ + registrations());
    }
}

} // verus!
