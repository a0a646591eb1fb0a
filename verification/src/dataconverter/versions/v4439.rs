//! V4439: an entity's `fall_distance` of exactly zero is dropped.

use vstd::prelude::*;
use crate::nbt::{is_zero_number, lookup, NbtMap, NbtValue};
use super::super::registry::{entry, Action, Registration, RegistryBuilder, TypeKey};
use super::super::dispatch::Conv;

verus! {

/// This version.
pub const VERSION: i32 = 4439;

/// What [`drop_zero_fall_distance`] makes of `data_in`.
pub open spec fn drop_zero_fall_distance_effect(data_in: NbtMap, data_out: NbtMap) -> bool {
    &&& if lookup(data_in@, "fall_distance"@) matches Some(v) && is_zero_number(v) {
                data_out@ == data_in@.remove("fall_distance"@)
            } else {
                data_out@ == data_in@
            }
}

/// Forward: drop `fall_distance` when it is a numeric zero.
pub fn drop_zero_fall_distance(data: &mut NbtMap)
    ensures
        if lookup(old(data)@, "fall_distance"@) matches Some(v) && is_zero_number(v) {
            final(data)@ == old(data)@.remove("fall_distance"@)
        } else {
            final(data)@ == old(data)@
        },
{
    let zero = match data.get("fall_distance") {
        Some(v) => crate::nbt::value_is_zero(v),
        None => false,
    };
    if zero {
        data.take("fall_distance");
    }
}

/// What [`restore_fall_distance`] makes of `data_in`.
pub open spec fn restore_fall_distance_effect(data_in: NbtMap, data_out: NbtMap) -> bool {
    &&& if data_in@.dom().contains("fall_distance"@) {
                data_out@ == data_in@
            } else {
                data_out@ == data_in@.insert("fall_distance"@, NbtValue::Double(0))
            }
}

/// Reverse: an entity without `fall_distance` gets the double `0.0` the
/// older format always stored.
pub fn restore_fall_distance(data: &mut NbtMap)
    ensures
        if old(data)@.dom().contains("fall_distance"@) {
            final(data)@ == old(data)@
        } else {
            final(data)@ == old(data)@.insert("fall_distance"@, NbtValue::Double(0))
        },
{
    if !data.has_key("fall_distance") {
        data.set_f64_bits("fall_distance", 0);
    }
}

/// What this version registers.
pub open spec fn registrations() -> Seq<Registration> {
    seq![
        entry(TypeKey::Entity, VERSION, 0, Action::Convert(Conv::V4439DropZeroFallDistance)),
        entry(TypeKey::Entity, VERSION, 0, Action::Revert(Conv::V4439RestoreFallDistance)),
    ]
}

/// Register this version's converters.
pub fn register(reg: &mut RegistryBuilder)
    ensures
        final(reg).entries@ == old(reg).entries@ + registrations(),
{
    reg.add(TypeKey::Entity, VERSION, 0, Action::Convert(Conv::V4439DropZeroFallDistance));
    reg.add(TypeKey::Entity, VERSION, 0, Action::Revert(Conv::V4439RestoreFallDistance));
    proof {
        assert(final(reg).entries@ =~= old(reg).entries@ + registrations());
    }
}

} // verus!
