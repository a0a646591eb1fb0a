//! V4081: a salmon that is not `large` gets the explicit size `medium`.

use vstd::prelude::*;
use crate::nbt::{str_of, NbtMap};
use crate::text::str_eq;
use super::super::registry::{entry, Action, Registration, RegistryBuilder, TypeKey};
use super::super::dispatch::Conv;

verus! {

/// This version.
pub const VERSION: i32 = 4081;

/// What [`size_salmon`] makes of `data_in`.
pub open spec fn size_salmon_effect(data_in: NbtMap, data_out: NbtMap) -> bool {
    &&& if str_of(data_in@, "type"@) == Some("large"@) {
                data_out@ == data_in@
            } else {
                data_out@ == data_in@.insert("type"@, data_out@["type"@])
                    && str_of(data_out@, "type"@) == Some("medium"@)
            }
}

/// Forward: a salmon whose `type` is not the string `large` gets `type`
/// `medium`.
pub fn size_salmon(data: &mut NbtMap)
    ensures
        if str_of(old(data)@, "type"@) == Some("large"@) {
            final(data)@ == old(data)@
        } else {
            final(data)@ == old(data)@.insert("type"@, final(data)@["type"@])
                && str_of(final(data)@, "type"@) == Some("medium"@)
        },
{
    let large = match data.get_string("type") {
        Some(t) => str_eq(t, "large"),
        None => false,
    };
    if large {
        return;
    }
    data.set_string("type", "medium");
}

/// What this version registers.
pub open spec fn registrations() -> Seq<Registration> {
    seq![entry(TypeKey::Entity, VERSION, 0, Action::ConvertId("minecraft:salmon", Conv::V4081SizeSalmon))]
}

/// Register this version's converters.
pub fn register(reg: &mut RegistryBuilder)
    ensures
        final(reg).entries@ == old(reg).entries@ + registrations(),
{
    reg.add(TypeKey::Entity, VERSION, 0, Action::ConvertId("minecraft:salmon", Conv::V4081SizeSalmon));
    proof {
        assert(final(reg).entries@ =~= old(reg).entries@ + registrations());
    }
}

} // verus!
