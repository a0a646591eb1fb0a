//! V700: a guardian's `Elder` flag becomes its id, `ElderGuardian`.

use vstd::prelude::*;
use crate::nbt::{bool_of, is_str, NbtMap, NbtValue};
use super::super::registry::{entry, Action, Registration, RegistryBuilder, TypeKey};
use super::super::dispatch::Conv;

verus! {

/// This version.
pub const VERSION: i32 = 700;

/// What [`split_guardian`] makes of `data_in`.
pub open spec fn split_guardian_effect(data_in: NbtMap, data_out: NbtMap) -> bool {
    &&& if bool_of(data_in@, "Elder"@) == Some(true) {
                data_out@ == data_in@.remove("Elder"@).insert("id"@, data_out@["id"@])
                    && is_str(data_out@["id"@], "ElderGuardian"@)
            } else {
                data_out@ == data_in@.remove("Elder"@)
            }
}

/// Forward: the `Elder` flag goes; an elder guardian's id becomes
/// `ElderGuardian`.
pub fn split_guardian(data: &mut NbtMap)
    ensures
        if bool_of(old(data)@, "Elder"@) == Some(true) {
            final(data)@ == old(data)@.remove("Elder"@).insert("id"@, final(data)@["id"@])
                && is_str(final(data)@["id"@], "ElderGuardian"@)
        } else {
            final(data)@ == old(data)@.remove("Elder"@)
        },
{
    let elder = match data.get_bool("Elder") {
        Some(b) => b,
        None => false,
    };
    data.take("Elder");
    if elder {
        data.set_string("id", "ElderGuardian");
    }
}

/// What [`restore_elder`] makes of `data_in`.
pub open spec fn restore_elder_effect(data_in: NbtMap, data_out: NbtMap) -> bool {
    &&& data_out@ == data_in@.insert("id"@, data_out@["id"@]).insert("Elder"@, NbtValue::Byte(1))
    &&& is_str(data_out@["id"@], "Guardian"@)
}

/// Reverse, on `ElderGuardian`: the id goes back to `Guardian` with `Elder`
/// set (lossless: the id carried the flag).
pub fn restore_elder(data: &mut NbtMap)
    ensures
        final(data)@ == old(data)@.insert("id"@, final(data)@["id"@]).insert("Elder"@, NbtValue::Byte(1)),
        is_str(final(data)@["id"@], "Guardian"@),
{
    proof {
        reveal_strlit("id");
        reveal_strlit("Elder");
        assert("id"@[0] != "Elder"@[0]);
    }
    data.set_string("id", "Guardian");
    data.set_bool("Elder", true);
}

/// What [`restore_not_elder`] makes of `data_in`.
pub open spec fn restore_not_elder_effect(data_in: NbtMap, data_out: NbtMap) -> bool {
    &&& data_out@ == data_in@.insert("Elder"@, NbtValue::Byte(0))
}

/// Reverse, on `Guardian`: `Elder` is restored as false.
pub fn restore_not_elder(data: &mut NbtMap)
    ensures
        final(data)@ == old(data)@.insert("Elder"@, NbtValue::Byte(0)),
{
    data.set_bool("Elder", false);
}

/// What this version registers.
pub open spec fn registrations() -> Seq<Registration> {
    seq![
        entry(TypeKey::Entity, VERSION, 0, Action::ConvertId("Guardian", Conv::V700SplitGuardian)),
        entry(TypeKey::Entity, VERSION, 0, Action::RevertId("ElderGuardian", Conv::V700RestoreElder)),
        entry(TypeKey::Entity, VERSION, 0, Action::RevertId("Guardian", Conv::V700RestoreNotElder)),
    ]
}

/// Register this version's converters.
pub fn register(reg: &mut RegistryBuilder)
    ensures
        final(reg).entries@ == old(reg).entries@ + registrations(),
{
    reg.add(TypeKey::Entity, VERSION, 0, Action::ConvertId("Guardian", Conv::V700SplitGuardian));
    reg.add(TypeKey::Entity, VERSION, 0, Action::RevertId("ElderGuardian", Conv::V700RestoreElder));
    reg.add(TypeKey::Entity, VERSION, 0, Action::RevertId("Guardian", Conv::V700RestoreNotElder));
    proof {
        assert(final(reg).entries@ =~= old(reg).entries@ + registrations());
    }
}

} // verus!
