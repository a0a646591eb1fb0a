//! V4173: the entity field `TNTFuse` becomes `fuse`.

use vstd::prelude::*;
use crate::nbt::{renamed, NbtMap};
use super::super::registry::{entry, Action, Registration, RegistryBuilder, TypeKey};
use super::super::dispatch::Conv;

verus! {

/// This version.
pub const VERSION: i32 = 4173;

/// What [`rename_fuse`] makes of `data_in`.
pub open spec fn rename_fuse_effect(data_in: NbtMap, data_out: NbtMap) -> bool {
    &&& data_out@ == renamed(data_in@, "TNTFuse"@, "fuse"@)
}

/// Forward: rename `TNTFuse` to `fuse`.
pub fn rename_fuse(data: &mut NbtMap)
    ensures
        final(data)@ == renamed(old(data)@, "TNTFuse"@, "fuse"@),
{
    data.rename_key("TNTFuse", "fuse");
}

/// What [`restore_fuse`] makes of `data_in`.
pub open spec fn restore_fuse_effect(data_in: NbtMap, data_out: NbtMap) -> bool {
    &&& data_out@ == renamed(data_in@, "fuse"@, "TNTFuse"@)
}

/// Reverse: rename `fuse` back to `TNTFuse` (lossless).
pub fn restore_fuse(data: &mut NbtMap)
    ensures
        final(data)@ == renamed(old(data)@, "fuse"@, "TNTFuse"@),
{
    data.rename_key("fuse", "TNTFuse");
}

/// What this version registers.
pub open spec fn registrations() -> Seq<Registration> {
    seq![
        entry(TypeKey::Entity, VERSION, 0, Action::Convert(Conv::V4173RenameFuse)),
        entry(TypeKey::Entity, VERSION, 0, Action::Revert(Conv::V4173RestoreFuse)),
    ]
}

/// Register this version's converters.
pub fn register(reg: &mut RegistryBuilder)
    ensures
        final(reg).entries@ == old(reg).entries@ + registrations(),
{
    reg.add(TypeKey::Entity, VERSION, 0, Action::Convert(Conv::V4173RenameFuse));
    reg.add(TypeKey::Entity, VERSION, 0, Action::Revert(Conv::V4173RestoreFuse));
    proof {
        assert(final(reg).entries@ =~= old(reg).entries@ + registrations());
    }
}

} // verus!
