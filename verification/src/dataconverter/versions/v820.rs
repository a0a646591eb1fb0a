//! V820: the totem item becomes `totem_of_undying`.

use vstd::prelude::*;
use super::super::helpers::{map_renamer, register_item_rename, rename_entries};
use super::super::registry::{Registration, RegistryBuilder, TypeKey};
use super::super::dispatch::RenameTable;

verus! {

/// This version.
pub const VERSION: i32 = 820;

/// The `(old, new)` pairs of [`totem_renames`].
pub open spec fn totem_renames_pairs() -> Seq<(&'static str, &'static str)> {
    seq![("minecraft:totem", "minecraft:totem_of_undying")]
}

/// The `(old, new)` item renames of this version.
pub fn totem_renames() -> (t: &'static [(&'static str, &'static str)])
    ensures
        t@ == totem_renames_pairs(),
{
    &[("minecraft:totem", "minecraft:totem_of_undying")]
}

/// What this version registers.
pub open spec fn registrations() -> Seq<Registration> {
    rename_entries(TypeKey::ItemName, TypeKey::ItemStack, VERSION, RenameTable::V820Totem)
}

/// Register this version's renames.
pub fn register(reg: &mut RegistryBuilder)
    ensures
        final(reg).entries@ == old(reg).entries@ + registrations(),
{
    register_item_rename(reg, VERSION, map_renamer(RenameTable::V820Totem));
    proof {
        assert(final(reg).entries@ =~= old(reg).entries@ + registrations());
    }
}

} // verus!
