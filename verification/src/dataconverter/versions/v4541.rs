//! V4541: the chain block and item become `iron_chain`.

use vstd::prelude::*;
use super::super::helpers::{map_renamer, register_block_rename, register_item_rename, rename_entries};
use super::super::registry::{Registration, RegistryBuilder, TypeKey};
use super::super::dispatch::RenameTable;

verus! {

/// This version.
pub const VERSION: i32 = 4541;

/// The `(old, new)` pairs of [`chain_renames`].
pub open spec fn chain_renames_pairs() -> Seq<(&'static str, &'static str)> {
    seq![("minecraft:chain", "minecraft:iron_chain")]
}

/// The `(old, new)` chain rename, for block and item ids alike.
pub fn chain_renames() -> (t: &'static [(&'static str, &'static str)])
    ensures
        t@ == chain_renames_pairs(),
{
    &[("minecraft:chain", "minecraft:iron_chain")]
}

/// What this version registers.
pub open spec fn registrations() -> Seq<Registration> {
    rename_entries(TypeKey::BlockName, TypeKey::BlockState, VERSION, RenameTable::V4541Chain)
        + rename_entries(TypeKey::ItemName, TypeKey::ItemStack, VERSION, RenameTable::V4541Chain)
}

/// Register this version's renames.
pub fn register(reg: &mut RegistryBuilder)
    ensures
        final(reg).entries@ == old(reg).entries@ + registrations(),
{
    register_block_rename(reg, VERSION, map_renamer(RenameTable::V4541Chain));
    register_item_rename(reg, VERSION, map_renamer(RenameTable::V4541Chain));
    proof {
        assert(final(reg).entries@ =~= old(reg).entries@ + registrations());
    }
}

} // verus!
