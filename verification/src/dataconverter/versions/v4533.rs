//! V4533: the shelf block entity holds an `Items` list of item stacks.

use vstd::prelude::*;
use super::super::registry::{entry, Action, Registration, RegistryBuilder, TypeKey, Walker};
use super::super::walker::item_lists;

verus! {

/// This version.
pub const VERSION: i32 = 4533;

/// What this version registers.
pub open spec fn registrations() -> Seq<Registration> {
    seq![entry(TypeKey::TileEntity, VERSION, 0, Action::Walk("minecraft:shelf", Walker::ItemLists(&["Items"])))]
}

/// Register this version's walkers.
pub fn register(reg: &mut RegistryBuilder)
    ensures
        final(reg).entries@ == old(reg).entries@ + registrations(),
{
    reg.add(TypeKey::TileEntity, VERSION, 0, Action::Walk("minecraft:shelf", item_lists(&["Items"])));
    proof {
        assert(final(reg).entries@ =~= old(reg).entries@ + registrations());
    }
}

} // verus!
