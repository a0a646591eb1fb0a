//! V4070: the pale oak chest boat holds an `Items` list of item stacks.

use vstd::prelude::*;
use super::super::registry::{entry, Action, Registration, RegistryBuilder, TypeKey, Walker};
use super::super::walker::item_lists;

verus! {

/// This version.
pub const VERSION: i32 = 4070;

/// What this version registers.
pub open spec fn registrations() -> Seq<Registration> {
    seq![entry(TypeKey::Entity, VERSION, 0, Action::Walk("minecraft:pale_oak_chest_boat", Walker::ItemLists(&["Items"])))]
}

/// Register this version's walkers.
pub fn register(reg: &mut RegistryBuilder)
    ensures
        final(reg).entries@ == old(reg).entries@ + registrations(),
{
    reg.add(TypeKey::Entity, VERSION, 0, Action::Walk("minecraft:pale_oak_chest_boat", item_lists(&["Items"])));
    proof {
        assert(final(reg).entries@ =~= old(reg).entries@ + registrations());
    }
}

} // verus!
