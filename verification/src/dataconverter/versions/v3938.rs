//! V3938: arrows hold a block state at `inBlockState` and item stacks at
//! `item` and `weapon`.

use vstd::prelude::*;
use crate::nbt::NbtMap;
use crate::loss::LossReport;
use super::super::registry::{at_path_converted, entry, report_grows, Action, Registration, Registry, RegistryBuilder, TypeKey, Walker};
use super::super::dispatch::CustomWalker;
use super::super::walker::{convert, items};

verus! {

/// This version.
pub const VERSION: i32 = 3938;

/// The projectile walker: `inBlockState` is a block state.
pub fn walk_in_block_state(reg: &Registry, data: &mut NbtMap, from: i32, to: i32, report: &mut LossReport, fuel: u32)
    requires
        fuel > 0,
    ensures
        report_grows(*old(report), *final(report)),
        at_path_converted(reg.entries@, TypeKey::BlockState, "inBlockState"@, *old(data), *final(data), *old(report), *final(report), from, to, fuel as nat),
    decreases fuel, 3int,
{
    convert(reg, TypeKey::BlockState, data, "inBlockState", from, to, report, fuel);
}

/// The two walkers of one arrow id.
pub open spec fn arrow_registrations(id: &'static str) -> Seq<Registration> {
    seq![
        entry(TypeKey::Entity, VERSION, 0, Action::Walk(id, Walker::Custom(CustomWalker::V3938InBlockState))),
        entry(TypeKey::Entity, VERSION, 0, Action::Walk(id, Walker::Items(&["item", "weapon"]))),
    ]
}

fn register_arrow(reg: &mut RegistryBuilder, id: &'static str)
    ensures
        final(reg).entries@ == old(reg).entries@ + arrow_registrations(id),
{
    reg.add(TypeKey::Entity, VERSION, 0, Action::Walk(id, Walker::Custom(CustomWalker::V3938InBlockState)));
    reg.add(TypeKey::Entity, VERSION, 0, Action::Walk(id, items(&["item", "weapon"])));
    proof {
        assert(final(reg).entries@ =~= old(reg).entries@ + arrow_registrations(id));
    }
}

/// What this version registers.
pub open spec fn registrations() -> Seq<Registration> {
    arrow_registrations("minecraft:spectral_arrow") + arrow_registrations("minecraft:arrow")
}

/// Register this version's walkers.
pub fn register(reg: &mut RegistryBuilder)
    ensures
        final(reg).entries@ == old(reg).entries@ + registrations(),
{
    register_arrow(reg, "minecraft:spectral_arrow");
    register_arrow(reg, "minecraft:arrow");
    proof {
        assert(final(reg).entries@ =~= old(reg).entries@ + registrations());
    }
}

} // verus!
