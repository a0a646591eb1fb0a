//! V4302: the test instance block holds a text component at `data` and a
//! list of them at `errors`.

use vstd::prelude::*;
use crate::nbt::NbtMap;
use crate::loss::LossReport;
use super::super::registry::{at_path_converted, list_converted, entry, report_grows, Action, Registration, Registry, RegistryBuilder, TypeKey, Walker};
use super::super::dispatch::CustomWalker;
use super::super::walker::{convert, convert_list};

verus! {

/// This version.
pub const VERSION: i32 = 4302;

/// The test instance walker: `data` is a text component.
pub fn walk_data(reg: &Registry, data: &mut NbtMap, from: i32, to: i32, report: &mut LossReport, fuel: u32)
    requires
        fuel > 0,
    ensures
        report_grows(*old(report), *final(report)),
        at_path_converted(reg.entries@, TypeKey::TextComponent, "data"@, *old(data), *final(data), *old(report), *final(report), from, to, fuel as nat),
    decreases fuel, 3int,
{
    convert(reg, TypeKey::TextComponent, data, "data", from, to, report, fuel);
}

/// The test instance walker: `errors` is a list of text components.
pub fn walk_errors(reg: &Registry, data: &mut NbtMap, from: i32, to: i32, report: &mut LossReport, fuel: u32)
    requires
        fuel > 0,
    ensures
        report_grows(*old(report), *final(report)),
        list_converted(reg.entries@, TypeKey::TextComponent, "errors"@, *old(data), *final(data), *old(report), *final(report), from, to, fuel as nat),
    decreases fuel, 3int,
{
    convert_list(reg, TypeKey::TextComponent, data, "errors", from, to, report, fuel);
}

/// What this version registers.
pub open spec fn registrations() -> Seq<Registration> {
    seq![
        entry(TypeKey::TileEntity, VERSION, 0, Action::Walk("minecraft:test_instance_block", Walker::Custom(CustomWalker::V4302Data))),
        entry(TypeKey::TileEntity, VERSION, 0, Action::Walk("minecraft:test_instance_block", Walker::Custom(CustomWalker::V4302Errors))),
    ]
}

/// Register this version's walkers.
pub fn register(reg: &mut RegistryBuilder)
    ensures
        final(reg).entries@ == old(reg).entries@ + registrations(),
{
    reg.add(TypeKey::TileEntity, VERSION, 0, Action::Walk("minecraft:test_instance_block", Walker::Custom(CustomWalker::V4302Data)));
    reg.add(TypeKey::TileEntity, VERSION, 0, Action::Walk("minecraft:test_instance_block", Walker::Custom(CustomWalker::V4302Errors)));
    proof {
        assert(final(reg).entries@ =~= old(reg).entries@ + registrations());
    }
}

} // verus!
