//! V4420: the area effect cloud's `Particle` becomes `custom_particle`,
//! which holds a particle.

use vstd::prelude::*;
use crate::nbt::{renamed, NbtMap};
use crate::loss::LossReport;
use super::super::registry::{at_path_converted, entry, report_grows, Action, Registration, Registry, RegistryBuilder, TypeKey, Walker};
use super::super::dispatch::{Conv, CustomWalker};
use super::super::walker::convert;

verus! {

/// This version.
pub const VERSION: i32 = 4420;

/// What [`rename_particle`] makes of `data_in`.
pub open spec fn rename_particle_effect(data_in: NbtMap, data_out: NbtMap) -> bool {
    &&& data_out@ == renamed(data_in@, "Particle"@, "custom_particle"@)
}

/// Forward: rename `Particle` to `custom_particle`.
pub fn rename_particle(data: &mut NbtMap)
    ensures
        final(data)@ == renamed(old(data)@, "Particle"@, "custom_particle"@),
{
    data.rename_key("Particle", "custom_particle");
}

/// What [`restore_particle`] makes of `data_in`.
pub open spec fn restore_particle_effect(data_in: NbtMap, data_out: NbtMap) -> bool {
    &&& data_out@ == renamed(data_in@, "custom_particle"@, "Particle"@)
}

/// Reverse: rename `custom_particle` back to `Particle` (lossless).
pub fn restore_particle(data: &mut NbtMap)
    ensures
        final(data)@ == renamed(old(data)@, "custom_particle"@, "Particle"@),
{
    data.rename_key("custom_particle", "Particle");
}

/// The area effect cloud walker: `custom_particle` is a particle.
pub fn walk_particle(reg: &Registry, data: &mut NbtMap, from: i32, to: i32, report: &mut LossReport, fuel: u32)
    requires
        fuel > 0,
    ensures
        report_grows(*old(report), *final(report)),
        at_path_converted(reg.entries@, TypeKey::Particle, "custom_particle"@, *old(data), *final(data), *old(report), *final(report), from, to, fuel as nat),
    decreases fuel, 3int,
{
    convert(reg, TypeKey::Particle, data, "custom_particle", from, to, report, fuel);
}

/// What this version registers.
pub open spec fn registrations() -> Seq<Registration> {
    seq![
        entry(TypeKey::Entity, VERSION, 0, Action::ConvertId("minecraft:area_effect_cloud", Conv::V4420RenameParticle)),
        entry(TypeKey::Entity, VERSION, 0, Action::RevertId("minecraft:area_effect_cloud", Conv::V4420RestoreParticle)),
        entry(TypeKey::Entity, VERSION, 0, Action::Walk("minecraft:area_effect_cloud", Walker::Custom(CustomWalker::V4420Particle))),
    ]
}

/// Register this version's converters and walker.
pub fn register(reg: &mut RegistryBuilder)
    ensures
        final(reg).entries@ == old(reg).entries@ + registrations(),
{
    reg.add(TypeKey::Entity, VERSION, 0, Action::ConvertId("minecraft:area_effect_cloud", Conv::V4420RenameParticle));
    reg.add(TypeKey::Entity, VERSION, 0, Action::RevertId("minecraft:area_effect_cloud", Conv::V4420RestoreParticle));
    reg.add(TypeKey::Entity, VERSION, 0, Action::Walk("minecraft:area_effect_cloud", Walker::Custom(CustomWalker::V4420Particle)));
    proof {
        assert(final(reg).entries@ =~= old(reg).entries@ + registrations());
    }
}

} // verus!
