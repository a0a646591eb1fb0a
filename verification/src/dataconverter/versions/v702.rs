//! V702: a zombie's `ZombieType` becomes its id: 1 to 5 a `ZombieVillager`
//! with `Profession` one less, 6 a `Husk`. Zombie villagers walk their
//! trade offers.

use vstd::prelude::*;
use crate::nbt::{int_of, is_str, NbtMap, NbtValue};
use crate::loss::LossReport;
use super::super::registry::{entry, report_grows, Action, Registration, Registry, RegistryBuilder, TypeKey, Walker};
use super::super::dispatch::{Conv, CustomWalker};
use super::super::walker::{convert_list, lemma_replaced_at};
use super::super::registry::{compound_of, list_converted};
use super::v99::offers_walked;

verus! {

/// This version.
pub const VERSION: i32 = 702;

/// An integer read with 0 for a missing one.
pub open spec fn int_or_zero(m: Map<Seq<char>, NbtValue>, k: Seq<char>) -> i32 {
    match int_of(m, k) {
        Some(t) => t,
        None => 0i32,
    }
}

/// What [`split_zombie`] makes of `data_in`.
pub open spec fn split_zombie_effect(data_in: NbtMap, data_out: NbtMap) -> bool {
    &&& ({
                let t = int_or_zero(data_in@, "ZombieType"@);
                let base = data_in@.remove("ZombieType"@);
                if 1 <= t <= 5 {
                    data_out@ == base.insert("id"@, data_out@["id"@]).insert("Profession"@, NbtValue::Int((t - 1) as i32))
                        && is_str(data_out@["id"@], "ZombieVillager"@)
                } else if t == 6 {
                    data_out@ == base.insert("id"@, data_out@["id"@]) && is_str(data_out@["id"@], "Husk"@)
                } else {
                    data_out@ == base
                }
            })
}

/// Forward: `ZombieType` (0 when missing) goes; 1 to 5 make a zombie
/// villager of profession `type - 1`, 6 a husk.
pub fn split_zombie(data: &mut NbtMap)
    ensures
        ({
            let t = int_or_zero(old(data)@, "ZombieType"@);
            let base = old(data)@.remove("ZombieType"@);
            if 1 <= t <= 5 {
                final(data)@ == base.insert("id"@, final(data)@["id"@]).insert("Profession"@, NbtValue::Int((t - 1) as i32))
                    && is_str(final(data)@["id"@], "ZombieVillager"@)
            } else if t == 6 {
                final(data)@ == base.insert("id"@, final(data)@["id"@]) && is_str(final(data)@["id"@], "Husk"@)
            } else {
                final(data)@ == base
            }
        }),
{
    let zombie_type = match data.get_i32("ZombieType") {
        Some(t) => t,
        None => 0,
    };
    data.take("ZombieType");
    proof {
        reveal_strlit("id");
        reveal_strlit("Profession");
        assert("id"@[0] != "Profession"@[0]);
    }
    if 1 <= zombie_type && zombie_type <= 5 {
        data.set_string("id", "ZombieVillager");
        data.set_i32("Profession", zombie_type - 1);
    } else if zombie_type == 6 {
        data.set_string("id", "Husk");
    }
}

/// What [`merge_zombie_villager`] makes of `data_in`.
pub open spec fn merge_zombie_villager_effect(data_in: NbtMap, data_out: NbtMap) -> bool {
    &&& ({
                let p = int_or_zero(data_in@, "Profession"@);
                let t = if p == i32::MAX { i32::MIN } else { (p + 1) as i32 };
                data_out@ == data_in@.remove("Profession"@).insert("id"@, data_out@["id"@]).insert("ZombieType"@, NbtValue::Int(t))
                    && is_str(data_out@["id"@], "Zombie"@)
            })
}

/// Reverse, on `ZombieVillager`: `Profession` (0 when missing) goes back
/// into `ZombieType` as `Profession + 1` (wrapping at the top of the range).
pub fn merge_zombie_villager(data: &mut NbtMap)
    ensures
        ({
            let p = int_or_zero(old(data)@, "Profession"@);
            let t = if p == i32::MAX { i32::MIN } else { (p + 1) as i32 };
            final(data)@ == old(data)@.remove("Profession"@).insert("id"@, final(data)@["id"@]).insert("ZombieType"@, NbtValue::Int(t))
                && is_str(final(data)@["id"@], "Zombie"@)
        }),
{
    let profession = match data.get_i32("Profession") {
        Some(p) => p,
        None => 0,
    };
    data.take("Profession");
    proof {
        reveal_strlit("id");
        reveal_strlit("ZombieType");
        assert("id"@[0] != "ZombieType"@[0]);
    }
    data.set_string("id", "Zombie");
    data.set_i32("ZombieType", profession.wrapping_add(1));
}

/// What [`merge_husk`] makes of `data_in`.
pub open spec fn merge_husk_effect(data_in: NbtMap, data_out: NbtMap) -> bool {
    &&& data_out@ == data_in@.insert("id"@, data_out@["id"@]).insert("ZombieType"@, NbtValue::Int(6))
    &&& is_str(data_out@["id"@], "Zombie"@)
}

/// Reverse, on `Husk`: a zombie of type 6.
pub fn merge_husk(data: &mut NbtMap)
    ensures
        final(data)@ == old(data)@.insert("id"@, final(data)@["id"@]).insert("ZombieType"@, NbtValue::Int(6)),
        is_str(final(data)@["id"@], "Zombie"@),
{
    proof {
        reveal_strlit("id");
        reveal_strlit("ZombieType");
        assert("id"@[0] != "ZombieType"@[0]);
    }
    data.set_string("id", "Zombie");
    data.set_i32("ZombieType", 6);
}

/// What [`restore_zombie_type`] makes of `data_in`.
pub open spec fn restore_zombie_type_effect(data_in: NbtMap, data_out: NbtMap) -> bool {
    &&& data_out@ == data_in@.insert("ZombieType"@, NbtValue::Int(0))
}

/// Reverse, on `Zombie`: `ZombieType` 0 is restored.
pub fn restore_zombie_type(data: &mut NbtMap)
    ensures
        final(data)@ == old(data)@.insert("ZombieType"@, NbtValue::Int(0)),
{
    data.set_i32("ZombieType", 0);
}

/// The trade offers walker: `Offers.Recipes` is a list of trades.
pub fn walk_offers(reg: &Registry, data: &mut NbtMap, from: i32, to: i32, report: &mut LossReport, fuel: u32)
    requires
        fuel > 0,
    ensures
        report_grows(*old(report), *final(report)),
        offers_walked(reg.entries@, *old(data), *final(data), *old(report), *final(report), from, to, fuel as nat),
    decreases fuel, 3int,
{
    match data.take_map("Offers") {
        Some(mut offers) => {
            let ghost mid = *data;
            let ghost o0 = offers;
            convert_list(reg, TypeKey::VillagerTrade, &mut offers, "Recipes", from, to, report, fuel);
            data.set_map("Offers", offers);
            proof {
                lemma_replaced_at(old(data)@, mid@, "Offers"@, NbtValue::Compound(offers));
                assert(compound_of(offers) == NbtValue::Compound(offers));
                assert(list_converted(reg.entries@, TypeKey::VillagerTrade, "Recipes"@, o0, offers, *old(report), *report, from, to, fuel as nat));
            }
        },
        None => {},
    }
}

/// What this version registers.
pub open spec fn registrations() -> Seq<Registration> {
    seq![
        entry(TypeKey::Entity, VERSION, 0, Action::ConvertId("Zombie", Conv::V702SplitZombie)),
        entry(TypeKey::Entity, VERSION, 0, Action::RevertId("ZombieVillager", Conv::V702MergeZombieVillager)),
        entry(TypeKey::Entity, VERSION, 0, Action::RevertId("Husk", Conv::V702MergeHusk)),
        entry(TypeKey::Entity, VERSION, 0, Action::RevertId("Zombie", Conv::V702RestoreZombieType)),
        entry(TypeKey::Entity, VERSION, 0, Action::Walk("ZombieVillager", Walker::Custom(CustomWalker::V702Offers))),
    ]
}

/// Register this version's converters and walker.
pub fn register(reg: &mut RegistryBuilder)
    ensures
        final(reg).entries@ == old(reg).entries@ + registrations(),
{
    reg.add(TypeKey::Entity, VERSION, 0, Action::ConvertId("Zombie", Conv::V702SplitZombie));
    reg.add(TypeKey::Entity, VERSION, 0, Action::RevertId("ZombieVillager", Conv::V702MergeZombieVillager));
    reg.add(TypeKey::Entity, VERSION, 0, Action::RevertId("Husk", Conv::V702MergeHusk));
    reg.add(TypeKey::Entity, VERSION, 0, Action::RevertId("Zombie", Conv::V702RestoreZombieType));
    reg.add(TypeKey::Entity, VERSION, 0, Action::Walk("ZombieVillager", Walker::Custom(CustomWalker::V702Offers)));
    proof {
        assert(final(reg).entries@ =~= old(reg).entries@ + registrations());
    }
}

} // verus!
