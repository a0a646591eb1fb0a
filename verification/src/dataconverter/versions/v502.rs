//! V502: a zombie's `IsVillager` flag becomes `ZombieType` (its villager
//! profession, or a random one when the profession is missing or out of
//! range); `cooked_fished` is renamed `cooked_fish`.

use vstd::prelude::*;
use rand::Rng;
use crate::nbt::{bool_of, int_of, lookup, NbtMap, NbtValue};
use crate::loss::{one_more_with, report, report_loss, LossEntry, LossKind, LossReport, Severity};
use crate::text::decimal;
use super::super::helpers::{map_renamer, register_item_rename, rename_entries};
use super::super::registry::{entry, Action, Registration, RegistryBuilder, TypeKey};
use super::super::dispatch::{Conv, RenameTable};

verus! {

/// This version.
pub const VERSION: i32 = 502;

/// The `(old, new)` pairs of [`item_renames`].
pub open spec fn item_renames_pairs() -> Seq<(&'static str, &'static str)> {
    seq![("minecraft:cooked_fished", "minecraft:cooked_fish")]
}

/// The item renames of this version.
pub fn item_renames() -> (t: &'static [(&'static str, &'static str)])
    ensures
        t@ == item_renames_pairs(),
{
    &[("minecraft:cooked_fished", "minecraft:cooked_fish")]
}

/// A uniformly random profession in `0..6`, from the thread's random
/// number generator (`rand::Rng::gen_range`).
#[verifier::external_body]
fn random_profession() -> (r: i32)
    ensures
        0 <= r < 6,
{
    rand::thread_rng().gen_range(0..6)
}

/// The `ZombieType` a villager zombie gets: its profession when that is in
/// `0..6`, else `roll`.
pub open spec fn zombie_type_for(data: Map<Seq<char>, NbtValue>, roll: i32) -> i32 {
    let p = match int_of(data, "VillagerProfession"@) {
        Some(p) => p,
        None => -1i32,
    };
    if 0 <= p < 6 { p } else { roll }
}

/// A zombie with `IsVillager` true loses the flag and, unless it already has
/// one, gains `ZombieType` ([`zombie_type_for`] with `roll`); any other
/// compound is left alone.
pub open spec fn zombie_converted(before: Map<Seq<char>, NbtValue>, after: Map<Seq<char>, NbtValue>, roll: i32) -> bool {
    if bool_of(before, "IsVillager"@) == Some(true) {
        if before.dom().contains("ZombieType"@) {
            after == before.remove("IsVillager"@)
        } else {
            after == before.remove("IsVillager"@).insert("ZombieType"@, NbtValue::Int(zombie_type_for(before, roll)))
        }
    } else {
        after == before
    }
}

/// Forward, given the random profession `roll` to use when the recorded one
/// is missing or out of range: a zombie with `IsVillager` true loses the
/// flag and, unless it already has one, gains `ZombieType`.
pub fn convert_zombie_with(data: &mut NbtMap, roll: i32)
    requires
        0 <= roll < 6,
    ensures
        zombie_converted(old(data)@, final(data)@, roll),
{
    match data.get_bool("IsVillager") {
        Some(true) => {},
        _ => return,
    }
    proof {
        reveal_strlit("IsVillager");
        reveal_strlit("ZombieType");
        reveal_strlit("VillagerProfession");
    }
    assert("IsVillager"@[0] != "ZombieType"@[0]);
    assert("IsVillager"@[0] != "VillagerProfession"@[0]);
    data.take("IsVillager");
    if data.has_key("ZombieType") {
        return;
    }
    let mut profession = match data.get_i32("VillagerProfession") {
        Some(p) => p,
        None => -1,
    };
    if !(0 <= profession && profession < 6) {
        profession = roll;
    }
    data.set_i32("ZombieType", profession);
}

/// What [`convert_zombie`] makes of `data_in`.
pub open spec fn convert_zombie_effect(data_in: NbtMap, data_out: NbtMap) -> bool {
    &&& exists|roll: i32| 0 <= roll < 6 && #[trigger] zombie_converted(data_in@, data_out@, roll)
}

/// Forward: [`convert_zombie_with`], rolling a random profession for the
/// case that needs one.
pub fn convert_zombie(data: &mut NbtMap)
    ensures
        exists|roll: i32| 0 <= roll < 6 && #[trigger] zombie_converted(old(data)@, final(data)@, roll),
{
    let roll = random_profession();
    convert_zombie_with(data, roll);
}

/// The zombie after the reverse change: `ZombieType` 1 to 5 becomes a
/// villager zombie of that profession; any other type restores a plain
/// zombie, reported (0 approximated, the rest lost).
pub open spec fn zombie_reverted(
    before: Map<Seq<char>, NbtValue>,
    after: Map<Seq<char>, NbtValue>,
    r: Seq<LossEntry>,
    r2: Seq<LossEntry>,
) -> bool {
    match int_of(before, "ZombieType"@) {
                Some(z) => if 1 <= z <= 5 {
                    after == before.remove("ZombieType"@).insert("IsVillager"@, NbtValue::Byte(1i8)).insert(
                        "VillagerProfession"@, NbtValue::Int(z))
                        && r2 == r
                } else {
                    &&& after == before.remove("ZombieType"@).insert("IsVillager"@, NbtValue::Byte(0i8))
                    &&& if z == 0 {
                        one_more_with(r, r2, VERSION, LossKind::EntityMergeAmbiguous, Severity::Approximated,
                            "ZombieType=0 could be a plain zombie or a villager zombie with profession 0; restoring plain zombie"@)
                    } else if z == 6 {
                        one_more_with(r, r2, VERSION, LossKind::UnsupportedInTarget, Severity::Loss,
                            "Husk/ZombieType=6 has no pre-V502 representation; restoring plain zombie"@)
                    } else {
                        one_more_with(r, r2, VERSION, LossKind::UnsupportedInTarget, Severity::Loss,
                            "ZombieType="@ + decimal(z as int) + " has no pre-V502 villager-zombie representation; restoring plain zombie"@)
                    }
                },
                None => after == before && r2 == r,
            }
}

/// What [`revert_zombie`] makes of `data_in` and the report `rep_in`.
pub open spec fn revert_zombie_effect(data_in: NbtMap, data_out: NbtMap, rep_in: LossReport, rep_out: LossReport) -> bool {
    &&& zombie_reverted(data_in@, data_out@, rep_in.entries@, rep_out.entries@)
}

/// Reverse: `ZombieType` 1 to 5 is a villager zombie with that profession;
/// 0 is restored as a plain zombie (approximated: it may have been a
/// villager zombie of profession 0); anything else (6 is the husk) has no
/// earlier form and is a loss.
pub fn revert_zombie(data: &mut NbtMap, rep: &mut LossReport)
    ensures
        zombie_reverted(old(data)@, final(data)@, old(rep).entries@, final(rep).entries@),
{
    let z = match data.get_i32("ZombieType") {
        Some(z) => z,
        None => return,
    };
    data.take("ZombieType");
    if 1 <= z && z <= 5 {
        data.set_bool("IsVillager", true);
        data.set_i32("VillagerProfession", z);
    } else if z == 0 {
        data.set_bool("IsVillager", false);
        report(
            rep,
            VERSION,
            LossKind::EntityMergeAmbiguous,
            Severity::Approximated,
            "ZombieType=0 could be a plain zombie or a villager zombie with profession 0; restoring plain zombie",
        );
    } else if z == 6 {
        data.set_bool("IsVillager", false);
        report(
            rep,
            VERSION,
            LossKind::UnsupportedInTarget,
            Severity::Loss,
            "Husk/ZombieType=6 has no pre-V502 representation; restoring plain zombie",
        );
    } else {
        data.set_bool("IsVillager", false);
        let mut msg = String::from_str("ZombieType=");
        let n = crate::text::int_text(z as i64);
        msg.append(n.as_str());
        msg.append(" has no pre-V502 villager-zombie representation; restoring plain zombie");
        report_loss(rep, VERSION, LossKind::UnsupportedInTarget, Severity::Loss, msg);
    }
}

/// A villager zombie of profession 1 to 5 converted up and back comes back
/// as it was, with nothing reported, whatever the roll.
pub proof fn law_villager_zombie_round_trip(
    old: Map<Seq<char>, NbtValue>,
    mid: Map<Seq<char>, NbtValue>,
    new: Map<Seq<char>, NbtValue>,
    roll: i32,
    p: i32,
    r: Seq<LossEntry>,
    r2: Seq<LossEntry>,
)
    requires
        lookup(old, "IsVillager"@) == Some(NbtValue::Byte(1)),
        lookup(old, "VillagerProfession"@) == Some(NbtValue::Int(p)),
        1 <= p <= 5,
        !old.dom().contains("ZombieType"@),
        zombie_converted(old, mid, roll),
        zombie_reverted(mid, new, r, r2),
    ensures
        new == old,
        r2 == r,
{
    reveal_strlit("IsVillager");
    reveal_strlit("ZombieType");
    reveal_strlit("VillagerProfession");
    assert("IsVillager"@[0] != "ZombieType"@[0]);
    assert("IsVillager"@[0] != "VillagerProfession"@[0]);
    assert("ZombieType"@[0] != "VillagerProfession"@[0]);
    assert(mid == old.remove("IsVillager"@).insert("ZombieType"@, NbtValue::Int(p)));
    assert(int_of(mid, "ZombieType"@) == Some(p));
    assert(new =~= old);
}

/// What this version registers.
pub open spec fn registrations() -> Seq<Registration> {
    rename_entries(TypeKey::ItemName, TypeKey::ItemStack, VERSION, RenameTable::V502Items) + seq![
        entry(TypeKey::Entity, VERSION, 0, Action::ConvertId("Zombie", Conv::V502ConvertZombie)),
        entry(TypeKey::Entity, VERSION, 0, Action::RevertId("Zombie", Conv::V502RevertZombie)),
    ]
}

/// Register this version's converters.
pub fn register(reg: &mut RegistryBuilder)
    ensures
        final(reg).entries@ == old(reg).entries@ + registrations(),
{
    register_item_rename(reg, VERSION, map_renamer(RenameTable::V502Items));
    reg.add(TypeKey::Entity, VERSION, 0, Action::ConvertId("Zombie", Conv::V502ConvertZombie));
    reg.add(TypeKey::Entity, VERSION, 0, Action::RevertId("Zombie", Conv::V502RevertZombie));
    proof {
        assert(final(reg).entries@ =~= old(reg).entries@ + registrations());
    }
}

} // verus!
