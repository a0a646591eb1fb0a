//! V4064: the item component `minecraft:fire_resistant` becomes
//! `minecraft:damage_resistant` with `types` `#minecraft:is_fire`.

use vstd::prelude::*;
use crate::nbt::{is_empty_compound, lemma_put_back, map_of, str_of, within, NbtMap, NbtValue};
use crate::text::str_eq;
use super::super::registry::{entry, Action, Registration, RegistryBuilder, TypeKey};
use super::super::dispatch::Conv;

verus! {

/// This version.
pub const VERSION: i32 = 4064;

/// The components after the forward change.
pub open spec fn fire_to_damage(c: Map<Seq<char>, NbtValue>, c2: Map<Seq<char>, NbtValue>) -> bool {
    if c.dom().contains("minecraft:fire_resistant"@) {
        &&& c2 == c.remove("minecraft:fire_resistant"@).insert("minecraft:damage_resistant"@, c2["minecraft:damage_resistant"@])
        &&& map_of(c2, "minecraft:damage_resistant"@) matches Some(d)
        &&& d@.dom() == set!["types"@]
        &&& str_of(d@, "types"@) == Some("#minecraft:is_fire"@)
    } else {
        c2 == c
    }
}

/// The components after the reverse change.
pub open spec fn damage_to_fire(c: Map<Seq<char>, NbtValue>, c2: Map<Seq<char>, NbtValue>) -> bool {
    if (match map_of(c, "minecraft:damage_resistant"@) {
        Some(d) => str_of(d@, "types"@) == Some("#minecraft:is_fire"@),
        None => false,
    }) {
        &&& c2 == c.remove("minecraft:damage_resistant"@).insert("minecraft:fire_resistant"@, c2["minecraft:fire_resistant"@])
        &&& is_empty_compound(c2["minecraft:fire_resistant"@])
    } else {
        c2 == c
    }
}

/// What [`fire_resistant_to_damage_resistant`] makes of `data_in`.
pub open spec fn fire_resistant_to_damage_resistant_effect(data_in: NbtMap, data_out: NbtMap) -> bool {
    &&& within(data_in@, data_out@, "components"@, |c, c2| fire_to_damage(c, c2))
}

/// Forward, on an item stack's `components`.
pub fn fire_resistant_to_damage_resistant(data: &mut NbtMap)
    ensures
        within(old(data)@, final(data)@, "components"@, |c, c2| fire_to_damage(c, c2)),
{
    match data.take_map("components") {
        Some(mut c) => {
            let ghost mid = data@;
            let ghost c0 = c@;
            if c.has_key("minecraft:fire_resistant") {
                c.take("minecraft:fire_resistant");
                let mut d = NbtMap::new();
                d.set_string("types", "#minecraft:is_fire");
                proof {
                    assert(d@.dom() =~= set!["types"@]);
                }
                c.set_map("minecraft:damage_resistant", d);
            }
            data.set_map("components", c);
            proof {
                lemma_put_back(old(data)@, mid, "components"@, NbtValue::Compound(c));
                assert(fire_to_damage(c0, c@));
            }
        },
        None => {},
    }
}

/// What [`damage_resistant_to_fire_resistant`] makes of `data_in`.
pub open spec fn damage_resistant_to_fire_resistant_effect(data_in: NbtMap, data_out: NbtMap) -> bool {
    &&& within(data_in@, data_out@, "components"@, |c, c2| damage_to_fire(c, c2))
}

/// Reverse, on an item stack's `components`: the exact forward output goes
/// back to the unit component (lossless); any other `damage_resistant` stays.
pub fn damage_resistant_to_fire_resistant(data: &mut NbtMap)
    ensures
        within(old(data)@, final(data)@, "components"@, |c, c2| damage_to_fire(c, c2)),
{
    match data.take_map("components") {
        Some(mut c) => {
            let ghost mid = data@;
            let ghost c0 = c@;
            let is_fire = match c.get_map("minecraft:damage_resistant") {
                Some(d) => match d.get_string("types") {
                    Some(t) => str_eq(t, "#minecraft:is_fire"),
                    None => false,
                },
                None => false,
            };
            if is_fire {
                c.take("minecraft:damage_resistant");
                c.set_map("minecraft:fire_resistant", NbtMap::new());
            }
            data.set_map("components", c);
            proof {
                lemma_put_back(old(data)@, mid, "components"@, NbtValue::Compound(c));
                assert(damage_to_fire(c0, c@));
            }
        },
        None => {},
    }
}

/// What this version registers.
pub open spec fn registrations() -> Seq<Registration> {
    seq![
        entry(TypeKey::ItemStack, VERSION, 0, Action::Convert(Conv::V4064FireToDamage)),
        entry(TypeKey::ItemStack, VERSION, 0, Action::Revert(Conv::V4064DamageToFire)),
    ]
}

/// Register this version's converters.
pub fn register(reg: &mut RegistryBuilder)
    ensures
        final(reg).entries@ == old(reg).entries@ + registrations(),
{
    reg.add(TypeKey::ItemStack, VERSION, 0, Action::Convert(Conv::V4064FireToDamage));
    reg.add(TypeKey::ItemStack, VERSION, 0, Action::Revert(Conv::V4064DamageToFire));
    proof {
        assert(final(reg).entries@ =~= old(reg).entries@ + registrations());
    }
}

} // verus!
