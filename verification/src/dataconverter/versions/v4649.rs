//! V4649: the consumable component's `spear` animation becomes `trident`.

use vstd::prelude::*;
use crate::nbt::{lemma_put_back, map_of, str_of, NbtMap, NbtValue};
use crate::text::str_eq;
use super::super::registry::{entry, Action, Registration, RegistryBuilder, TypeKey};
use super::super::dispatch::Conv;

verus! {

/// This version.
pub const VERSION: i32 = 4649;

/// `data` with the consumable component's `animation` set to `to` when it
/// was `from`; otherwise `data` itself.
pub open spec fn animation_swapped(before: Map<Seq<char>, NbtValue>, after: Map<Seq<char>, NbtValue>, from: Seq<char>, to: Seq<char>) -> bool {
    match map_of(before, "minecraft:consumable"@) {
        Some(c) => if str_of(c@, "animation"@) == Some(from) {
            map_of(after, "minecraft:consumable"@) matches Some(c2)
                && c2@ == c@.insert("animation"@, c2@["animation"@])
                && str_of(c2@, "animation"@) == Some(to)
                && after.remove("minecraft:consumable"@) == before.remove("minecraft:consumable"@)
                && after.dom() == before.dom()
        } else {
            after == before
        },
        None => after == before,
    }
}

/// Set the consumable component's `animation` to `to` when it is `from`.
fn swap_animation(data: &mut NbtMap, from: &str, to: &str)
    ensures
        animation_swapped(old(data)@, final(data)@, from@, to@),
{
    let hit = match data.get_map("minecraft:consumable") {
        Some(c) => match c.get_string("animation") {
            Some(a) => str_eq(a, from),
            None => false,
        },
        None => false,
    };
    if !hit {
        return;
    }
    match data.take_map("minecraft:consumable") {
        Some(mut c) => {
            let ghost mid = data@;
            c.set_string("animation", to);
            data.set_map("minecraft:consumable", c);
            proof {
                lemma_put_back(old(data)@, mid, "minecraft:consumable"@, NbtValue::Compound(c));
            }
        },
        None => {},
    }
}

/// What [`spear_to_trident`] makes of `data_in`.
pub open spec fn spear_to_trident_effect(data_in: NbtMap, data_out: NbtMap) -> bool {
    &&& animation_swapped(data_in@, data_out@, "spear"@, "trident"@)
}

/// Forward: `spear` becomes `trident`.
pub fn spear_to_trident(data: &mut NbtMap)
    ensures
        animation_swapped(old(data)@, final(data)@, "spear"@, "trident"@),
{
    swap_animation(data, "spear", "trident");
}

/// What [`trident_to_spear`] makes of `data_in`.
pub open spec fn trident_to_spear_effect(data_in: NbtMap, data_out: NbtMap) -> bool {
    &&& animation_swapped(data_in@, data_out@, "trident"@, "spear"@)
}

/// Reverse: `trident` becomes `spear` (lossless).
pub fn trident_to_spear(data: &mut NbtMap)
    ensures
        animation_swapped(old(data)@, final(data)@, "trident"@, "spear"@),
{
    swap_animation(data, "trident", "spear");
}

/// What this version registers.
pub open spec fn registrations() -> Seq<Registration> {
    seq![
        entry(TypeKey::DataComponents, VERSION, 0, Action::Convert(Conv::V4649SpearToTrident)),
        entry(TypeKey::DataComponents, VERSION, 0, Action::Revert(Conv::V4649TridentToSpear)),
    ]
}

/// Register this version's converters.
pub fn register(reg: &mut RegistryBuilder)
    ensures
        final(reg).entries@ == old(reg).entries@ + registrations(),
{
    reg.add(TypeKey::DataComponents, VERSION, 0, Action::Convert(Conv::V4649SpearToTrident));
    reg.add(TypeKey::DataComponents, VERSION, 0, Action::Revert(Conv::V4649TridentToSpear));
    proof {
        assert(final(reg).entries@ =~= old(reg).entries@ + registrations());
    }
}

} // verus!
