//! V3828: a villager trade's `buyB` item is dropped when it holds nothing
//! (`minecraft:air`, or a count that is not positive).

use vstd::prelude::*;
use crate::nbt::{map_of, NbtMap};
use super::super::helpers::{holds_nothing, item_holds_nothing};
use super::super::registry::{entry, Action, Registration, RegistryBuilder, TypeKey};
use super::super::dispatch::Conv;

verus! {

/// This version.
pub const VERSION: i32 = 3828;

/// What [`drop_empty_buy_b`] makes of `data_in`.
pub open spec fn drop_empty_buy_b_effect(data_in: NbtMap, data_out: NbtMap) -> bool {
    &&& match map_of(data_in@, "buyB"@) {
                Some(b) => if holds_nothing(b) {
                    data_out@ == data_in@.remove("buyB"@)
                } else {
                    data_out@ == data_in@
                },
                None => data_out@ == data_in@,
            }
}

/// Drop `buyB` when it is a compound that holds nothing.
pub fn drop_empty_buy_b(data: &mut NbtMap)
    ensures
        match map_of(old(data)@, "buyB"@) {
            Some(b) => if holds_nothing(b) {
                final(data)@ == old(data)@.remove("buyB"@)
            } else {
                final(data)@ == old(data)@
            },
            None => final(data)@ == old(data)@,
        },
{
    let empty = match data.get_map("buyB") {
        Some(b) => item_holds_nothing(b),
        None => return,
    };
    if empty {
        data.take("buyB");
    }
}

/// What this version registers.
pub open spec fn registrations() -> Seq<Registration> {
    seq![entry(TypeKey::VillagerTrade, VERSION, 0, Action::Convert(Conv::V3828DropEmptyBuyB))]
}

/// Register this version's converters.
pub fn register(reg: &mut RegistryBuilder)
    ensures
        final(reg).entries@ == old(reg).entries@ + registrations(),
{
    reg.add(TypeKey::VillagerTrade, VERSION, 0, Action::Convert(Conv::V3828DropEmptyBuyB));
    proof {
        assert(final(reg).entries@ =~= old(reg).entries@ + registrations());
    }
}

} // verus!
