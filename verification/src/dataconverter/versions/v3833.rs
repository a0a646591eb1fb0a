//! V3833: a `brushable_block`'s `item` is dropped when it holds nothing
//! (`minecraft:air`, or a count that is not positive).

use vstd::prelude::*;
use crate::nbt::{map_of, NbtMap};
use super::super::helpers::{holds_nothing, item_holds_nothing, namespaced};
use super::super::registry::{entry, Action, Registration, RegistryBuilder, TypeKey};
use super::super::dispatch::Conv;

verus! {

/// This version.
pub const VERSION: i32 = 3833;

/// `NamespaceUtil.correctNamespace`: namespace an unnamespaced, well-formed
/// path; otherwise the input unchanged.
pub fn correct_namespace(value: &str) -> (r: String)
    ensures
        r@ == namespaced(value@),
{
    super::super::helpers::correct_namespace(value)
}

/// What [`drop_empty_item`] makes of `data_in`.
pub open spec fn drop_empty_item_effect(data_in: NbtMap, data_out: NbtMap) -> bool {
    &&& match map_of(data_in@, "item"@) {
                Some(b) => if holds_nothing(b) {
                    data_out@ == data_in@.remove("item"@)
                } else {
                    data_out@ == data_in@
                },
                None => data_out@ == data_in@,
            }
}

/// Drop `item` when it is a compound that holds nothing.
pub fn drop_empty_item(data: &mut NbtMap)
    ensures
        match map_of(old(data)@, "item"@) {
            Some(b) => if holds_nothing(b) {
                final(data)@ == old(data)@.remove("item"@)
            } else {
                final(data)@ == old(data)@
            },
            None => final(data)@ == old(data)@,
        },
{
    let empty = match data.get_map("item") {
        Some(b) => item_holds_nothing(b),
        None => return,
    };
    if empty {
        data.take("item");
    }
}

/// What this version registers.
pub open spec fn registrations() -> Seq<Registration> {
    seq![entry(TypeKey::TileEntity, VERSION, 0, Action::ConvertId("minecraft:brushable_block", Conv::V3833DropEmptyItem))]
}

/// Register this version's converters.
pub fn register(reg: &mut RegistryBuilder)
    ensures
        final(reg).entries@ == old(reg).entries@ + registrations(),
{
    reg.add(TypeKey::TileEntity, VERSION, 0, Action::ConvertId("minecraft:brushable_block", Conv::V3833DropEmptyItem));
    proof {
        assert(final(reg).entries@ =~= old(reg).entries@ + registrations());
    }
}

} // verus!
