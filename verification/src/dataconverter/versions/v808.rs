//! V808: a shulker without a numeric `Color` gets color 10; the shulker box
//! holds an `Items` list of item stacks.

use vstd::prelude::*;
use crate::nbt::{long_of, NbtMap, NbtValue};
use super::super::registry::{entry, Action, Registration, RegistryBuilder, TypeKey, Walker};
use super::super::dispatch::Conv;
use super::super::walker::item_lists;

verus! {

/// This version.
pub const VERSION: i32 = 808;

/// What [`default_color`] makes of `data_in`.
pub open spec fn default_color_effect(data_in: NbtMap, data_out: NbtMap) -> bool {
    &&& if long_of(data_in@, "Color"@) is None {
                data_out@ == data_in@.insert("Color"@, NbtValue::Byte(10))
            } else {
                data_out@ == data_in@
            }
}

/// Forward: a shulker without a numeric `Color` gets the byte 10.
pub fn default_color(data: &mut NbtMap)
    ensures
        if long_of(old(data)@, "Color"@) is None {
            final(data)@ == old(data)@.insert("Color"@, NbtValue::Byte(10))
        } else {
            final(data)@ == old(data)@
        },
{
    if data.get_i64("Color").is_none() {
        data.set_byte("Color", 10);
    }
}

/// What [`drop_default_color`] makes of `data_in`.
pub open spec fn drop_default_color_effect(data_in: NbtMap, data_out: NbtMap) -> bool {
    &&& if long_of(data_in@, "Color"@) == Some(10i64) {
                data_out@ == data_in@.remove("Color"@)
            } else {
                data_out@ == data_in@
            }
}

/// Reverse: drop a `Color` of 10, the color the older format left implicit;
/// any other color stays.
pub fn drop_default_color(data: &mut NbtMap)
    ensures
        if long_of(old(data)@, "Color"@) == Some(10i64) {
            final(data)@ == old(data)@.remove("Color"@)
        } else {
            final(data)@ == old(data)@
        },
{
    match data.get_i64("Color") {
        Some(c) => {
            if c == 10 {
                data.take("Color");
            }
        },
        None => {},
    }
}

/// What this version registers.
pub open spec fn registrations() -> Seq<Registration> {
    seq![
        entry(TypeKey::Entity, VERSION, 1, Action::ConvertId("minecraft:shulker", Conv::V808DefaultColor)),
        entry(TypeKey::Entity, VERSION, 1, Action::RevertId("minecraft:shulker", Conv::V808DropDefaultColor)),
        entry(TypeKey::TileEntity, VERSION, 0, Action::Walk("minecraft:shulker_box", Walker::ItemLists(&["Items"]))),
    ]
}

/// Register this version's converters and walker.
pub fn register(reg: &mut RegistryBuilder)
    ensures
        final(reg).entries@ == old(reg).entries@ + registrations(),
{
    reg.add(TypeKey::Entity, VERSION, 1, Action::ConvertId("minecraft:shulker", Conv::V808DefaultColor));
    reg.add(TypeKey::Entity, VERSION, 1, Action::RevertId("minecraft:shulker", Conv::V808DropDefaultColor));
    reg.add(TypeKey::TileEntity, VERSION, 0, Action::Walk("minecraft:shulker_box", item_lists(&["Items"])));
    proof {
        assert(final(reg).entries@ =~= old(reg).entries@ + registrations());
    }
}

} // verus!
