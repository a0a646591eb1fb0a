//! V4176: a lock whose only content is an empty custom name is invalid and
//! is removed, from block entities (`lock`) and from data components
//! (`minecraft:lock`).

use vstd::prelude::*;
use crate::nbt::{map_of, str_of, NbtMap, NbtValue};
use crate::text::str_eq;
use super::super::registry::{entry, Action, Registration, RegistryBuilder, TypeKey};
use super::super::dispatch::Conv;

verus! {

/// This version.
pub const VERSION: i32 = 4176;

/// The compound at `path` is a lock holding nothing but `components`, which
/// holds nothing but a `minecraft:custom_name` of `""` (the quoted empty
/// text).
pub open spec fn is_invalid_lock(root: Map<Seq<char>, NbtValue>, path: Seq<char>) -> bool {
    match map_of(root, path) {
        Some(lock) => lock@.dom().len() == 1 && match map_of(lock@, "components"@) {
            Some(c) => c@.dom().len() == 1 && str_of(c@, "minecraft:custom_name"@) == Some("\"\""@),
            None => false,
        },
        None => false,
    }
}

/// Remove the lock at `path` when it is invalid.
pub fn fix_invalid_lock(root: &mut NbtMap, path: &str)
    ensures
        if is_invalid_lock(old(root)@, path@) {
            final(root)@ == old(root)@.remove(path@)
        } else {
            final(root)@ == old(root)@
        },
{
    let should_remove = match root.get_map(path) {
        Some(lock) => {
            if lock.len() == 1 {
                match lock.get_map("components") {
                    Some(components) => {
                        components.len() == 1 && match components.get_string("minecraft:custom_name") {
                            Some(n) => str_eq(n, "\"\""),
                            None => false,
                        }
                    },
                    None => false,
                }
            } else {
                false
            }
        },
        None => false,
    };
    if should_remove {
        root.take(path);
    }
}

/// What [`fix_block_entity_lock`] makes of `data_in`.
pub open spec fn fix_block_entity_lock_effect(data_in: NbtMap, data_out: NbtMap) -> bool {
    &&& if is_invalid_lock(data_in@, "lock"@) {
                data_out@ == data_in@.remove("lock"@)
            } else {
                data_out@ == data_in@
            }
}

/// Forward, on block entities: the `lock` field.
pub fn fix_block_entity_lock(data: &mut NbtMap)
    ensures
        if is_invalid_lock(old(data)@, "lock"@) {
            final(data)@ == old(data)@.remove("lock"@)
        } else {
            final(data)@ == old(data)@
        },
{
    fix_invalid_lock(data, "lock");
}

/// What [`fix_component_lock`] makes of `data_in`.
pub open spec fn fix_component_lock_effect(data_in: NbtMap, data_out: NbtMap) -> bool {
    &&& if is_invalid_lock(data_in@, "minecraft:lock"@) {
                data_out@ == data_in@.remove("minecraft:lock"@)
            } else {
                data_out@ == data_in@
            }
}

/// Forward, on data components: the `minecraft:lock` component.
pub fn fix_component_lock(data: &mut NbtMap)
    ensures
        if is_invalid_lock(old(data)@, "minecraft:lock"@) {
            final(data)@ == old(data)@.remove("minecraft:lock"@)
        } else {
            final(data)@ == old(data)@
        },
{
    fix_invalid_lock(data, "minecraft:lock");
}

/// What this version registers.
pub open spec fn registrations() -> Seq<Registration> {
    seq![
        entry(TypeKey::TileEntity, VERSION, 0, Action::Convert(Conv::V4176FixBlockEntityLock)),
        entry(TypeKey::DataComponents, VERSION, 0, Action::Convert(Conv::V4176FixComponentLock)),
    ]
}

/// Register this version's converters.
pub fn register(reg: &mut RegistryBuilder)
    ensures
        final(reg).entries@ == old(reg).entries@ + registrations(),
{
    reg.add(TypeKey::TileEntity, VERSION, 0, Action::Convert(Conv::V4176FixBlockEntityLock));
    reg.add(TypeKey::DataComponents, VERSION, 0, Action::Convert(Conv::V4176FixComponentLock));
    proof {
        assert(final(reg).entries@ =~= old(reg).entries@ + registrations());
    }
}

} // verus!
