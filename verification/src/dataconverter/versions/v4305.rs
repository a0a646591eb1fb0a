//! V4305: the test block's `test_block_mode` property becomes `mode`.

use vstd::prelude::*;
use crate::nbt::{lemma_put_back, str_of, within, NbtMap, NbtValue};
use crate::text::str_eq;
use super::super::registry::{entry, Action, Registration, RegistryBuilder, TypeKey};
use super::super::dispatch::Conv;

verus! {

/// This version.
pub const VERSION: i32 = 4305;

/// A string property `from` moved to `to`; without one, nothing changes.
pub open spec fn string_moved(p: Map<Seq<char>, NbtValue>, p2: Map<Seq<char>, NbtValue>, from: Seq<char>, to: Seq<char>) -> bool {
    match str_of(p, from) {
        Some(m) => p2 == p.remove(from).insert(to, p2[to]) && str_of(p2, to) == Some(m),
        None => p2 == p,
    }
}

/// On a test block, move the string property `from` to `to`.
fn move_test_block_property(data: &mut NbtMap, from: &str, to: &str)
    ensures
        if str_of(old(data)@, "Name"@) == Some("minecraft:test_block"@) {
            within(old(data)@, final(data)@, "Properties"@, |p, p2| string_moved(p, p2, from@, to@))
        } else {
            final(data)@ == old(data)@
        },
{
    let is_test_block = match data.get_string("Name") {
        Some(n) => str_eq(n, "minecraft:test_block"),
        None => false,
    };
    if !is_test_block {
        return;
    }
    match data.take_map("Properties") {
        Some(mut p) => {
            let ghost mid = data@;
            let ghost p0 = p@;
            let mode = match p.get_string(from) {
                Some(s) => Some(s.to_owned()),
                None => None,
            };
            match mode {
                Some(m) => {
                    p.take(from);
                    p.set_string(to, m.as_str());
                },
                None => {},
            }
            data.set_map("Properties", p);
            proof {
                lemma_put_back(old(data)@, mid, "Properties"@, NbtValue::Compound(p));
                assert(string_moved(p0, p@, from@, to@));
            }
        },
        None => {},
    }
}

/// What [`rename_mode`] makes of `data_in`.
pub open spec fn rename_mode_effect(data_in: NbtMap, data_out: NbtMap) -> bool {
    &&& if str_of(data_in@, "Name"@) == Some("minecraft:test_block"@) {
                within(data_in@, data_out@, "Properties"@, |p, p2| string_moved(p, p2, "test_block_mode"@, "mode"@))
            } else {
                data_out@ == data_in@
            }
}

/// Forward: `test_block_mode` becomes `mode`.
pub fn rename_mode(data: &mut NbtMap)
    ensures
        if str_of(old(data)@, "Name"@) == Some("minecraft:test_block"@) {
            within(old(data)@, final(data)@, "Properties"@, |p, p2| string_moved(p, p2, "test_block_mode"@, "mode"@))
        } else {
            final(data)@ == old(data)@
        },
{
    move_test_block_property(data, "test_block_mode", "mode");
}

/// What [`restore_mode`] makes of `data_in`.
pub open spec fn restore_mode_effect(data_in: NbtMap, data_out: NbtMap) -> bool {
    &&& if str_of(data_in@, "Name"@) == Some("minecraft:test_block"@) {
                within(data_in@, data_out@, "Properties"@, |p, p2| string_moved(p, p2, "mode"@, "test_block_mode"@))
            } else {
                data_out@ == data_in@
            }
}

/// Reverse: `mode` becomes `test_block_mode` again (lossless).
pub fn restore_mode(data: &mut NbtMap)
    ensures
        if str_of(old(data)@, "Name"@) == Some("minecraft:test_block"@) {
            within(old(data)@, final(data)@, "Properties"@, |p, p2| string_moved(p, p2, "mode"@, "test_block_mode"@))
        } else {
            final(data)@ == old(data)@
        },
{
    move_test_block_property(data, "mode", "test_block_mode");
}

/// What this version registers.
pub open spec fn registrations() -> Seq<Registration> {
    seq![
        entry(TypeKey::BlockState, VERSION, 0, Action::Convert(Conv::V4305RenameMode)),
        entry(TypeKey::BlockState, VERSION, 0, Action::Revert(Conv::V4305RestoreMode)),
    ]
}

/// Register this version's converters.
pub fn register(reg: &mut RegistryBuilder)
    ensures
        final(reg).entries@ == old(reg).entries@ + registrations(),
{
    reg.add(TypeKey::BlockState, VERSION, 0, Action::Convert(Conv::V4305RenameMode));
    reg.add(TypeKey::BlockState, VERSION, 0, Action::Revert(Conv::V4305RestoreMode));
    proof {
        assert(final(reg).entries@ =~= old(reg).entries@ + registrations());
    }
}

} // verus!
