//! V4314: split `X/Y/Z` block-position fields of entities become one
//! three-int array, and a few fields are renamed.

use vstd::prelude::*;
use crate::nbt::{int_of, lookup, renamed, NbtMap, NbtValue};
use crate::loss::{one_more_with, report, LossKind, LossReport, Severity};
use super::super::registry::{entry, Action, Registration, RegistryBuilder, TypeKey};
use super::super::dispatch::Conv;

verus! {

/// This version.
pub const VERSION: i32 = 4314;

/// `k` holds an int array whose ints are `s`.
pub open spec fn holds_ints(m: Map<Seq<char>, NbtValue>, k: Seq<char>, s: Seq<i32>) -> bool {
    match lookup(m, k) {
        Some(NbtValue::IntArray(v)) => v@ == s,
        _ => false,
    }
}

/// `new` is `old` with the three integral coordinates at `x`, `y`, `z`
/// removed and written as one array at `to`; where one of them is missing
/// or not integral, nothing changes.
pub open spec fn pos_joined(
    old: Map<Seq<char>, NbtValue>,
    new: Map<Seq<char>, NbtValue>,
    x: Seq<char>,
    y: Seq<char>,
    z: Seq<char>,
    to: Seq<char>,
) -> bool {
    match (int_of(old, x), int_of(old, y), int_of(old, z)) {
        (Some(a), Some(b), Some(c)) => new.remove(to) == old.remove(x).remove(y).remove(z).remove(to)
            && holds_ints(new, to, seq![a, b, c]),
        _ => new == old,
    }
}

/// `m` with a three-int array at `to` split back into int tags at `x`, `y`,
/// `z`; anything else at `to` leaves `m` as it is.
pub open spec fn pos_split(
    m: Map<Seq<char>, NbtValue>,
    x: Seq<char>,
    y: Seq<char>,
    z: Seq<char>,
    to: Seq<char>,
) -> Map<Seq<char>, NbtValue> {
    match lookup(m, to) {
        Some(NbtValue::IntArray(v)) => if v@.len() == 3 {
            m.remove(to).insert(x, NbtValue::Int(v@[0])).insert(y, NbtValue::Int(v@[1])).insert(
                z,
                NbtValue::Int(v@[2]),
            )
        } else {
            m
        },
        _ => m,
    }
}

/// Join the coordinates at `x_path`, `y_path`, `z_path` into one array at
/// `to_path`; a missing coordinate leaves `data` as it is.
pub fn convert_block_position(data: &mut NbtMap, x_path: &str, y_path: &str, z_path: &str, to_path: &str)
    ensures
        pos_joined(old(data)@, final(data)@, x_path@, y_path@, z_path@, to_path@),
{
    let x = match data.get_i32(x_path) {
        Some(v) => v,
        None => return ,
    };
    let y = match data.get_i32(y_path) {
        Some(v) => v,
        None => return ,
    };
    let z = match data.get_i32(z_path) {
        Some(v) => v,
        None => return ,
    };
    data.take(x_path);
    data.take(y_path);
    data.take(z_path);
    let ghost mid = data@;
    let arr: Vec<i32> = vec![x, y, z];
    proof {
        assert(arr@ =~= seq![x, y, z]);
    }
    data.set(to_path, NbtValue::IntArray(arr));
    proof {
        assert(data@.remove(to_path@) =~= mid.remove(to_path@));
    }
}

/// Split a three-int array at `to_path` back into int tags at `x_path`,
/// `y_path`, `z_path`; anything else at `to_path` leaves `data` as it is.
pub fn unconvert_block_position(data: &mut NbtMap, x_path: &str, y_path: &str, z_path: &str, to_path: &str)
    ensures
        final(data)@ == pos_split(old(data)@, x_path@, y_path@, z_path@, to_path@),
{
    let (x, y, z) = match data.get(to_path) {
        Some(NbtValue::IntArray(v)) => {
            if v.len() == 3 {
                (v[0], v[1], v[2])
            } else {
                return ;
            }
        },
        _ => return ,
    };
    data.take(to_path);
    data.set_i32(x_path, x);
    data.set_i32(y_path, y);
    data.set_i32(z_path, z);
}

/// Splitting what joining wrote gives back the original fields, where they
/// were int tags at distinct keys and nothing stood at the array's key.
pub proof fn law_block_pos_round_trip(
    old: Map<Seq<char>, NbtValue>,
    new: Map<Seq<char>, NbtValue>,
    x: Seq<char>,
    y: Seq<char>,
    z: Seq<char>,
    to: Seq<char>,
)
    requires
        pos_joined(old, new, x, y, z, to),
        lookup(old, x) matches Some(NbtValue::Int(_)),
        lookup(old, y) matches Some(NbtValue::Int(_)),
        lookup(old, z) matches Some(NbtValue::Int(_)),
        !old.dom().contains(to),
        x != y,
        y != z,
        x != z,
        to != x,
        to != y,
        to != z,
    ensures
        pos_split(new, x, y, z, to) == old,
{
    match lookup(new, to) {
        Some(NbtValue::IntArray(v)) => {
            assert(v@.len() == 3);
            let back = pos_split(new, x, y, z, to);
            assert(back =~= old) by {
                assert forall|k: Seq<char>| #[trigger] back.dom().contains(k) == old.dom().contains(k) by {
                    if k != x && k != y && k != z && k != to {
                        assert(new.remove(to).dom().contains(k) == old.remove(x).remove(y).remove(z).remove(
                            to,
                        ).dom().contains(k));
                    }
                }
                assert forall|k: Seq<char>| #[trigger] back.dom().contains(k) implies back[k] == old[k] by {
                    if k != x && k != y && k != z && k != to {
                        assert(new.remove(to)[k] == old.remove(x).remove(y).remove(z).remove(to)[k]);
                    }
                }
            }
        },
        _ => {},
    }
}

/// What [`join_sleeping`] makes of `data_in`.
pub open spec fn join_sleeping_effect(data_in: NbtMap, data_out: NbtMap) -> bool {
    &&& pos_joined(data_in@, data_out@, "SleepingX"@, "SleepingY"@, "SleepingZ"@, "sleeping_pos"@)
}

/// Forward on every entity: `SleepingX/Y/Z` become `sleeping_pos`.
pub fn join_sleeping(data: &mut NbtMap)
    ensures
        pos_joined(old(data)@, final(data)@, "SleepingX"@, "SleepingY"@, "SleepingZ"@, "sleeping_pos"@),
{
    convert_block_position(data, "SleepingX", "SleepingY", "SleepingZ", "sleeping_pos");
}

/// What [`split_sleeping`] makes of `data_in`.
pub open spec fn split_sleeping_effect(data_in: NbtMap, data_out: NbtMap) -> bool {
    &&& data_out@ == pos_split(data_in@, "SleepingX"@, "SleepingY"@, "SleepingZ"@, "sleeping_pos"@)
}

/// Reverse on every entity: `sleeping_pos` becomes `SleepingX/Y/Z`.
pub fn split_sleeping(data: &mut NbtMap)
    ensures
        final(data)@ == pos_split(old(data)@, "SleepingX"@, "SleepingY"@, "SleepingZ"@, "sleeping_pos"@),
{
    unconvert_block_position(data, "SleepingX", "SleepingY", "SleepingZ", "sleeping_pos");
}

/// What [`join_vex`] makes of `data_in`.
pub open spec fn join_vex_effect(data_in: NbtMap, data_out: NbtMap) -> bool {
    &&& pos_joined(
                renamed(data_in@, "LifeTicks"@, "life_ticks"@),
                data_out@,
                "BoundX"@,
                "BoundY"@,
                "BoundZ"@,
                "bound_pos"@,
            )
}

/// Forward on a vex: `LifeTicks` becomes `life_ticks` and `BoundX/Y/Z`
/// become `bound_pos`.
pub fn join_vex(data: &mut NbtMap)
    ensures
        pos_joined(
            renamed(old(data)@, "LifeTicks"@, "life_ticks"@),
            final(data)@,
            "BoundX"@,
            "BoundY"@,
            "BoundZ"@,
            "bound_pos"@,
        ),
{
    data.rename_key("LifeTicks", "life_ticks");
    convert_block_position(data, "BoundX", "BoundY", "BoundZ", "bound_pos");
}

/// What [`split_vex`] makes of `data_in`.
pub open spec fn split_vex_effect(data_in: NbtMap, data_out: NbtMap) -> bool {
    &&& data_out@ == pos_split(
                renamed(data_in@, "life_ticks"@, "LifeTicks"@),
                "BoundX"@,
                "BoundY"@,
                "BoundZ"@,
                "bound_pos"@,
            )
}

/// Reverse on a vex: `life_ticks` becomes `LifeTicks` and `bound_pos`
/// becomes `BoundX/Y/Z` (lossless).
pub fn split_vex(data: &mut NbtMap)
    ensures
        final(data)@ == pos_split(
            renamed(old(data)@, "life_ticks"@, "LifeTicks"@),
            "BoundX"@,
            "BoundY"@,
            "BoundZ"@,
            "bound_pos"@,
        ),
{
    data.rename_key("life_ticks", "LifeTicks");
    unconvert_block_position(data, "BoundX", "BoundY", "BoundZ", "bound_pos");
}

/// What [`join_phantom`] makes of `data_in`.
pub open spec fn join_phantom_effect(data_in: NbtMap, data_out: NbtMap) -> bool {
    &&& pos_joined(renamed(data_in@, "Size"@, "size"@), data_out@, "AX"@, "AY"@, "AZ"@, "anchor_pos"@)
}

/// Forward on a phantom: `Size` becomes `size` and `AX/AY/AZ` become
/// `anchor_pos`.
pub fn join_phantom(data: &mut NbtMap)
    ensures
        pos_joined(renamed(old(data)@, "Size"@, "size"@), final(data)@, "AX"@, "AY"@, "AZ"@, "anchor_pos"@),
{
    data.rename_key("Size", "size");
    convert_block_position(data, "AX", "AY", "AZ", "anchor_pos");
}

/// What [`split_phantom`] makes of `data_in`.
pub open spec fn split_phantom_effect(data_in: NbtMap, data_out: NbtMap) -> bool {
    &&& data_out@ == pos_split(renamed(data_in@, "size"@, "Size"@), "AX"@, "AY"@, "AZ"@, "anchor_pos"@)
}

/// Reverse on a phantom: `size` becomes `Size` and `anchor_pos` becomes
/// `AX/AY/AZ` (lossless).
pub fn split_phantom(data: &mut NbtMap)
    ensures
        final(data)@ == pos_split(renamed(old(data)@, "size"@, "Size"@), "AX"@, "AY"@, "AZ"@, "anchor_pos"@),
{
    data.rename_key("size", "Size");
    unconvert_block_position(data, "AX", "AY", "AZ", "anchor_pos");
}

/// The turtle before its home is joined: travel target dropped, `HasEgg`
/// renamed.
pub open spec fn turtle_prepared(m: Map<Seq<char>, NbtValue>) -> Map<Seq<char>, NbtValue> {
    renamed(m.remove("TravelPosX"@).remove("TravelPosY"@).remove("TravelPosZ"@), "HasEgg"@, "has_egg"@)
}

/// What [`join_turtle`] makes of `data_in`.
pub open spec fn join_turtle_effect(data_in: NbtMap, data_out: NbtMap) -> bool {
    &&& pos_joined(turtle_prepared(data_in@), data_out@, "HomePosX"@, "HomePosY"@, "HomePosZ"@, "home_pos"@)
}

/// Forward on a turtle: the travel target is dropped, `HasEgg` becomes
/// `has_egg` and `HomePosX/Y/Z` become `home_pos`.
pub fn join_turtle(data: &mut NbtMap)
    ensures
        pos_joined(turtle_prepared(old(data)@), final(data)@, "HomePosX"@, "HomePosY"@, "HomePosZ"@, "home_pos"@),
{
    data.take("TravelPosX");
    data.take("TravelPosY");
    data.take("TravelPosZ");
    data.rename_key("HasEgg", "has_egg");
    convert_block_position(data, "HomePosX", "HomePosY", "HomePosZ", "home_pos");
}

/// What [`split_turtle`] makes of `data_in` and the report `rep_in`.
pub open spec fn split_turtle_effect(data_in: NbtMap, data_out: NbtMap, rep_in: LossReport, rep_out: LossReport) -> bool {
    &&& data_out@ == pos_split(
                renamed(data_in@, "has_egg"@, "HasEgg"@),
                "HomePosX"@,
                "HomePosY"@,
                "HomePosZ"@,
                "home_pos"@,
            )
    &&& one_more_with(rep_in.entries@, rep_out.entries@, VERSION, LossKind::UnsupportedInTarget, Severity::Loss,
            "turtle TravelPosX/Y/Z was dropped on upgrade and cannot be restored"@)
}

/// Reverse on a turtle: `has_egg` becomes `HasEgg` and `home_pos` becomes
/// `HomePosX/Y/Z`; the travel target dropped on the way up is reported lost.
pub fn split_turtle(data: &mut NbtMap, rep: &mut LossReport)
    ensures
        final(data)@ == pos_split(
            renamed(old(data)@, "has_egg"@, "HasEgg"@),
            "HomePosX"@,
            "HomePosY"@,
            "HomePosZ"@,
            "home_pos"@,
        ),
        one_more_with(old(rep).entries@, final(rep).entries@, VERSION, LossKind::UnsupportedInTarget, Severity::Loss,
            "turtle TravelPosX/Y/Z was dropped on upgrade and cannot be restored"@),
{
    data.rename_key("has_egg", "HasEgg");
    unconvert_block_position(data, "HomePosX", "HomePosY", "HomePosZ", "home_pos");
    report(
        rep,
        VERSION,
        LossKind::UnsupportedInTarget,
        Severity::Loss,
        "turtle TravelPosX/Y/Z was dropped on upgrade and cannot be restored",
    );
}

/// What [`join_tile`] makes of `data_in`.
pub open spec fn join_tile_effect(data_in: NbtMap, data_out: NbtMap) -> bool {
    &&& pos_joined(data_in@, data_out@, "TileX"@, "TileY"@, "TileZ"@, "block_pos"@)
}

/// Forward on an attached-block entity: `TileX/Y/Z` become `block_pos`.
pub fn join_tile(data: &mut NbtMap)
    ensures
        pos_joined(old(data)@, final(data)@, "TileX"@, "TileY"@, "TileZ"@, "block_pos"@),
{
    convert_block_position(data, "TileX", "TileY", "TileZ", "block_pos");
}

/// What [`split_tile`] makes of `data_in`.
pub open spec fn split_tile_effect(data_in: NbtMap, data_out: NbtMap) -> bool {
    &&& data_out@ == pos_split(data_in@, "TileX"@, "TileY"@, "TileZ"@, "block_pos"@)
}

/// Reverse on an attached-block entity: `block_pos` becomes `TileX/Y/Z`.
pub fn split_tile(data: &mut NbtMap)
    ensures
        final(data)@ == pos_split(old(data)@, "TileX"@, "TileY"@, "TileZ"@, "block_pos"@),
{
    unconvert_block_position(data, "TileX", "TileY", "TileZ", "block_pos");
}

/// What this version registers.
pub open spec fn registrations() -> Seq<Registration> {
    seq![
        entry(TypeKey::Entity, VERSION, 0, Action::Convert(Conv::V4314JoinSleeping)),
        entry(TypeKey::Entity, VERSION, 0, Action::Revert(Conv::V4314SplitSleeping)),
        entry(TypeKey::Entity, VERSION, 0, Action::ConvertId("minecraft:vex", Conv::V4314JoinVex)),
        entry(TypeKey::Entity, VERSION, 0, Action::RevertId("minecraft:vex", Conv::V4314SplitVex)),
        entry(TypeKey::Entity, VERSION, 0, Action::ConvertId("minecraft:phantom", Conv::V4314JoinPhantom)),
        entry(TypeKey::Entity, VERSION, 0, Action::RevertId("minecraft:phantom", Conv::V4314SplitPhantom)),
        entry(TypeKey::Entity, VERSION, 0, Action::ConvertId("minecraft:turtle", Conv::V4314JoinTurtle)),
        entry(TypeKey::Entity, VERSION, 0, Action::RevertId("minecraft:turtle", Conv::V4314SplitTurtle)),
        entry(TypeKey::Entity, VERSION, 0, Action::ConvertId("minecraft:item_frame", Conv::V4314JoinTile)),
        entry(TypeKey::Entity, VERSION, 0, Action::RevertId("minecraft:item_frame", Conv::V4314SplitTile)),
        entry(TypeKey::Entity, VERSION, 0, Action::ConvertId("minecraft:glow_item_frame", Conv::V4314JoinTile)),
        entry(TypeKey::Entity, VERSION, 0, Action::RevertId("minecraft:glow_item_frame", Conv::V4314SplitTile)),
        entry(TypeKey::Entity, VERSION, 0, Action::ConvertId("minecraft:painting", Conv::V4314JoinTile)),
        entry(TypeKey::Entity, VERSION, 0, Action::RevertId("minecraft:painting", Conv::V4314SplitTile)),
        entry(TypeKey::Entity, VERSION, 0, Action::ConvertId("minecraft:leash_knot", Conv::V4314JoinTile)),
        entry(TypeKey::Entity, VERSION, 0, Action::RevertId("minecraft:leash_knot", Conv::V4314SplitTile)),
    ]
}

/// Register this version's converters.
pub fn register(reg: &mut RegistryBuilder)
    ensures
        final(reg).entries@ == old(reg).entries@ + registrations(),
{
    reg.add(TypeKey::Entity, VERSION, 0, Action::Convert(Conv::V4314JoinSleeping));
    reg.add(TypeKey::Entity, VERSION, 0, Action::Revert(Conv::V4314SplitSleeping));
    reg.add(TypeKey::Entity, VERSION, 0, Action::ConvertId("minecraft:vex", Conv::V4314JoinVex));
    reg.add(TypeKey::Entity, VERSION, 0, Action::RevertId("minecraft:vex", Conv::V4314SplitVex));
    reg.add(TypeKey::Entity, VERSION, 0, Action::ConvertId("minecraft:phantom", Conv::V4314JoinPhantom));
    reg.add(TypeKey::Entity, VERSION, 0, Action::RevertId("minecraft:phantom", Conv::V4314SplitPhantom));
    reg.add(TypeKey::Entity, VERSION, 0, Action::ConvertId("minecraft:turtle", Conv::V4314JoinTurtle));
    reg.add(TypeKey::Entity, VERSION, 0, Action::RevertId("minecraft:turtle", Conv::V4314SplitTurtle));
    reg.add(TypeKey::Entity, VERSION, 0, Action::ConvertId("minecraft:item_frame", Conv::V4314JoinTile));
    reg.add(TypeKey::Entity, VERSION, 0, Action::RevertId("minecraft:item_frame", Conv::V4314SplitTile));
    reg.add(TypeKey::Entity, VERSION, 0, Action::ConvertId("minecraft:glow_item_frame", Conv::V4314JoinTile));
    reg.add(TypeKey::Entity, VERSION, 0, Action::RevertId("minecraft:glow_item_frame", Conv::V4314SplitTile));
    reg.add(TypeKey::Entity, VERSION, 0, Action::ConvertId("minecraft:painting", Conv::V4314JoinTile));
    reg.add(TypeKey::Entity, VERSION, 0, Action::RevertId("minecraft:painting", Conv::V4314SplitTile));
    reg.add(TypeKey::Entity, VERSION, 0, Action::ConvertId("minecraft:leash_knot", Conv::V4314JoinTile));
    reg.add(TypeKey::Entity, VERSION, 0, Action::RevertId("minecraft:leash_knot", Conv::V4314SplitTile));
    proof {
        assert(final(reg).entries@ =~= old(reg).entries@ + registrations());
    }
}

} // verus!
