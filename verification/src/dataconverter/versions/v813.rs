//! V813: a shulker box item's `tag.BlockEntityTag.Color` becomes its
//! colored id; the shulker box block entity drops its `Color`.

use vstd::prelude::*;
use crate::nbt::{int_of, is_str, lemma_put_back, map_of, NbtMap, NbtValue};
use crate::loss::{one_more_with, report, LossKind, LossReport, Severity};
use super::super::registry::{entry, Action, Registration, RegistryBuilder, TypeKey};
use super::super::dispatch::Conv;

verus! {

/// This version.
pub const VERSION: i32 = 813;

/// The colored shulker box ids, by legacy color.
pub open spec fn colour_ids() -> Seq<&'static str> {
    seq![
        "minecraft:white_shulker_box",
        "minecraft:orange_shulker_box",
        "minecraft:magenta_shulker_box",
        "minecraft:light_blue_shulker_box",
        "minecraft:yellow_shulker_box",
        "minecraft:lime_shulker_box",
        "minecraft:pink_shulker_box",
        "minecraft:gray_shulker_box",
        "minecraft:silver_shulker_box",
        "minecraft:cyan_shulker_box",
        "minecraft:purple_shulker_box",
        "minecraft:blue_shulker_box",
        "minecraft:brown_shulker_box",
        "minecraft:green_shulker_box",
        "minecraft:red_shulker_box",
        "minecraft:black_shulker_box",
    ]
}

/// The colored id of legacy color `c`.
pub fn colour_id(c: usize) -> (s: &'static str)
    requires
        c < 16,
    ensures
        s == colour_ids()[c as int],
{
    let ids: [&'static str; 16] = [
        "minecraft:white_shulker_box",
        "minecraft:orange_shulker_box",
        "minecraft:magenta_shulker_box",
        "minecraft:light_blue_shulker_box",
        "minecraft:yellow_shulker_box",
        "minecraft:lime_shulker_box",
        "minecraft:pink_shulker_box",
        "minecraft:gray_shulker_box",
        "minecraft:silver_shulker_box",
        "minecraft:cyan_shulker_box",
        "minecraft:purple_shulker_box",
        "minecraft:blue_shulker_box",
        "minecraft:brown_shulker_box",
        "minecraft:green_shulker_box",
        "minecraft:red_shulker_box",
        "minecraft:black_shulker_box",
    ];
    ids[c]
}

/// The color a legacy `Color` number stands for: its Euclidean remainder by
/// 16.
pub open spec fn colour_index(color: i32) -> int {
    (color as int) % 16
}

/// What [`colour_item`] makes of `data_in`.
pub open spec fn colour_item_effect(data_in: NbtMap, data_out: NbtMap) -> bool {
    &&& match map_of(data_in@, "tag"@) {
                Some(t) => match map_of(t@, "BlockEntityTag"@) {
                    Some(b) => {
                        let color = match int_of(b@, "Color"@) { Some(c) => c, None => 0i32 };
                        &&& map_of(data_out@, "tag"@) matches Some(t2)
                        &&& map_of(t2@, "BlockEntityTag"@) matches Some(b2)
                        &&& b2@ == b@.remove("Color"@)
                        &&& t2@.remove("BlockEntityTag"@) == t@.remove("BlockEntityTag"@)
                        &&& data_out@.remove("tag"@) == data_in@.remove("tag"@).insert("id"@, data_out@["id"@])
                        &&& is_str(data_out@["id"@], colour_ids()[colour_index(color)]@)
                        &&& data_out@.dom().contains("tag"@)
                    },
                    None => data_out@ == data_in@,
                },
                None => data_out@ == data_in@,
            }
}

/// Forward, on a shulker box item with a `tag.BlockEntityTag`: `Color` (0
/// when missing) leaves it and picks the colored id.
pub fn colour_item(data: &mut NbtMap)
    ensures
        match map_of(old(data)@, "tag"@) {
            Some(t) => match map_of(t@, "BlockEntityTag"@) {
                Some(b) => {
                    let color = match int_of(b@, "Color"@) { Some(c) => c, None => 0i32 };
                    &&& map_of(final(data)@, "tag"@) matches Some(t2)
                    &&& map_of(t2@, "BlockEntityTag"@) matches Some(b2)
                    &&& b2@ == b@.remove("Color"@)
                    &&& t2@.remove("BlockEntityTag"@) == t@.remove("BlockEntityTag"@)
                    &&& final(data)@.remove("tag"@) == old(data)@.remove("tag"@).insert("id"@, final(data)@["id"@])
                    &&& is_str(final(data)@["id"@], colour_ids()[colour_index(color)]@)
                    &&& final(data)@.dom().contains("tag"@)
                },
                None => final(data)@ == old(data)@,
            },
            None => final(data)@ == old(data)@,
        },
{
    let has_block_entity = match data.get_map("tag") {
        Some(t) => t.get_map("BlockEntityTag").is_some(),
        None => false,
    };
    if !has_block_entity {
        return;
    }
    let mut color: i32 = 0;
    let ghost d0 = data@;
    match data.take_map("tag") {
        Some(mut tag) => {
            let ghost mid = data@;
            let ghost t = tag@;
            match tag.take_map("BlockEntityTag") {
                Some(mut b) => {
                    color = match b.get_i32("Color") {
                        Some(c) => c,
                        None => 0,
                    };
                    b.take("Color");
                    tag.set_map("BlockEntityTag", b);
                    proof {
                        assert(tag@.remove("BlockEntityTag"@) =~= t.remove("BlockEntityTag"@));
                    }
                },
                None => {},
            }
            data.set_map("tag", tag);
            proof {
                lemma_put_back(d0, mid, "tag"@, NbtValue::Compound(tag));
            }
        },
        None => {},
    }
    let idx = color % 16;
    let idx = if idx < 0 { idx + 16 } else { idx };
    proof {
        assert(idx as int == colour_index(color));
        reveal_strlit("id");
        reveal_strlit("tag");
        assert("id"@[0] != "tag"@[0]);
    }
    let ghost before_id = data@;
    data.set_string("id", colour_id(idx as usize));
    proof {
        assert(data@.remove("tag"@) =~= before_id.remove("tag"@).insert("id"@, data@["id"@]));
        assert(before_id.remove("tag"@) == d0.remove("tag"@));
    }
}

/// The stack's compound at `k`, or nothing.
pub open spec fn compound_or_empty(m: Map<Seq<char>, NbtValue>, k: Seq<char>) -> Map<Seq<char>, NbtValue> {
    match map_of(m, k) {
        Some(t) => t@,
        None => Map::empty(),
    }
}

/// What [`restore_colour`] makes of `data_in`.
pub open spec fn restore_colour_effect(data_in: NbtMap, data_out: NbtMap, color: i32) -> bool {
    &&& ({
                let d1 = data_in@.insert("id"@, data_out@["id"@]);
                let t = compound_or_empty(d1, "tag"@);
                let b = compound_or_empty(t, "BlockEntityTag"@);
                &&& is_str(data_out@["id"@], "minecraft:shulker_box"@)
                &&& data_out@.remove("tag"@) == d1.remove("tag"@)
                &&& map_of(data_out@, "tag"@) matches Some(t2)
                &&& t2@.remove("BlockEntityTag"@) == t.remove("BlockEntityTag"@)
                &&& map_of(t2@, "BlockEntityTag"@) matches Some(b2)
                &&& b2@ == b.insert("Color"@, NbtValue::Int(color))
            })
}

/// Reverse, on a colored shulker box item: back to the plain id, with
/// `tag.BlockEntityTag.Color` set to `color` (lossless: the id carried it).
pub fn restore_colour(data: &mut NbtMap, color: i32)
    ensures
        ({
            let d1 = old(data)@.insert("id"@, final(data)@["id"@]);
            let t = compound_or_empty(d1, "tag"@);
            let b = compound_or_empty(t, "BlockEntityTag"@);
            &&& is_str(final(data)@["id"@], "minecraft:shulker_box"@)
            &&& final(data)@.remove("tag"@) == d1.remove("tag"@)
            &&& map_of(final(data)@, "tag"@) matches Some(t2)
            &&& t2@.remove("BlockEntityTag"@) == t.remove("BlockEntityTag"@)
            &&& map_of(t2@, "BlockEntityTag"@) matches Some(b2)
            &&& b2@ == b.insert("Color"@, NbtValue::Int(color))
        }),
{
    data.set_string("id", "minecraft:shulker_box");
    let ghost d1 = data@;
    proof {
        reveal_strlit("id");
        reveal_strlit("tag");
        assert("id"@[0] != "tag"@[0]);
    }
    if data.get_map("tag").is_none() {
        data.set_map("tag", NbtMap::new());
        proof {
            assert(data@.remove("tag"@) =~= d1.remove("tag"@));
        }
    }
    let ghost d2 = data@;
    match data.take_map("tag") {
        Some(mut tag) => {
            let ghost t = tag@;
            if tag.get_map("BlockEntityTag").is_none() {
                tag.set_map("BlockEntityTag", NbtMap::new());
                proof {
                    assert(tag@.remove("BlockEntityTag"@) =~= t.remove("BlockEntityTag"@));
                }
            }
            let ghost t1 = tag@;
            match tag.take_map("BlockEntityTag") {
                Some(mut b) => {
                    b.set_i32("Color", color);
                    tag.set_map("BlockEntityTag", b);
                    proof {
                        assert(tag@.remove("BlockEntityTag"@) =~= t1.remove("BlockEntityTag"@));
                    }
                },
                None => {},
            }
            data.set_map("tag", tag);
            proof {
                assert(data@.remove("tag"@) =~= d2.remove("tag"@));
            }
        },
        None => {},
    }
    proof {
        assert(d1.remove("tag"@).dom().contains("id"@));
        assert(data@.remove("tag"@)["id"@] == d1.remove("tag"@)["id"@]);
        assert(data@["id"@] == d1["id"@]);
        assert(old(data)@.insert("id"@, data@["id"@]) == d1);
    }
}

/// What [`drop_colour`] makes of `data_in`.
pub open spec fn drop_colour_effect(data_in: NbtMap, data_out: NbtMap) -> bool {
    &&& data_out@ == data_in@.remove("Color"@)
}

/// Forward, on the shulker box block entity: drop `Color`.
pub fn drop_colour(data: &mut NbtMap)
    ensures
        final(data)@ == old(data)@.remove("Color"@),
{
    data.take("Color");
}

/// What [`default_colour`] makes of `data_in` and the report `rep_in`.
pub open spec fn default_colour_effect(data_in: NbtMap, data_out: NbtMap, rep_in: LossReport, rep_out: LossReport) -> bool {
    &&& data_out@ == data_in@.insert("Color"@, NbtValue::Int(0))
    &&& one_more_with(rep_in.entries@, rep_out.entries@, VERSION, LossKind::FingerprintCollapse, Severity::Approximated,
            "shulker_box tile entity Color was dropped forward with no surviving discriminator; restoring default Color=0 (white)"@)
}

/// Reverse, on the shulker box block entity: nothing kept the color, so
/// white (0) is restored, approximated.
pub fn default_colour(data: &mut NbtMap, rep: &mut LossReport)
    ensures
        final(data)@ == old(data)@.insert("Color"@, NbtValue::Int(0)),
        one_more_with(old(rep).entries@, final(rep).entries@, VERSION, LossKind::FingerprintCollapse, Severity::Approximated,
            "shulker_box tile entity Color was dropped forward with no surviving discriminator; restoring default Color=0 (white)"@),
{
    report(
        rep,
        VERSION,
        LossKind::FingerprintCollapse,
        Severity::Approximated,
        "shulker_box tile entity Color was dropped forward with no surviving discriminator; restoring default Color=0 (white)",
    );
    data.set_i32("Color", 0);
}

/// The reverse converters of the colored ids, one per color.
pub open spec fn colour_registrations(n: int) -> Seq<Registration>
    decreases n,
{
    if n <= 0 {
        Seq::empty()
    } else {
        colour_registrations(n - 1).push(
            entry(TypeKey::ItemStack, VERSION, 0, Action::RevertId(colour_ids()[n - 1], Conv::V813RestoreColour((n - 1) as i32))),
        )
    }
}

/// What this version registers.
pub open spec fn registrations() -> Seq<Registration> {
    seq![entry(TypeKey::ItemStack, VERSION, 0, Action::ConvertId("minecraft:shulker_box", Conv::V813ColourItem))]
        + colour_registrations(16) + seq![
        entry(TypeKey::TileEntity, VERSION, 0, Action::ConvertId("minecraft:shulker_box", Conv::V813DropColour)),
        entry(TypeKey::TileEntity, VERSION, 0, Action::RevertId("minecraft:shulker_box", Conv::V813DefaultColour)),
    ]
}

/// Register this version's converters.
pub fn register(reg: &mut RegistryBuilder)
    ensures
        final(reg).entries@ == old(reg).entries@ + registrations(),
{
    reg.add(TypeKey::ItemStack, VERSION, 0, Action::ConvertId("minecraft:shulker_box", Conv::V813ColourItem));
    let ghost r1 = reg.entries@;
    let mut c: usize = 0;
    while c < 16
        invariant
            c <= 16,
            reg.entries@ == r1 + colour_registrations(c as int),
        decreases 16 - c,
    {
        reg.add(TypeKey::ItemStack, VERSION, 0, Action::RevertId(colour_id(c), Conv::V813RestoreColour(c as i32)));
        proof {
            assert(reg.entries@ =~= r1 + colour_registrations(c + 1));
        }
        c = c + 1;
    }
    reg.add(TypeKey::TileEntity, VERSION, 0, Action::ConvertId("minecraft:shulker_box", Conv::V813DropColour));
    reg.add(TypeKey::TileEntity, VERSION, 0, Action::RevertId("minecraft:shulker_box", Conv::V813DefaultColour));
    proof {
        assert(final(reg).entries@ =~= old(reg).entries@ + registrations());
    }
}

} // verus!
