//! V704: legacy block entity ids become namespaced (`Chest` becomes
//! `minecraft:chest`), the walkers of the legacy ids carry over to the new
//! ids, and the item stack walker learns which entity or block entity an
//! item's `EntityTag` or `BlockEntityTag` holds.

use vstd::prelude::*;
use crate::nbt::{is_str, map_of, str_of, NbtMap, NbtValue};
use crate::loss::LossReport;
use crate::text::{find_text, occurs_at, str_eq};
use super::super::helpers::enforce_namespaced_id_hook;
use super::super::registry::{
    convert_map, map_converted, entry, first_hit, lemma_report_grows_trans, rename_lookup, report_grows, Action, Hook, Registration, Registry,
    RegistryBuilder, TypeKey, Walker,
};
use super::super::dispatch::{CustomWalker, RenameTable};
use super::super::walker::{convert, convert_list, convert_value, convert_value_list, lemma_replaced_at, lemma_steps_push, display_done, display_midpoint, nested_done, steps_done, WalkStep};
use super::super::registry::{compound_of, value_at_path_converted};
use super::v99::item_stack_walked_with;

verus! {

/// This version.
pub const VERSION: i32 = 704;

/// The `(legacy, namespaced)` block entity ids.
pub open spec fn tile_id_update_pairs() -> Seq<(&'static str, &'static str)> {
    seq![
        ("Airportal", "minecraft:end_portal"),
        ("Banner", "minecraft:banner"),
        ("Beacon", "minecraft:beacon"),
        ("Cauldron", "minecraft:brewing_stand"),
        ("Chest", "minecraft:chest"),
        ("Comparator", "minecraft:comparator"),
        ("Control", "minecraft:command_block"),
        ("DLDetector", "minecraft:daylight_detector"),
        ("Dropper", "minecraft:dropper"),
        ("EnchantTable", "minecraft:enchanting_table"),
        ("EndGateway", "minecraft:end_gateway"),
        ("EnderChest", "minecraft:ender_chest"),
        ("FlowerPot", "minecraft:flower_pot"),
        ("Furnace", "minecraft:furnace"),
        ("Hopper", "minecraft:hopper"),
        ("MobSpawner", "minecraft:mob_spawner"),
        ("Music", "minecraft:noteblock"),
        ("Piston", "minecraft:piston"),
        ("RecordPlayer", "minecraft:jukebox"),
        ("Sign", "minecraft:sign"),
        ("Skull", "minecraft:skull"),
        ("Structure", "minecraft:structure_block"),
        ("Trap", "minecraft:dispenser")
    ]
}

/// The `(legacy, namespaced)` block entity ids.
pub fn tile_id_update() -> (t: &'static [(&'static str, &'static str)])
    ensures
        t@ == tile_id_update_pairs(),
{
    &[
        ("Airportal", "minecraft:end_portal"),
        ("Banner", "minecraft:banner"),
        ("Beacon", "minecraft:beacon"),
        ("Cauldron", "minecraft:brewing_stand"),
        ("Chest", "minecraft:chest"),
        ("Comparator", "minecraft:comparator"),
        ("Control", "minecraft:command_block"),
        ("DLDetector", "minecraft:daylight_detector"),
        ("Dropper", "minecraft:dropper"),
        ("EnchantTable", "minecraft:enchanting_table"),
        ("EndGateway", "minecraft:end_gateway"),
        ("EnderChest", "minecraft:ender_chest"),
        ("FlowerPot", "minecraft:flower_pot"),
        ("Furnace", "minecraft:furnace"),
        ("Hopper", "minecraft:hopper"),
        ("MobSpawner", "minecraft:mob_spawner"),
        ("Music", "minecraft:noteblock"),
        ("Piston", "minecraft:piston"),
        ("RecordPlayer", "minecraft:jukebox"),
        ("Sign", "minecraft:sign"),
        ("Skull", "minecraft:skull"),
        ("Structure", "minecraft:structure_block"),
        ("Trap", "minecraft:dispenser")
    ]
}

/// The block entity id of the block an item places, by item id.
pub open spec fn item_tile_entity_ids_pairs() -> Seq<(&'static str, &'static str)> {
    seq![
        ("minecraft:furnace", "minecraft:furnace"),
        ("minecraft:lit_furnace", "minecraft:furnace"),
        ("minecraft:chest", "minecraft:chest"),
        ("minecraft:trapped_chest", "minecraft:chest"),
        ("minecraft:ender_chest", "minecraft:ender_chest"),
        ("minecraft:jukebox", "minecraft:jukebox"),
        ("minecraft:dispenser", "minecraft:dispenser"),
        ("minecraft:dropper", "minecraft:dropper"),
        ("minecraft:sign", "minecraft:sign"),
        ("minecraft:mob_spawner", "minecraft:mob_spawner"),
        ("minecraft:spawner", "minecraft:mob_spawner"),
        ("minecraft:noteblock", "minecraft:noteblock"),
        ("minecraft:brewing_stand", "minecraft:brewing_stand"),
        ("minecraft:enhanting_table", "minecraft:enchanting_table"),
        ("minecraft:command_block", "minecraft:command_block"),
        ("minecraft:beacon", "minecraft:beacon"),
        ("minecraft:skull", "minecraft:skull"),
        ("minecraft:daylight_detector", "minecraft:daylight_detector"),
        ("minecraft:hopper", "minecraft:hopper"),
        ("minecraft:banner", "minecraft:banner"),
        ("minecraft:flower_pot", "minecraft:flower_pot"),
        ("minecraft:repeating_command_block", "minecraft:command_block"),
        ("minecraft:chain_command_block", "minecraft:command_block"),
        ("minecraft:shulker_box", "minecraft:shulker_box"),
        ("minecraft:white_shulker_box", "minecraft:shulker_box"),
        ("minecraft:orange_shulker_box", "minecraft:shulker_box"),
        ("minecraft:magenta_shulker_box", "minecraft:shulker_box"),
        ("minecraft:light_blue_shulker_box", "minecraft:shulker_box"),
        ("minecraft:yellow_shulker_box", "minecraft:shulker_box"),
        ("minecraft:lime_shulker_box", "minecraft:shulker_box"),
        ("minecraft:pink_shulker_box", "minecraft:shulker_box"),
        ("minecraft:gray_shulker_box", "minecraft:shulker_box"),
        ("minecraft:silver_shulker_box", "minecraft:shulker_box"),
        ("minecraft:cyan_shulker_box", "minecraft:shulker_box"),
        ("minecraft:purple_shulker_box", "minecraft:shulker_box"),
        ("minecraft:blue_shulker_box", "minecraft:shulker_box"),
        ("minecraft:brown_shulker_box", "minecraft:shulker_box"),
        ("minecraft:green_shulker_box", "minecraft:shulker_box"),
        ("minecraft:red_shulker_box", "minecraft:shulker_box"),
        ("minecraft:black_shulker_box", "minecraft:shulker_box"),
        ("minecraft:bed", "minecraft:bed"),
        ("minecraft:light_gray_shulker_box", "minecraft:shulker_box"),
        ("minecraft:white_banner", "minecraft:banner"),
        ("minecraft:orange_banner", "minecraft:banner"),
        ("minecraft:magenta_banner", "minecraft:banner"),
        ("minecraft:light_blue_banner", "minecraft:banner"),
        ("minecraft:yellow_banner", "minecraft:banner"),
        ("minecraft:lime_banner", "minecraft:banner"),
        ("minecraft:pink_banner", "minecraft:banner"),
        ("minecraft:gray_banner", "minecraft:banner"),
        ("minecraft:silver_banner", "minecraft:banner"),
        ("minecraft:cyan_banner", "minecraft:banner"),
        ("minecraft:purple_banner", "minecraft:banner"),
        ("minecraft:blue_banner", "minecraft:banner"),
        ("minecraft:brown_banner", "minecraft:banner"),
        ("minecraft:green_banner", "minecraft:banner"),
        ("minecraft:red_banner", "minecraft:banner"),
        ("minecraft:black_banner", "minecraft:banner"),
        ("minecraft:standing_sign", "minecraft:sign"),
        ("minecraft:wall_sign", "minecraft:sign"),
        ("minecraft:piston_head", "minecraft:piston"),
        ("minecraft:daylight_detector_inverted", "minecraft:daylight_detector"),
        ("minecraft:unpowered_comparator", "minecraft:comparator"),
        ("minecraft:powered_comparator", "minecraft:comparator"),
        ("minecraft:wall_banner", "minecraft:banner"),
        ("minecraft:standing_banner", "minecraft:banner"),
        ("minecraft:structure_block", "minecraft:structure_block"),
        ("minecraft:end_portal", "minecraft:end_portal"),
        ("minecraft:end_gateway", "minecraft:end_gateway"),
        ("minecraft:shield", "minecraft:banner"),
        ("minecraft:white_bed", "minecraft:bed"),
        ("minecraft:orange_bed", "minecraft:bed"),
        ("minecraft:magenta_bed", "minecraft:bed"),
        ("minecraft:light_blue_bed", "minecraft:bed"),
        ("minecraft:yellow_bed", "minecraft:bed"),
        ("minecraft:lime_bed", "minecraft:bed"),
        ("minecraft:pink_bed", "minecraft:bed"),
        ("minecraft:gray_bed", "minecraft:bed"),
        ("minecraft:silver_bed", "minecraft:bed"),
        ("minecraft:cyan_bed", "minecraft:bed"),
        ("minecraft:purple_bed", "minecraft:bed"),
        ("minecraft:blue_bed", "minecraft:bed"),
        ("minecraft:brown_bed", "minecraft:bed"),
        ("minecraft:green_bed", "minecraft:bed"),
        ("minecraft:red_bed", "minecraft:bed"),
        ("minecraft:black_bed", "minecraft:bed"),
        ("minecraft:oak_sign", "minecraft:sign"),
        ("minecraft:spruce_sign", "minecraft:sign"),
        ("minecraft:birch_sign", "minecraft:sign"),
        ("minecraft:jungle_sign", "minecraft:sign"),
        ("minecraft:acacia_sign", "minecraft:sign"),
        ("minecraft:dark_oak_sign", "minecraft:sign"),
        ("minecraft:crimson_sign", "minecraft:sign"),
        ("minecraft:warped_sign", "minecraft:sign"),
        ("minecraft:skeleton_skull", "minecraft:skull"),
        ("minecraft:wither_skeleton_skull", "minecraft:skull"),
        ("minecraft:zombie_head", "minecraft:skull"),
        ("minecraft:player_head", "minecraft:skull"),
        ("minecraft:creeper_head", "minecraft:skull"),
        ("minecraft:dragon_head", "minecraft:skull"),
        ("minecraft:barrel", "minecraft:barrel"),
        ("minecraft:conduit", "minecraft:conduit"),
        ("minecraft:smoker", "minecraft:smoker"),
        ("minecraft:blast_furnace", "minecraft:blast_furnace"),
        ("minecraft:lectern", "minecraft:lectern"),
        ("minecraft:bell", "minecraft:bell"),
        ("minecraft:jigsaw", "minecraft:jigsaw"),
        ("minecraft:campfire", "minecraft:campfire"),
        ("minecraft:bee_nest", "minecraft:beehive"),
        ("minecraft:beehive", "minecraft:beehive"),
        ("minecraft:sculk_sensor", "minecraft:sculk_sensor"),
        ("minecraft:decorated_pot", "minecraft:decorated_pot"),
        ("minecraft:crafter", "minecraft:crafter"),
        ("minecraft:enchanting_table", "minecraft:enchanting_table"),
        ("minecraft:comparator", "minecraft:comparator"),
        ("minecraft:light_gray_bed", "minecraft:bed"),
        ("minecraft:light_gray_banner", "minecraft:banner"),
        ("minecraft:soul_campfire", "minecraft:campfire"),
        ("minecraft:sculk_catalyst", "minecraft:sculk_catalyst"),
        ("minecraft:mangrove_sign", "minecraft:sign"),
        ("minecraft:sculk_shrieker", "minecraft:sculk_shrieker"),
        ("minecraft:chiseled_bookshelf", "minecraft:chiseled_bookshelf"),
        ("minecraft:bamboo_sign", "minecraft:sign"),
        ("minecraft:oak_hanging_sign", "minecraft:sign"),
        ("minecraft:spruce_hanging_sign", "minecraft:sign"),
        ("minecraft:birch_hanging_sign", "minecraft:sign"),
        ("minecraft:jungle_hanging_sign", "minecraft:sign"),
        ("minecraft:acacia_hanging_sign", "minecraft:sign"),
        ("minecraft:dark_oak_hanging_sign", "minecraft:sign"),
        ("minecraft:mangrove_hanging_sign", "minecraft:sign"),
        ("minecraft:bamboo_hanging_sign", "minecraft:sign"),
        ("minecraft:crimson_hanging_sign", "minecraft:sign"),
        ("minecraft:warped_hanging_sign", "minecraft:sign"),
        ("minecraft:piglin_head", "minecraft:skull"),
        ("minecraft:suspicious_sand", "minecraft:brushable_block"),
        ("minecraft:cherry_sign", "minecraft:sign"),
        ("minecraft:cherry_hanging_sign", "minecraft:sign"),
        ("minecraft:suspicious_gravel", "minecraft:brushable_block"),
        ("minecraft:calibrated_sculk_sensor", "minecraft:calibrated_sculk_sensor"),
        ("minecraft:trial_spawner", "minecraft:trial_spawner"),
        ("minecraft:vault", "minecraft:vault")
    ]
}

/// The block entity id of the block an item places, by item id.
pub fn item_tile_entity_ids() -> (t: &'static [(&'static str, &'static str)])
    ensures
        t@ == item_tile_entity_ids_pairs(),
{
    &[
        ("minecraft:furnace", "minecraft:furnace"),
        ("minecraft:lit_furnace", "minecraft:furnace"),
        ("minecraft:chest", "minecraft:chest"),
        ("minecraft:trapped_chest", "minecraft:chest"),
        ("minecraft:ender_chest", "minecraft:ender_chest"),
        ("minecraft:jukebox", "minecraft:jukebox"),
        ("minecraft:dispenser", "minecraft:dispenser"),
        ("minecraft:dropper", "minecraft:dropper"),
        ("minecraft:sign", "minecraft:sign"),
        ("minecraft:mob_spawner", "minecraft:mob_spawner"),
        ("minecraft:spawner", "minecraft:mob_spawner"),
        ("minecraft:noteblock", "minecraft:noteblock"),
        ("minecraft:brewing_stand", "minecraft:brewing_stand"),
        ("minecraft:enhanting_table", "minecraft:enchanting_table"),
        ("minecraft:command_block", "minecraft:command_block"),
        ("minecraft:beacon", "minecraft:beacon"),
        ("minecraft:skull", "minecraft:skull"),
        ("minecraft:daylight_detector", "minecraft:daylight_detector"),
        ("minecraft:hopper", "minecraft:hopper"),
        ("minecraft:banner", "minecraft:banner"),
        ("minecraft:flower_pot", "minecraft:flower_pot"),
        ("minecraft:repeating_command_block", "minecraft:command_block"),
        ("minecraft:chain_command_block", "minecraft:command_block"),
        ("minecraft:shulker_box", "minecraft:shulker_box"),
        ("minecraft:white_shulker_box", "minecraft:shulker_box"),
        ("minecraft:orange_shulker_box", "minecraft:shulker_box"),
        ("minecraft:magenta_shulker_box", "minecraft:shulker_box"),
        ("minecraft:light_blue_shulker_box", "minecraft:shulker_box"),
        ("minecraft:yellow_shulker_box", "minecraft:shulker_box"),
        ("minecraft:lime_shulker_box", "minecraft:shulker_box"),
        ("minecraft:pink_shulker_box", "minecraft:shulker_box"),
        ("minecraft:gray_shulker_box", "minecraft:shulker_box"),
        ("minecraft:silver_shulker_box", "minecraft:shulker_box"),
        ("minecraft:cyan_shulker_box", "minecraft:shulker_box"),
        ("minecraft:purple_shulker_box", "minecraft:shulker_box"),
        ("minecraft:blue_shulker_box", "minecraft:shulker_box"),
        ("minecraft:brown_shulker_box", "minecraft:shulker_box"),
        ("minecraft:green_shulker_box", "minecraft:shulker_box"),
        ("minecraft:red_shulker_box", "minecraft:shulker_box"),
        ("minecraft:black_shulker_box", "minecraft:shulker_box"),
        ("minecraft:bed", "minecraft:bed"),
        ("minecraft:light_gray_shulker_box", "minecraft:shulker_box"),
        ("minecraft:white_banner", "minecraft:banner"),
        ("minecraft:orange_banner", "minecraft:banner"),
        ("minecraft:magenta_banner", "minecraft:banner"),
        ("minecraft:light_blue_banner", "minecraft:banner"),
        ("minecraft:yellow_banner", "minecraft:banner"),
        ("minecraft:lime_banner", "minecraft:banner"),
        ("minecraft:pink_banner", "minecraft:banner"),
        ("minecraft:gray_banner", "minecraft:banner"),
        ("minecraft:silver_banner", "minecraft:banner"),
        ("minecraft:cyan_banner", "minecraft:banner"),
        ("minecraft:purple_banner", "minecraft:banner"),
        ("minecraft:blue_banner", "minecraft:banner"),
        ("minecraft:brown_banner", "minecraft:banner"),
        ("minecraft:green_banner", "minecraft:banner"),
        ("minecraft:red_banner", "minecraft:banner"),
        ("minecraft:black_banner", "minecraft:banner"),
        ("minecraft:standing_sign", "minecraft:sign"),
        ("minecraft:wall_sign", "minecraft:sign"),
        ("minecraft:piston_head", "minecraft:piston"),
        ("minecraft:daylight_detector_inverted", "minecraft:daylight_detector"),
        ("minecraft:unpowered_comparator", "minecraft:comparator"),
        ("minecraft:powered_comparator", "minecraft:comparator"),
        ("minecraft:wall_banner", "minecraft:banner"),
        ("minecraft:standing_banner", "minecraft:banner"),
        ("minecraft:structure_block", "minecraft:structure_block"),
        ("minecraft:end_portal", "minecraft:end_portal"),
        ("minecraft:end_gateway", "minecraft:end_gateway"),
        ("minecraft:shield", "minecraft:banner"),
        ("minecraft:white_bed", "minecraft:bed"),
        ("minecraft:orange_bed", "minecraft:bed"),
        ("minecraft:magenta_bed", "minecraft:bed"),
        ("minecraft:light_blue_bed", "minecraft:bed"),
        ("minecraft:yellow_bed", "minecraft:bed"),
        ("minecraft:lime_bed", "minecraft:bed"),
        ("minecraft:pink_bed", "minecraft:bed"),
        ("minecraft:gray_bed", "minecraft:bed"),
        ("minecraft:silver_bed", "minecraft:bed"),
        ("minecraft:cyan_bed", "minecraft:bed"),
        ("minecraft:purple_bed", "minecraft:bed"),
        ("minecraft:blue_bed", "minecraft:bed"),
        ("minecraft:brown_bed", "minecraft:bed"),
        ("minecraft:green_bed", "minecraft:bed"),
        ("minecraft:red_bed", "minecraft:bed"),
        ("minecraft:black_bed", "minecraft:bed"),
        ("minecraft:oak_sign", "minecraft:sign"),
        ("minecraft:spruce_sign", "minecraft:sign"),
        ("minecraft:birch_sign", "minecraft:sign"),
        ("minecraft:jungle_sign", "minecraft:sign"),
        ("minecraft:acacia_sign", "minecraft:sign"),
        ("minecraft:dark_oak_sign", "minecraft:sign"),
        ("minecraft:crimson_sign", "minecraft:sign"),
        ("minecraft:warped_sign", "minecraft:sign"),
        ("minecraft:skeleton_skull", "minecraft:skull"),
        ("minecraft:wither_skeleton_skull", "minecraft:skull"),
        ("minecraft:zombie_head", "minecraft:skull"),
        ("minecraft:player_head", "minecraft:skull"),
        ("minecraft:creeper_head", "minecraft:skull"),
        ("minecraft:dragon_head", "minecraft:skull"),
        ("minecraft:barrel", "minecraft:barrel"),
        ("minecraft:conduit", "minecraft:conduit"),
        ("minecraft:smoker", "minecraft:smoker"),
        ("minecraft:blast_furnace", "minecraft:blast_furnace"),
        ("minecraft:lectern", "minecraft:lectern"),
        ("minecraft:bell", "minecraft:bell"),
        ("minecraft:jigsaw", "minecraft:jigsaw"),
        ("minecraft:campfire", "minecraft:campfire"),
        ("minecraft:bee_nest", "minecraft:beehive"),
        ("minecraft:beehive", "minecraft:beehive"),
        ("minecraft:sculk_sensor", "minecraft:sculk_sensor"),
        ("minecraft:decorated_pot", "minecraft:decorated_pot"),
        ("minecraft:crafter", "minecraft:crafter"),
        ("minecraft:enchanting_table", "minecraft:enchanting_table"),
        ("minecraft:comparator", "minecraft:comparator"),
        ("minecraft:light_gray_bed", "minecraft:bed"),
        ("minecraft:light_gray_banner", "minecraft:banner"),
        ("minecraft:soul_campfire", "minecraft:campfire"),
        ("minecraft:sculk_catalyst", "minecraft:sculk_catalyst"),
        ("minecraft:mangrove_sign", "minecraft:sign"),
        ("minecraft:sculk_shrieker", "minecraft:sculk_shrieker"),
        ("minecraft:chiseled_bookshelf", "minecraft:chiseled_bookshelf"),
        ("minecraft:bamboo_sign", "minecraft:sign"),
        ("minecraft:oak_hanging_sign", "minecraft:sign"),
        ("minecraft:spruce_hanging_sign", "minecraft:sign"),
        ("minecraft:birch_hanging_sign", "minecraft:sign"),
        ("minecraft:jungle_hanging_sign", "minecraft:sign"),
        ("minecraft:acacia_hanging_sign", "minecraft:sign"),
        ("minecraft:dark_oak_hanging_sign", "minecraft:sign"),
        ("minecraft:mangrove_hanging_sign", "minecraft:sign"),
        ("minecraft:bamboo_hanging_sign", "minecraft:sign"),
        ("minecraft:crimson_hanging_sign", "minecraft:sign"),
        ("minecraft:warped_hanging_sign", "minecraft:sign"),
        ("minecraft:piglin_head", "minecraft:skull"),
        ("minecraft:suspicious_sand", "minecraft:brushable_block"),
        ("minecraft:cherry_sign", "minecraft:sign"),
        ("minecraft:cherry_hanging_sign", "minecraft:sign"),
        ("minecraft:suspicious_gravel", "minecraft:brushable_block"),
        ("minecraft:calibrated_sculk_sensor", "minecraft:calibrated_sculk_sensor"),
        ("minecraft:trial_spawner", "minecraft:trial_spawner"),
        ("minecraft:vault", "minecraft:vault")
    ]
}

/// The entity id an item holds, from version 99 on.
pub open spec fn item_entity_ids_v99_pairs() -> Seq<(&'static str, &'static str)> {
    seq![
        ("minecraft:armor_stand", "ArmorStand"),
        ("minecraft:painting", "Painting"),
        ("minecraft:boat", "Boat"),
        ("minecraft:minecart", "MinecartRideable"),
        ("minecraft:chest_minecart", "MinecartChest"),
        ("minecraft:furnace_minecart", "MinecartFurnace"),
        ("minecraft:tnt_minecart", "MinecartTNT"),
        ("minecraft:hopper_minecart", "MinecartHopper"),
        ("minecraft:item_frame", "ItemFrame")
    ]
}

/// The entity id an item holds, from version 99 on.
pub fn item_entity_ids_v99() -> (t: &'static [(&'static str, &'static str)])
    ensures
        t@ == item_entity_ids_v99_pairs(),
{
    &[
        ("minecraft:armor_stand", "ArmorStand"),
        ("minecraft:painting", "Painting"),
        ("minecraft:boat", "Boat"),
        ("minecraft:minecart", "MinecartRideable"),
        ("minecraft:chest_minecart", "MinecartChest"),
        ("minecraft:furnace_minecart", "MinecartFurnace"),
        ("minecraft:tnt_minecart", "MinecartTNT"),
        ("minecraft:hopper_minecart", "MinecartHopper"),
        ("minecraft:item_frame", "ItemFrame")
    ]
}

/// The entity id an item holds, from version 705 on.
pub open spec fn item_entity_ids_v705_pairs() -> Seq<(&'static str, &'static str)> {
    seq![
        ("minecraft:armor_stand", "minecraft:armor_stand"),
        ("minecraft:painting", "minecraft:painting"),
        ("minecraft:boat", "minecraft:boat"),
        ("minecraft:oak_boat", "minecraft:boat"),
        ("minecraft:oak_chest_boat", "minecraft:chest_boat"),
        ("minecraft:spruce_boat", "minecraft:boat"),
        ("minecraft:spruce_chest_boat", "minecraft:chest_boat"),
        ("minecraft:birch_boat", "minecraft:boat"),
        ("minecraft:birch_chest_boat", "minecraft:chest_boat"),
        ("minecraft:jungle_boat", "minecraft:boat"),
        ("minecraft:jungle_chest_boat", "minecraft:chest_boat"),
        ("minecraft:acacia_boat", "minecraft:boat"),
        ("minecraft:acacia_chest_boat", "minecraft:chest_boat"),
        ("minecraft:cherry_boat", "minecraft:boat"),
        ("minecraft:cherry_chest_boat", "minecraft:chest_boat"),
        ("minecraft:dark_oak_boat", "minecraft:boat"),
        ("minecraft:dark_oak_chest_boat", "minecraft:chest_boat"),
        ("minecraft:mangrove_boat", "minecraft:boat"),
        ("minecraft:mangrove_chest_boat", "minecraft:chest_boat"),
        ("minecraft:bamboo_raft", "minecraft:boat"),
        ("minecraft:bamboo_chest_raft", "minecraft:chest_boat"),
        ("minecraft:minecart", "minecraft:minecart"),
        ("minecraft:chest_minecart", "minecraft:chest_minecart"),
        ("minecraft:furnace_minecart", "minecraft:furnace_minecart"),
        ("minecraft:tnt_minecart", "minecraft:tnt_minecart"),
        ("minecraft:hopper_minecart", "minecraft:hopper_minecart"),
        ("minecraft:item_frame", "minecraft:item_frame"),
        ("minecraft:glow_item_frame", "minecraft:glow_item_frame"),
        ("minecraft:pufferfish_bucket", "minecraft:pufferfish"),
        ("minecraft:salmon_bucket", "minecraft:salmon"),
        ("minecraft:cod_bucket", "minecraft:cod"),
        ("minecraft:tropical_fish_bucket", "minecraft:tropical_fish"),
        ("minecraft:axolotl_bucket", "minecraft:axolotl"),
        ("minecraft:tadpole_bucket", "minecraft:tadpole")
    ]
}

/// The entity id an item holds, from version 705 on.
pub fn item_entity_ids_v705() -> (t: &'static [(&'static str, &'static str)])
    ensures
        t@ == item_entity_ids_v705_pairs(),
{
    &[
        ("minecraft:armor_stand", "minecraft:armor_stand"),
        ("minecraft:painting", "minecraft:painting"),
        ("minecraft:boat", "minecraft:boat"),
        ("minecraft:oak_boat", "minecraft:boat"),
        ("minecraft:oak_chest_boat", "minecraft:chest_boat"),
        ("minecraft:spruce_boat", "minecraft:boat"),
        ("minecraft:spruce_chest_boat", "minecraft:chest_boat"),
        ("minecraft:birch_boat", "minecraft:boat"),
        ("minecraft:birch_chest_boat", "minecraft:chest_boat"),
        ("minecraft:jungle_boat", "minecraft:boat"),
        ("minecraft:jungle_chest_boat", "minecraft:chest_boat"),
        ("minecraft:acacia_boat", "minecraft:boat"),
        ("minecraft:acacia_chest_boat", "minecraft:chest_boat"),
        ("minecraft:cherry_boat", "minecraft:boat"),
        ("minecraft:cherry_chest_boat", "minecraft:chest_boat"),
        ("minecraft:dark_oak_boat", "minecraft:boat"),
        ("minecraft:dark_oak_chest_boat", "minecraft:chest_boat"),
        ("minecraft:mangrove_boat", "minecraft:boat"),
        ("minecraft:mangrove_chest_boat", "minecraft:chest_boat"),
        ("minecraft:bamboo_raft", "minecraft:boat"),
        ("minecraft:bamboo_chest_raft", "minecraft:chest_boat"),
        ("minecraft:minecart", "minecraft:minecart"),
        ("minecraft:chest_minecart", "minecraft:chest_minecart"),
        ("minecraft:furnace_minecart", "minecraft:furnace_minecart"),
        ("minecraft:tnt_minecart", "minecraft:tnt_minecart"),
        ("minecraft:hopper_minecart", "minecraft:hopper_minecart"),
        ("minecraft:item_frame", "minecraft:item_frame"),
        ("minecraft:glow_item_frame", "minecraft:glow_item_frame"),
        ("minecraft:pufferfish_bucket", "minecraft:pufferfish"),
        ("minecraft:salmon_bucket", "minecraft:salmon"),
        ("minecraft:cod_bucket", "minecraft:cod"),
        ("minecraft:tropical_fish_bucket", "minecraft:tropical_fish"),
        ("minecraft:axolotl_bucket", "minecraft:axolotl"),
        ("minecraft:tadpole_bucket", "minecraft:tadpole")
    ]
}

/// The entity id an item's `EntityTag` stands for at version `from`.
pub open spec fn entity_floor(item_id: Seq<char>, from: i32) -> Option<&'static str> {
    if from >= 705 && first_hit(item_entity_ids_v705_pairs(), item_id, false).is_some() {
        first_hit(item_entity_ids_v705_pairs(), item_id, false)
    } else if from >= 99 {
        first_hit(item_entity_ids_v99_pairs(), item_id, false)
    } else {
        None
    }
}

/// The entity id an item's `EntityTag` stands for at version `from`: the
/// table entry of the greatest version at most `from` that names the item.
pub fn entity_id_floor(item_id: &str, from: i32) -> (r: Option<&'static str>)
    ensures
        r == entity_floor(item_id@, from),
        r matches Some(x) ==> (from >= 705 && exists|i: int| 0 <= i < item_entity_ids_v705_pairs().len()
            && item_entity_ids_v705_pairs()[i].0@ == item_id@ && item_entity_ids_v705_pairs()[i].1 == x)
            || (from >= 99 && exists|i: int| 0 <= i < item_entity_ids_v99_pairs().len()
            && item_entity_ids_v99_pairs()[i].0@ == item_id@ && item_entity_ids_v99_pairs()[i].1 == x),
{
    if from >= 705 {
        match rename_lookup(item_entity_ids_v705(), item_id, false) {
            Some(x) => return Some(x),
            None => {},
        }
    }
    if from >= 99 {
        return rename_lookup(item_entity_ids_v99(), item_id, false);
    }
    None
}

/// `ma` is `m0` with `id` set to `resolved` when it held no string.
pub open spec fn default_id_prepared(m0: NbtMap, ma: NbtMap, resolved: Option<Seq<char>>) -> bool {
    match resolved {
        Some(id) => if str_of(m0@, "id"@).is_none() {
            ma@ == m0@.insert("id"@, ma@["id"@]) && is_str(ma@["id"@], id)
        } else {
            ma@ == m0@
        },
        None => ma@ == m0@,
    }
}

/// What converting `m0` as a `ty` with a default id makes of it: the id set
/// as [`default_id_prepared`] says, then the compound converted one level
/// down.
pub open spec fn converted_with_default_id(regs: Seq<Registration>, ty: TypeKey, m0: NbtMap, m1: NbtMap, resolved: Option<Seq<char>>, r0: LossReport, r1: LossReport, from: i32, to: i32, fuel: nat) -> bool
    decreases fuel, 7int, 0int,
{
    fuel > 0 && exists|ma: NbtMap| #![trigger default_id_prepared(m0, ma, resolved)]
        default_id_prepared(m0, ma, resolved) && map_converted(regs, ty, ma, m1, r0, r1, from, to, (fuel - 1) as nat)
}

/// Convert `m` as a `ty`, with `id` set to `resolved` first when it holds
/// no string.
fn convert_with_default_id(
    reg: &Registry,
    ty: TypeKey,
    m: &mut NbtMap,
    resolved: Option<String>,
    from: i32,
    to: i32,
    report: &mut LossReport,
    fuel: u32,
)
    requires
        fuel > 0,
    ensures
        report_grows(*old(report), *final(report)),
        converted_with_default_id(reg.entries@, ty, *old(m), *final(m), opt_text(resolved), *old(report), *final(report), from, to, fuel as nat),
    decreases fuel, 2int,
{
    let ghost res = opt_text(resolved);
    match resolved {
        Some(id) => {
            if m.get_string("id").is_none() {
                m.set_string("id", id.as_str());
            }
        },
        None => {},
    }
    let ghost ma = *m;
    proof {
        assert(default_id_prepared(*old(m), ma, res));
    }
    convert_map(reg, ty, m, from, to, report, fuel - 1);
    proof {
        assert(map_converted(reg.entries@, ty, ma, *m, *old(report), *report, from, to, ((fuel as nat) - 1) as nat));
    }
}

/// The entity an item's `EntityTag` holds: the spawn egg's own entity, the
/// item's table entry, or the tag's own `id`.
/// The text of an optional string.
pub open spec fn opt_text(o: Option<String>) -> Option<Seq<char>> {
    match o {
        Some(x) => Some(x@),
        None => None,
    }
}

/// The first position at which `pat` occurs in `s`, if it does.
pub open spec fn first_occurrence(s: Seq<char>, pat: Seq<char>) -> Option<int> {
    if exists|i: int| 0 <= i && occurs_at(s, pat, i) && forall|j: int| 0 <= j < i ==> !occurs_at(s, pat, j) {
        Some(choose|i: int| 0 <= i && occurs_at(s, pat, i) && forall|j: int| 0 <= j < i ==> !occurs_at(s, pat, j))
    } else {
        None
    }
}

/// The entity an item `item` with entity tag `tag` holds at version `from`.
pub open spec fn entity_resolved(item: Option<Seq<char>>, tag: Map<Seq<char>, NbtValue>, from: i32) -> Option<Seq<char>> {
    match item {
        Some(i) => match first_occurrence(i, "_spawn_egg"@) {
            Some(k) => Some(i.subrange(0, k)),
            None => match entity_floor(i, from) {
                Some(m) => Some(m@),
                None => str_of(tag, "id"@),
            },
        },
        None => str_of(tag, "id"@),
    }
}

fn resolve_entity_id(item_id: &Option<String>, entity_tag: &NbtMap, from: i32) -> (r: Option<String>)
    ensures
        opt_text(r) == entity_resolved(opt_text(*item_id), entity_tag@, from),
{
    let own = match entity_tag.get_string("id") {
        Some(s) => Some(s.to_owned()),
        None => None,
    };
    match item_id {
        Some(item) => {
            match find_text(item.as_str(), "_spawn_egg") {
                Some(idx) => {
                    proof {
                        let k = idx as int;
                        assert(occurs_at(item@, "_spawn_egg"@, k));
                        let c = choose|i: int| 0 <= i && occurs_at(item@, "_spawn_egg"@, i) && forall|j: int| 0 <= j < i ==> !occurs_at(item@, "_spawn_egg"@, j);
                        if c < k {
                        } else if k < c {
                            assert(!occurs_at(item@, "_spawn_egg"@, k));
                        }
                        assert(first_occurrence(item@, "_spawn_egg"@) == Some(k));
                    }
                    Some(item.as_str().substring_char(0, idx).to_owned())
                },
                None => match entity_id_floor(item.as_str(), from) {
                    Some(mapped) => Some(mapped.to_owned()),
                    None => own,
                },
            }
        },
        None => own,
    }
}

/// The block entity an item's `BlockEntityTag` holds.
/// The block entity an item `item` holds at version `from`, as text.
pub open spec fn block_entity_resolved(item: Option<Seq<char>>, from: i32) -> Option<Seq<char>> {
    match item {
        Some(i) => if from < 3438 && i == "minecraft:suspicious_sand"@ {
            Some("minecraft:suspicious_sand"@)
        } else {
            match first_hit(item_tile_entity_ids_pairs(), i, false) {
                Some(x) => Some(x@),
                None => None,
            }
        },
        None => None,
    }
}

fn resolve_block_entity_id(item_id: &Option<String>, from: i32) -> (r: Option<&'static str>)
    ensures
        r == match *item_id {
            Some(item) => if from < 3438 && item@ == "minecraft:suspicious_sand"@ {
                Some("minecraft:suspicious_sand")
            } else {
                first_hit(item_tile_entity_ids_pairs(), item@, false)
            },
            None => None,
        },
{
    match item_id {
        Some(item) => {
            if from < 3438 && str_eq(item.as_str(), "minecraft:suspicious_sand") {
                Some("minecraft:suspicious_sand")
            } else {
                rename_lookup(item_tile_entity_ids(), item.as_str(), false)
            }
        },
        None => None,
    }
}

/// The members of an item stack's `tag` this version's item stack walker
/// visits, in order, converting to `to`.
pub open spec fn item_steps(to: i32) -> Seq<WalkStep> {
    seq![
        WalkStep::List(TypeKey::ItemStack, "Items"),
        WalkStep::List(TypeKey::ItemStack, "ChargedProjectiles"),
        WalkStep::BookList("pages"),
        WalkStep::BookList("filtered_pages"),
        if to >= 1458 { WalkStep::Display(to >= 1803) } else { WalkStep::Skip },
        WalkStep::EntityTagResolved,
        WalkStep::BlockEntityTagResolved,
        WalkStep::ValueList(TypeKey::BlockName, "CanDestroy"),
        WalkStep::ValueList(TypeKey::BlockName, "CanPlaceOn"),
    ]
}

/// What this version's item stack walker makes of an item stack.
pub open spec fn item_stack_walked(e: Seq<Registration>, d0: NbtMap, d1: NbtMap, r0: LossReport, r1: LossReport, from: i32, to: i32, fuel: nat) -> bool
    decreases fuel, 12int, 0int,
{
    item_stack_walked_with(e, item_steps(to), d0, d1, r0, r1, from, to, fuel)
}

/// The item stack structure walker: the id, and everything nested in `tag`,
/// with text components where the target version has them.
#[verifier::spinoff_prover]
#[verifier::rlimit(60)]
pub fn walk_item_stack(reg: &Registry, data: &mut NbtMap, from: i32, to: i32, report: &mut LossReport, fuel: u32)
    requires
        fuel > 0,
    ensures
        report_grows(*old(report), *final(report)),
        item_stack_walked(reg.entries@, *old(data), *final(data), *old(report), *final(report), from, to, fuel as nat),
    decreases fuel, 3int,
{
    let ghost regs = reg.entries@;
    let ghost r0 = *report;
    convert_value(reg, TypeKey::ItemName, data, "id", from, to);
    let ghost dm = *data;
    let item_id = match data.get_string("id") {
        Some(s) => Some(s.to_owned()),
        None => None,
    };
    let ghost item = opt_text(item_id);
    proof {
        assert(item == str_of(dm@, "id"@));
        assert(value_at_path_converted(regs, TypeKey::ItemName, "id"@, *old(data), dm, from, to));
    }
    let mut tag = match data.take_map("tag") {
        Some(t) => t,
        None => {
            proof {
                assert(map_of(dm@, "tag"@).is_none());
                assert(item_stack_walked_with(regs, item_steps(to), *old(data), *data, r0, *report, from, to, fuel as nat));
            }
            return;
        },
    };
    let ghost tmid = *data;
    let ghost t0 = tag;
    let ghost steps = item_steps(to);
    let ghost mut ds: Seq<NbtMap> = seq![tag];
    let ghost mut rs: Seq<LossReport> = seq![*report];
    convert_list(reg, TypeKey::ItemStack, &mut tag, "Items", from, to, report, fuel);
    proof {
        lemma_steps_push(regs, steps, item, ds, rs, tag, *report, from, to, fuel as nat);
        lemma_report_grows_trans(r0, rs.last(), *report);
        ds = ds.push(tag);
        rs = rs.push(*report);
    }
    convert_list(reg, TypeKey::ItemStack, &mut tag, "ChargedProjectiles", from, to, report, fuel);
    proof {
        lemma_steps_push(regs, steps, item, ds, rs, tag, *report, from, to, fuel as nat);
        lemma_report_grows_trans(r0, rs.last(), *report);
        ds = ds.push(tag);
        rs = rs.push(*report);
    }
    let is_book = match &item_id {
        Some(id) => str_eq(id.as_str(), "minecraft:written_book"),
        None => false,
    };
    proof {
        reveal_strlit("minecraft:written_book");
        assert(is_book == (item == Some("minecraft:written_book"@)));
    }
    if is_book {
        convert_list(reg, TypeKey::TextComponent, &mut tag, "pages", from, to, report, fuel);
        proof {
            lemma_steps_push(regs, steps, item, ds, rs, tag, *report, from, to, fuel as nat);
            lemma_report_grows_trans(r0, rs.last(), *report);
            ds = ds.push(tag);
            rs = rs.push(*report);
        }
        convert_list(reg, TypeKey::TextComponent, &mut tag, "filtered_pages", from, to, report, fuel);
        proof {
            lemma_steps_push(regs, steps, item, ds, rs, tag, *report, from, to, fuel as nat);
            lemma_report_grows_trans(r0, rs.last(), *report);
            ds = ds.push(tag);
            rs = rs.push(*report);
        }
    } else {
        proof {
            lemma_steps_push(regs, steps, item, ds, rs, tag, *report, from, to, fuel as nat);
            lemma_report_grows_trans(r0, rs.last(), *report);
            ds = ds.push(tag);
            rs = rs.push(*report);
        }
        proof {
            lemma_steps_push(regs, steps, item, ds, rs, tag, *report, from, to, fuel as nat);
            lemma_report_grows_trans(r0, rs.last(), *report);
            ds = ds.push(tag);
            rs = rs.push(*report);
        }
    }
    if to >= 1458 {
        match tag.take_map("display") {
            Some(mut display) => {
                let ghost mid = tag;
                let ghost p0 = display;
                let ghost rb = *report;
                convert(reg, TypeKey::TextComponent, &mut display, "Name", from, to, report, fuel);
                let ghost pm = display;
                let ghost rm = *report;
                if to >= 1803 {
                    convert_list(reg, TypeKey::TextComponent, &mut display, "Lore", from, to, report, fuel);
                    proof {
                        lemma_report_grows_trans(rb, rm, *report);
                        assert(display_midpoint(pm, rm) == (pm, rm));
                    }
                }
                let ghost p1 = display;
                tag.set_map("display", display);
                proof {
                    lemma_replaced_at(ds.last()@, mid@, "display"@, NbtValue::Compound(p1));
                    assert(compound_of(p1) == NbtValue::Compound(p1));
                    assert(display_done(regs, to >= 1803, p0, p1, rb, *report, from, to, fuel as nat));
                    assert(nested_done("display"@, ds.last(), tag, p1));
                }
            },
            None => {},
        }
        proof {
            lemma_steps_push(regs, steps, item, ds, rs, tag, *report, from, to, fuel as nat);
            lemma_report_grows_trans(r0, rs.last(), *report);
            ds = ds.push(tag);
            rs = rs.push(*report);
        }
    } else {
        proof {
            lemma_steps_push(regs, steps, item, ds, rs, tag, *report, from, to, fuel as nat);
            lemma_report_grows_trans(r0, rs.last(), *report);
            ds = ds.push(tag);
            rs = rs.push(*report);
        }
    }
    match tag.take_map("EntityTag") {
        Some(mut inner) => {
            let ghost mid = tag;
            let ghost m0 = inner;
            let ghost rb = *report;
            let resolved = resolve_entity_id(&item_id, &inner, from);
            convert_with_default_id(reg, TypeKey::Entity, &mut inner, resolved, from, to, report, fuel);
            let ghost m1 = inner;
            tag.set_map("EntityTag", inner);
            proof {
                lemma_replaced_at(ds.last()@, mid@, "EntityTag"@, NbtValue::Compound(m1));
                assert(compound_of(m1) == NbtValue::Compound(m1));
                assert(converted_with_default_id(regs, TypeKey::Entity, m0, m1, entity_resolved(item, m0@, from), rb, *report, from, to, fuel as nat));
                assert(nested_done("EntityTag"@, ds.last(), tag, m1));
            }
        },
        None => {},
    }
    proof {
        lemma_steps_push(regs, steps, item, ds, rs, tag, *report, from, to, fuel as nat);
        lemma_report_grows_trans(r0, rs.last(), *report);
        ds = ds.push(tag);
        rs = rs.push(*report);
    }
    match tag.take_map("BlockEntityTag") {
        Some(mut inner) => {
            let ghost mid = tag;
            let ghost m0 = inner;
            let ghost rb = *report;
            let resolved = match resolve_block_entity_id(&item_id, from) {
                Some(x) => Some(x.to_owned()),
                None => None,
            };
            proof {
                assert(opt_text(resolved) == block_entity_resolved(item, from));
            }
            convert_with_default_id(reg, TypeKey::TileEntity, &mut inner, resolved, from, to, report, fuel);
            let ghost m1 = inner;
            tag.set_map("BlockEntityTag", inner);
            proof {
                lemma_replaced_at(ds.last()@, mid@, "BlockEntityTag"@, NbtValue::Compound(m1));
                assert(compound_of(m1) == NbtValue::Compound(m1));
                assert(converted_with_default_id(regs, TypeKey::TileEntity, m0, m1, block_entity_resolved(item, from), rb, *report, from, to, fuel as nat));
                assert(nested_done("BlockEntityTag"@, ds.last(), tag, m1));
            }
        },
        None => {},
    }
    proof {
        lemma_steps_push(regs, steps, item, ds, rs, tag, *report, from, to, fuel as nat);
        lemma_report_grows_trans(r0, rs.last(), *report);
        ds = ds.push(tag);
        rs = rs.push(*report);
    }
    convert_value_list(reg, TypeKey::BlockName, &mut tag, "CanDestroy", from, to);
    proof {
        lemma_steps_push(regs, steps, item, ds, rs, tag, *report, from, to, fuel as nat);
        lemma_report_grows_trans(r0, rs.last(), *report);
        ds = ds.push(tag);
        rs = rs.push(*report);
    }
    convert_value_list(reg, TypeKey::BlockName, &mut tag, "CanPlaceOn", from, to);
    proof {
        lemma_steps_push(regs, steps, item, ds, rs, tag, *report, from, to, fuel as nat);
        lemma_report_grows_trans(r0, rs.last(), *report);
        ds = ds.push(tag);
        rs = rs.push(*report);
    }
    let ghost t1 = tag;
    data.set_map("tag", tag);
    proof {
        lemma_replaced_at(dm@, tmid@, "tag"@, NbtValue::Compound(t1));
        assert(compound_of(t1) == NbtValue::Compound(t1));
        assert(map_of(dm@, "tag"@) == Some(t0));
        assert(steps_done(regs, steps, item, t0, t1, r0, *report, from, to, fuel as nat));
        assert(nested_done("tag"@, dm, *data, t1));
        assert(item_stack_walked_with(regs, item_steps(to), *old(data), *data, r0, *report, from, to, fuel as nat));
    }
}

/// The walker copies from each legacy block entity id to its new id.
pub open spec fn copy_registrations(n: int) -> Seq<Registration>
    decreases n,
{
    if n <= 0 {
        Seq::empty()
    } else {
        copy_registrations(n - 1).push(entry(
            TypeKey::TileEntity,
            VERSION,
            0,
            Action::CopyWalkers(tile_id_update_pairs()[n - 1].0, tile_id_update_pairs()[n - 1].1),
        ))
    }
}

/// What this version registers.
pub open spec fn registrations() -> Seq<Registration> {
    seq![entry(TypeKey::TileEntity, VERSION, 0, Action::Rename(RenameTable::V704TileIds))]
        + copy_registrations(tile_id_update_pairs().len() as int) + seq![
        entry(TypeKey::ItemStack, VERSION, 0, Action::WalkAll(Walker::Custom(CustomWalker::V704ItemStack))),
        entry(TypeKey::TileEntity, VERSION, 0, Action::Hook(Hook::NamespacedId("id"))),
    ]
}

/// Register this version's rename, walker copies, walker and hook.
pub fn register(reg: &mut RegistryBuilder)
    ensures
        final(reg).entries@ == old(reg).entries@ + registrations(),
{
    reg.add(TypeKey::TileEntity, VERSION, 0, Action::Rename(RenameTable::V704TileIds));
    let ghost r1 = reg.entries@;
    let table = tile_id_update();
    let mut i: usize = 0;
    while i < table.len()
        invariant
            i <= table@.len(),
            table@ == tile_id_update_pairs(),
            reg.entries@ == r1 + copy_registrations(i as int),
        decreases table@.len() - i,
    {
        let (old_id, new_id) = table[i];
        reg.add(TypeKey::TileEntity, VERSION, 0, Action::CopyWalkers(old_id, new_id));
        proof {
            assert(reg.entries@ =~= r1 + copy_registrations(i + 1));
        }
        i = i + 1;
    }
    reg.add(TypeKey::ItemStack, VERSION, 0, Action::WalkAll(Walker::Custom(CustomWalker::V704ItemStack)));
    reg.add(TypeKey::TileEntity, VERSION, 0, Action::Hook(enforce_namespaced_id_hook("id")));
    proof {
        assert(final(reg).entries@ =~= old(reg).entries@ + registrations());
    }
}

} // verus!
