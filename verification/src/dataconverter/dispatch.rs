//! The named converters, walkers and rename tables of every version, and
//! the functions that run or read one by name.

use vstd::prelude::*;
use crate::nbt::NbtMap;
use crate::loss::LossReport;
use super::registry::{at_path_converted, list_converted, report_grows, Registration, Registry, TypeKey};
use super::versions::{v99, v502, v700, v701, v702, v703, v704, v705, v804, v806, v808, v813, v820, v3825, v3828, v3833, v3938, v3945, v4054, v4055, v4059, v4064, v4067, v4068, v4070, v4081, v4173, v4175, v4176, v4181, v4187, v4290, v4291, v4292, v4293, v4294, v4296, v4299, v4300, v4301, v4302, v4303, v4305, v4306, v4307, v4314, v4420, v4421, v4424, v4439, v4533, v4535, v4541, v4649, v4763};

verus! {

/// Every converter a version registers, by name.
#[derive(Clone, Copy, Debug, PartialEq, Eq, Structural)]
pub enum Conv {
    V502ConvertZombie,
    V502RevertZombie,
    V700SplitGuardian,
    V700RestoreElder,
    V700RestoreNotElder,
    V701SplitSkeleton,
    V701MergeWitherSkeleton,
    V701MergeStray,
    V701RestoreSkeletonType,
    V702SplitZombie,
    V702MergeZombieVillager,
    V702MergeHusk,
    V702RestoreZombieType,
    V703SplitHorse,
    V703MergeHorse(i32),
    V804BaseToDamage,
    V804DamageToBase,
    V806DefaultPotion,
    V806StripDefaultPotion,
    V808DefaultColor,
    V808DropDefaultColor,
    V813ColourItem,
    V813RestoreColour(i32),
    V813DropColour,
    V813DefaultColour,
    V3825PromoteItemName,
    V3825DemoteItemName,
    V3825NameOminousBanner,
    V3825UnnameOminousBanner,
    V3825GatherSettings,
    V3825ScatterSettings,
    V3828DropEmptyBuyB,
    V3833DropEmptyItem,
    V3945ConvertItemModifiers,
    V3945RestoreItemModifiers,
    V3945ConvertEntityAttributes,
    V3945RestoreEntityAttributes,
    V3945CollapseJukebox,
    V3945ExpandJukebox,
    V4054MarkOminousBanner,
    V4054UnmarkOminousBanner,
    V4055RenameModifierTypes,
    V4055RestoreModifierTypes,
    V4055RenameAttributeIds,
    V4055RestoreAttributeIds,
    V4059FoodToConsumable,
    V4059ConsumableToFood,
    V4064FireToDamage,
    V4064DamageToFire,
    V4067ForceItemBoatType,
    V4067SplitBoatEntity,
    V4067MergeBoatEntity,
    V4068WrapItemLock,
    V4068UnwrapItemLock,
    V4068WrapBlockLock,
    V4068UnwrapBlockLock,
    V4081SizeSalmon,
    V4173RenameFuse,
    V4173RestoreFuse,
    V4175WrapModelData,
    V4175UnwrapModelData,
    V4176FixBlockEntityLock,
    V4176FixComponentLock,
    V4181ConvertFurnace,
    V4181RevertFurnace,
    V4187FollowRange48To16,
    V4187FollowRange16To48,
    V4187FollowRange16To12,
    V4187FollowRange12To16,
    V4187FollowRange16To24,
    V4187FollowRange24To16,
    V4291ParseFlags,
    V4291UnparseFlags,
    V4292ConvertComponent,
    V4292RevertComponent,
    V4293CollectDropChances,
    V4293SpreadDropChances,
    V4294ConvertActive,
    V4294RevertActive,
    V4296AddDurationScale,
    V4296DropDurationScale,
    V4299LiftMobData,
    V4299LowerMobData,
    V4300MoveSaddle,
    V4300RestoreSaddle,
    V4301FoldEquipment,
    V4301UnfoldEquipment,
    V4303WidenFallDistance,
    V4303NarrowFallDistance,
    V4305RenameMode,
    V4305RestoreMode,
    V4306SplitPotion,
    V4306MergePotion,
    V4307MigrateTooltips,
    V4307RestoreTooltips,
    V4314JoinSleeping,
    V4314SplitSleeping,
    V4314JoinVex,
    V4314SplitVex,
    V4314JoinPhantom,
    V4314SplitPhantom,
    V4314JoinTurtle,
    V4314SplitTurtle,
    V4314JoinTile,
    V4314SplitTile,
    V4420RenameParticle,
    V4420RestoreParticle,
    V4424AddDefaultStyle,
    V4424DropStyle,
    V4439DropZeroFallDistance,
    V4439RestoreFallDistance,
    V4535NameWeatherState,
    V4535NumberWeatherState,
    V4649SpearToTrident,
    V4649TridentToSpear,
    V4763Finalize,
    V4763Unfinalize,
}

/// Every walker a version writes out, by name.
#[derive(Clone, Copy, Debug, PartialEq, Eq, Structural)]
pub enum CustomWalker {
    V99EntityRiding,
    V99Spawner,
    V99LastOutput,
    V99Offers,
    V99Particle,
    V99Components,
    V99Sign,
    V99ItemStack,
    V99Structure,
    V99Trade,
    V702Offers,
    V704ItemStack,
    V705Particle,
    V705LastOutput,
    V705Spawner,
    V705Villager,
    V705Offers,
    V3825TrialSpawner,
    V3938InBlockState,
    V4059Components,
    V4290TextComponent,
    V4292TextComponent,
    V4300Nothing,
    V4301Equipment,
    V4302Data,
    V4302Errors,
    V4306Nothing,
    V4307Components,
    V4420Particle,
}

/// Every value-rename table a version registers, by name.
#[derive(Clone, Copy, Debug, PartialEq, Eq, Structural)]
pub enum RenameTable {
    V502Items,
    V704TileIds,
    V705EntityIds,
    V820Totem,
    V4541Chain,
}

/// The `(old, new)` pairs of the table named `t`.
pub open spec fn table_pairs(t: RenameTable) -> Seq<(&'static str, &'static str)> {
    match t {
        RenameTable::V502Items => v502::item_renames_pairs(),
        RenameTable::V704TileIds => v704::tile_id_update_pairs(),
        RenameTable::V705EntityIds => v705::entity_id_update_pairs(),
        RenameTable::V820Totem => v820::totem_renames_pairs(),
        RenameTable::V4541Chain => v4541::chain_renames_pairs(),
    }
}

/// The `(old, new)` pairs of the table named `t`.
pub fn rename_table(t: RenameTable) -> (r: &'static [(&'static str, &'static str)])
    ensures
        r@ == table_pairs(t),
{
    match t {
        RenameTable::V502Items => v502::item_renames(),
        RenameTable::V704TileIds => v704::tile_id_update(),
        RenameTable::V705EntityIds => v705::entity_id_update(),
        RenameTable::V820Totem => v820::totem_renames(),
        RenameTable::V4541Chain => v4541::chain_renames(),
    }
}

/// What the converter named `c` makes of the compound `d0` and the loss
/// report `r0`: the contract of that converter, with `d1` and `r1` its
/// results.
pub open spec fn conv_effect(c: Conv, d0: NbtMap, d1: NbtMap, r0: LossReport, r1: LossReport) -> bool {
    match c {
        Conv::V502ConvertZombie => v502::convert_zombie_effect(d0, d1) && r1 == r0,
        Conv::V502RevertZombie => v502::revert_zombie_effect(d0, d1, r0, r1),
        Conv::V700SplitGuardian => v700::split_guardian_effect(d0, d1) && r1 == r0,
        Conv::V700RestoreElder => v700::restore_elder_effect(d0, d1) && r1 == r0,
        Conv::V700RestoreNotElder => v700::restore_not_elder_effect(d0, d1) && r1 == r0,
        Conv::V701SplitSkeleton => v701::split_skeleton_effect(d0, d1) && r1 == r0,
        Conv::V701MergeWitherSkeleton => v701::merge_wither_skeleton_effect(d0, d1) && r1 == r0,
        Conv::V701MergeStray => v701::merge_stray_effect(d0, d1) && r1 == r0,
        Conv::V701RestoreSkeletonType => v701::restore_skeleton_type_effect(d0, d1) && r1 == r0,
        Conv::V702SplitZombie => v702::split_zombie_effect(d0, d1) && r1 == r0,
        Conv::V702MergeZombieVillager => v702::merge_zombie_villager_effect(d0, d1) && r1 == r0,
        Conv::V702MergeHusk => v702::merge_husk_effect(d0, d1) && r1 == r0,
        Conv::V702RestoreZombieType => v702::restore_zombie_type_effect(d0, d1) && r1 == r0,
        Conv::V703SplitHorse => v703::split_horse_effect(d0, d1) && r1 == r0,
        Conv::V703MergeHorse(t) => v703::merge_horse_effect(d0, d1, t) && r1 == r0,
        Conv::V804BaseToDamage => v804::base_to_damage_effect(d0, d1) && r1 == r0,
        Conv::V804DamageToBase => v804::damage_to_base_effect(d0, d1) && r1 == r0,
        Conv::V806DefaultPotion => v806::default_potion_effect(d0, d1) && r1 == r0,
        Conv::V806StripDefaultPotion => v806::strip_default_potion_effect(d0, d1, r0, r1),
        Conv::V808DefaultColor => v808::default_color_effect(d0, d1) && r1 == r0,
        Conv::V808DropDefaultColor => v808::drop_default_color_effect(d0, d1) && r1 == r0,
        Conv::V813ColourItem => v813::colour_item_effect(d0, d1) && r1 == r0,
        Conv::V813RestoreColour(color) => v813::restore_colour_effect(d0, d1, color) && r1 == r0,
        Conv::V813DropColour => v813::drop_colour_effect(d0, d1) && r1 == r0,
        Conv::V813DefaultColour => v813::default_colour_effect(d0, d1, r0, r1),
        Conv::V3825PromoteItemName => v3825::promote_item_name_effect(d0, d1) && r1 == r0,
        Conv::V3825DemoteItemName => v3825::demote_item_name_effect(d0, d1, r0, r1),
        Conv::V3825NameOminousBanner => v3825::name_ominous_banner_effect(d0, d1) && r1 == r0,
        Conv::V3825UnnameOminousBanner => v3825::unname_ominous_banner_effect(d0, d1, r0, r1),
        Conv::V3825GatherSettings => v3825::gather_settings_effect(d0, d1) && r1 == r0,
        Conv::V3825ScatterSettings => v3825::scatter_settings_effect(d0, d1) && r1 == r0,
        Conv::V3828DropEmptyBuyB => v3828::drop_empty_buy_b_effect(d0, d1) && r1 == r0,
        Conv::V3833DropEmptyItem => v3833::drop_empty_item_effect(d0, d1) && r1 == r0,
        Conv::V3945ConvertItemModifiers => v3945::convert_item_modifiers_effect(d0, d1) && r1 == r0,
        Conv::V3945RestoreItemModifiers => v3945::restore_item_modifiers_effect(d0, d1, r0, r1),
        Conv::V3945ConvertEntityAttributes => v3945::convert_entity_attributes_effect(d0, d1) && r1 == r0,
        Conv::V3945RestoreEntityAttributes => v3945::restore_entity_attributes_effect(d0, d1, r0, r1),
        Conv::V3945CollapseJukebox => v3945::collapse_jukebox_effect(d0, d1) && r1 == r0,
        Conv::V3945ExpandJukebox => v3945::expand_jukebox_effect(d0, d1, r0, r1),
        Conv::V4054MarkOminousBanner => v4054::mark_ominous_banner_effect(d0, d1) && r1 == r0,
        Conv::V4054UnmarkOminousBanner => v4054::unmark_ominous_banner_effect(d0, d1, r0, r1),
        Conv::V4055RenameModifierTypes => v4055::rename_modifier_types_effect(d0, d1) && r1 == r0,
        Conv::V4055RestoreModifierTypes => v4055::restore_modifier_types_effect(d0, d1, r0, r1),
        Conv::V4055RenameAttributeIds => v4055::rename_attribute_ids_effect(d0, d1) && r1 == r0,
        Conv::V4055RestoreAttributeIds => v4055::restore_attribute_ids_effect(d0, d1, r0, r1),
        Conv::V4059FoodToConsumable => v4059::food_to_consumable_effect(d0, d1) && r1 == r0,
        Conv::V4059ConsumableToFood => v4059::consumable_to_food_effect(d0, d1, r0, r1),
        Conv::V4064FireToDamage => v4064::fire_resistant_to_damage_resistant_effect(d0, d1) && r1 == r0,
        Conv::V4064DamageToFire => v4064::damage_resistant_to_fire_resistant_effect(d0, d1) && r1 == r0,
        Conv::V4067ForceItemBoatType => v4067::force_item_boat_type_effect(d0, d1) && r1 == r0,
        Conv::V4067SplitBoatEntity => v4067::split_boat_entity_effect(d0, d1) && r1 == r0,
        Conv::V4067MergeBoatEntity => v4067::merge_boat_entity_effect(d0, d1) && r1 == r0,
        Conv::V4068WrapItemLock => v4068::wrap_item_lock_effect(d0, d1) && r1 == r0,
        Conv::V4068UnwrapItemLock => v4068::unwrap_item_lock_effect(d0, d1, r0, r1),
        Conv::V4068WrapBlockLock => v4068::wrap_block_lock_effect(d0, d1) && r1 == r0,
        Conv::V4068UnwrapBlockLock => v4068::unwrap_block_lock_effect(d0, d1, r0, r1),
        Conv::V4081SizeSalmon => v4081::size_salmon_effect(d0, d1) && r1 == r0,
        Conv::V4173RenameFuse => v4173::rename_fuse_effect(d0, d1) && r1 == r0,
        Conv::V4173RestoreFuse => v4173::restore_fuse_effect(d0, d1) && r1 == r0,
        Conv::V4175WrapModelData => v4175::wrap_model_data_effect(d0, d1) && r1 == r0,
        Conv::V4175UnwrapModelData => v4175::unwrap_model_data_effect(d0, d1, r0, r1),
        Conv::V4176FixBlockEntityLock => v4176::fix_block_entity_lock_effect(d0, d1) && r1 == r0,
        Conv::V4176FixComponentLock => v4176::fix_component_lock_effect(d0, d1) && r1 == r0,
        Conv::V4181ConvertFurnace => v4181::convert_furnace_effect(d0, d1) && r1 == r0,
        Conv::V4181RevertFurnace => v4181::revert_furnace_effect(d0, d1, r0, r1),
        Conv::V4187FollowRange48To16 => v4187::follow_range_48_to_16_effect(d0, d1) && r1 == r0,
        Conv::V4187FollowRange16To48 => v4187::follow_range_16_to_48_effect(d0, d1, r0, r1),
        Conv::V4187FollowRange16To12 => v4187::follow_range_16_to_12_effect(d0, d1) && r1 == r0,
        Conv::V4187FollowRange12To16 => v4187::follow_range_12_to_16_effect(d0, d1, r0, r1),
        Conv::V4187FollowRange16To24 => v4187::follow_range_16_to_24_effect(d0, d1) && r1 == r0,
        Conv::V4187FollowRange24To16 => v4187::follow_range_24_to_16_effect(d0, d1, r0, r1),
        Conv::V4291ParseFlags => v4291::parse_flags_effect(d0, d1) && r1 == r0,
        Conv::V4291UnparseFlags => v4291::unparse_flags_effect(d0, d1) && r1 == r0,
        Conv::V4292ConvertComponent => v4292::convert_component_effect(d0, d1) && r1 == r0,
        Conv::V4292RevertComponent => v4292::convert_component_reverse_effect(d0, d1, r0, r1),
        Conv::V4293CollectDropChances => v4293::collect_drop_chances_effect(d0, d1) && r1 == r0,
        Conv::V4293SpreadDropChances => v4293::spread_drop_chances_effect(d0, d1) && r1 == r0,
        Conv::V4294ConvertActive => v4294::convert_active_effect(d0, d1) && r1 == r0,
        Conv::V4294RevertActive => v4294::revert_active_effect(d0, d1, r0, r1),
        Conv::V4296AddDurationScale => v4296::add_duration_scale_effect(d0, d1) && r1 == r0,
        Conv::V4296DropDurationScale => v4296::drop_duration_scale_effect(d0, d1) && r1 == r0,
        Conv::V4299LiftMobData => v4299::lift_mob_data_effect(d0, d1) && r1 == r0,
        Conv::V4299LowerMobData => v4299::lower_mob_data_effect(d0, d1) && r1 == r0,
        Conv::V4300MoveSaddle => v4300::move_saddle_effect(d0, d1) && r1 == r0,
        Conv::V4300RestoreSaddle => v4300::restore_saddle_effect(d0, d1, r0, r1),
        Conv::V4301FoldEquipment => v4301::fold_equipment_effect(d0, d1) && r1 == r0,
        Conv::V4301UnfoldEquipment => v4301::unfold_equipment_effect(d0, d1, r0, r1),
        Conv::V4303WidenFallDistance => v4303::widen_fall_distance_effect(d0, d1) && r1 == r0,
        Conv::V4303NarrowFallDistance => v4303::narrow_fall_distance_effect(d0, d1, r0, r1),
        Conv::V4305RenameMode => v4305::rename_mode_effect(d0, d1) && r1 == r0,
        Conv::V4305RestoreMode => v4305::restore_mode_effect(d0, d1) && r1 == r0,
        Conv::V4306SplitPotion => v4306::split_potion_effect(d0, d1) && r1 == r0,
        Conv::V4306MergePotion => v4306::merge_potion_effect(d0, d1) && r1 == r0,
        Conv::V4307MigrateTooltips => v4307::migrate_tooltips_effect(d0, d1) && r1 == r0,
        Conv::V4307RestoreTooltips => v4307::restore_tooltips_effect(d0, d1, r0, r1),
        Conv::V4314JoinSleeping => v4314::join_sleeping_effect(d0, d1) && r1 == r0,
        Conv::V4314SplitSleeping => v4314::split_sleeping_effect(d0, d1) && r1 == r0,
        Conv::V4314JoinVex => v4314::join_vex_effect(d0, d1) && r1 == r0,
        Conv::V4314SplitVex => v4314::split_vex_effect(d0, d1) && r1 == r0,
        Conv::V4314JoinPhantom => v4314::join_phantom_effect(d0, d1) && r1 == r0,
        Conv::V4314SplitPhantom => v4314::split_phantom_effect(d0, d1) && r1 == r0,
        Conv::V4314JoinTurtle => v4314::join_turtle_effect(d0, d1) && r1 == r0,
        Conv::V4314SplitTurtle => v4314::split_turtle_effect(d0, d1, r0, r1),
        Conv::V4314JoinTile => v4314::join_tile_effect(d0, d1) && r1 == r0,
        Conv::V4314SplitTile => v4314::split_tile_effect(d0, d1) && r1 == r0,
        Conv::V4420RenameParticle => v4420::rename_particle_effect(d0, d1) && r1 == r0,
        Conv::V4420RestoreParticle => v4420::restore_particle_effect(d0, d1) && r1 == r0,
        Conv::V4424AddDefaultStyle => v4424::add_default_style_effect(d0, d1) && r1 == r0,
        Conv::V4424DropStyle => v4424::drop_style_effect(d0, d1, r0, r1),
        Conv::V4439DropZeroFallDistance => v4439::drop_zero_fall_distance_effect(d0, d1) && r1 == r0,
        Conv::V4439RestoreFallDistance => v4439::restore_fall_distance_effect(d0, d1) && r1 == r0,
        Conv::V4535NameWeatherState => v4535::name_weather_state_effect(d0, d1) && r1 == r0,
        Conv::V4535NumberWeatherState => v4535::number_weather_state_effect(d0, d1, r0, r1),
        Conv::V4649SpearToTrident => v4649::spear_to_trident_effect(d0, d1) && r1 == r0,
        Conv::V4649TridentToSpear => v4649::trident_to_spear_effect(d0, d1) && r1 == r0,
        Conv::V4763Finalize => v4763::finalize_effect(d0, d1) && r1 == r0,
        Conv::V4763Unfinalize => v4763::unfinalize_effect(d0, d1) && r1 == r0,
    }
}

/// Run the converter named `c` on `data`.
pub fn apply_conv(c: Conv, data: &mut NbtMap, from: i32, to: i32, report: &mut LossReport)
    ensures
        report_grows(*old(report), *final(report)),
        conv_effect(c, *old(data), *final(data), *old(report), *final(report)),
{
    match c {
        Conv::V502ConvertZombie => {
            v502::convert_zombie(data);
        },
        Conv::V502RevertZombie => {
            v502::revert_zombie(data, report);
        },
        Conv::V700SplitGuardian => {
            v700::split_guardian(data);
        },
        Conv::V700RestoreElder => {
            v700::restore_elder(data);
        },
        Conv::V700RestoreNotElder => {
            v700::restore_not_elder(data);
        },
        Conv::V701SplitSkeleton => {
            v701::split_skeleton(data);
        },
        Conv::V701MergeWitherSkeleton => {
            v701::merge_wither_skeleton(data);
        },
        Conv::V701MergeStray => {
            v701::merge_stray(data);
        },
        Conv::V701RestoreSkeletonType => {
            v701::restore_skeleton_type(data);
        },
        Conv::V702SplitZombie => {
            v702::split_zombie(data);
        },
        Conv::V702MergeZombieVillager => {
            v702::merge_zombie_villager(data);
        },
        Conv::V702MergeHusk => {
            v702::merge_husk(data);
        },
        Conv::V702RestoreZombieType => {
            v702::restore_zombie_type(data);
        },
        Conv::V703SplitHorse => {
            v703::split_horse(data);
        },
        Conv::V703MergeHorse(t) => {
            v703::merge_horse(data, t);
        },
        Conv::V804BaseToDamage => {
            v804::base_to_damage(data);
        },
        Conv::V804DamageToBase => {
            v804::damage_to_base(data);
        },
        Conv::V806DefaultPotion => {
            v806::default_potion(data);
        },
        Conv::V806StripDefaultPotion => {
            v806::strip_default_potion(data, report);
        },
        Conv::V808DefaultColor => {
            v808::default_color(data);
        },
        Conv::V808DropDefaultColor => {
            v808::drop_default_color(data);
        },
        Conv::V813ColourItem => {
            v813::colour_item(data);
        },
        Conv::V813RestoreColour(color) => {
            v813::restore_colour(data, color);
        },
        Conv::V813DropColour => {
            v813::drop_colour(data);
        },
        Conv::V813DefaultColour => {
            v813::default_colour(data, report);
        },
        Conv::V3825PromoteItemName => {
            v3825::promote_item_name(data);
        },
        Conv::V3825DemoteItemName => {
            v3825::demote_item_name(data, report);
        },
        Conv::V3825NameOminousBanner => {
            v3825::name_ominous_banner(data);
        },
        Conv::V3825UnnameOminousBanner => {
            v3825::unname_ominous_banner(data, report);
        },
        Conv::V3825GatherSettings => {
            v3825::gather_settings(data);
        },
        Conv::V3825ScatterSettings => {
            v3825::scatter_settings(data);
        },
        Conv::V3828DropEmptyBuyB => {
            v3828::drop_empty_buy_b(data);
        },
        Conv::V3833DropEmptyItem => {
            v3833::drop_empty_item(data);
        },
        Conv::V3945ConvertItemModifiers => {
            v3945::convert_item_modifiers(data);
        },
        Conv::V3945RestoreItemModifiers => {
            v3945::restore_item_modifiers(data, report);
        },
        Conv::V3945ConvertEntityAttributes => {
            v3945::convert_entity_attributes(data);
        },
        Conv::V3945RestoreEntityAttributes => {
            v3945::restore_entity_attributes(data, report);
        },
        Conv::V3945CollapseJukebox => {
            v3945::collapse_jukebox(data);
        },
        Conv::V3945ExpandJukebox => {
            v3945::expand_jukebox(data, report);
        },
        Conv::V4054MarkOminousBanner => {
            v4054::mark_ominous_banner(data);
        },
        Conv::V4054UnmarkOminousBanner => {
            v4054::unmark_ominous_banner(data, report);
        },
        Conv::V4055RenameModifierTypes => {
            v4055::rename_modifier_types(data);
        },
        Conv::V4055RestoreModifierTypes => {
            v4055::restore_modifier_types(data, report);
        },
        Conv::V4055RenameAttributeIds => {
            v4055::rename_attribute_ids(data);
        },
        Conv::V4055RestoreAttributeIds => {
            v4055::restore_attribute_ids(data, report);
        },
        Conv::V4059FoodToConsumable => {
            v4059::food_to_consumable(data);
        },
        Conv::V4059ConsumableToFood => {
            v4059::consumable_to_food(data, report);
        },
        Conv::V4064FireToDamage => {
            v4064::fire_resistant_to_damage_resistant(data);
        },
        Conv::V4064DamageToFire => {
            v4064::damage_resistant_to_fire_resistant(data);
        },
        Conv::V4067ForceItemBoatType => {
            v4067::force_item_boat_type(data);
        },
        Conv::V4067SplitBoatEntity => {
            v4067::split_boat_entity(data);
        },
        Conv::V4067MergeBoatEntity => {
            v4067::merge_boat_entity(data);
        },
        Conv::V4068WrapItemLock => {
            v4068::wrap_item_lock(data);
        },
        Conv::V4068UnwrapItemLock => {
            v4068::unwrap_item_lock(data, report);
        },
        Conv::V4068WrapBlockLock => {
            v4068::wrap_block_lock(data);
        },
        Conv::V4068UnwrapBlockLock => {
            v4068::unwrap_block_lock(data, report);
        },
        Conv::V4081SizeSalmon => {
            v4081::size_salmon(data);
        },
        Conv::V4173RenameFuse => {
            v4173::rename_fuse(data);
        },
        Conv::V4173RestoreFuse => {
            v4173::restore_fuse(data);
        },
        Conv::V4175WrapModelData => {
            v4175::wrap_model_data(data);
        },
        Conv::V4175UnwrapModelData => {
            v4175::unwrap_model_data(data, report);
        },
        Conv::V4176FixBlockEntityLock => {
            v4176::fix_block_entity_lock(data);
        },
        Conv::V4176FixComponentLock => {
            v4176::fix_component_lock(data);
        },
        Conv::V4181ConvertFurnace => {
            v4181::convert_furnace(data);
        },
        Conv::V4181RevertFurnace => {
            v4181::revert_furnace(data, report);
        },
        Conv::V4187FollowRange48To16 => {
            v4187::follow_range_48_to_16(data);
        },
        Conv::V4187FollowRange16To48 => {
            v4187::follow_range_16_to_48(data, report);
        },
        Conv::V4187FollowRange16To12 => {
            v4187::follow_range_16_to_12(data);
        },
        Conv::V4187FollowRange12To16 => {
            v4187::follow_range_12_to_16(data, report);
        },
        Conv::V4187FollowRange16To24 => {
            v4187::follow_range_16_to_24(data);
        },
        Conv::V4187FollowRange24To16 => {
            v4187::follow_range_24_to_16(data, report);
        },
        Conv::V4291ParseFlags => {
            v4291::parse_flags(data);
        },
        Conv::V4291UnparseFlags => {
            v4291::unparse_flags(data);
        },
        Conv::V4292ConvertComponent => {
            v4292::convert_component(data);
        },
        Conv::V4292RevertComponent => {
            v4292::convert_component_reverse(data, report);
        },
        Conv::V4293CollectDropChances => {
            v4293::collect_drop_chances(data);
        },
        Conv::V4293SpreadDropChances => {
            v4293::spread_drop_chances(data);
        },
        Conv::V4294ConvertActive => {
            v4294::convert_active(data);
        },
        Conv::V4294RevertActive => {
            v4294::revert_active(data, report);
        },
        Conv::V4296AddDurationScale => {
            v4296::add_duration_scale(data);
        },
        Conv::V4296DropDurationScale => {
            v4296::drop_duration_scale(data);
        },
        Conv::V4299LiftMobData => {
            v4299::lift_mob_data(data);
        },
        Conv::V4299LowerMobData => {
            v4299::lower_mob_data(data);
        },
        Conv::V4300MoveSaddle => {
            v4300::move_saddle(data);
        },
        Conv::V4300RestoreSaddle => {
            v4300::restore_saddle(data, report);
        },
        Conv::V4301FoldEquipment => {
            v4301::fold_equipment(data);
        },
        Conv::V4301UnfoldEquipment => {
            v4301::unfold_equipment(data, report);
        },
        Conv::V4303WidenFallDistance => {
            v4303::widen_fall_distance(data);
        },
        Conv::V4303NarrowFallDistance => {
            v4303::narrow_fall_distance(data, report);
        },
        Conv::V4305RenameMode => {
            v4305::rename_mode(data);
        },
        Conv::V4305RestoreMode => {
            v4305::restore_mode(data);
        },
        Conv::V4306SplitPotion => {
            v4306::split_potion(data);
        },
        Conv::V4306MergePotion => {
            v4306::merge_potion(data);
        },
        Conv::V4307MigrateTooltips => {
            v4307::migrate_tooltips(data);
        },
        Conv::V4307RestoreTooltips => {
            v4307::restore_tooltips(data, report);
        },
        Conv::V4314JoinSleeping => {
            v4314::join_sleeping(data);
        },
        Conv::V4314SplitSleeping => {
            v4314::split_sleeping(data);
        },
        Conv::V4314JoinVex => {
            v4314::join_vex(data);
        },
        Conv::V4314SplitVex => {
            v4314::split_vex(data);
        },
        Conv::V4314JoinPhantom => {
            v4314::join_phantom(data);
        },
        Conv::V4314SplitPhantom => {
            v4314::split_phantom(data);
        },
        Conv::V4314JoinTurtle => {
            v4314::join_turtle(data);
        },
        Conv::V4314SplitTurtle => {
            v4314::split_turtle(data, report);
        },
        Conv::V4314JoinTile => {
            v4314::join_tile(data);
        },
        Conv::V4314SplitTile => {
            v4314::split_tile(data);
        },
        Conv::V4420RenameParticle => {
            v4420::rename_particle(data);
        },
        Conv::V4420RestoreParticle => {
            v4420::restore_particle(data);
        },
        Conv::V4424AddDefaultStyle => {
            v4424::add_default_style(data);
        },
        Conv::V4424DropStyle => {
            v4424::drop_style(data, report);
        },
        Conv::V4439DropZeroFallDistance => {
            v4439::drop_zero_fall_distance(data);
        },
        Conv::V4439RestoreFallDistance => {
            v4439::restore_fall_distance(data);
        },
        Conv::V4535NameWeatherState => {
            v4535::name_weather_state(data);
        },
        Conv::V4535NumberWeatherState => {
            v4535::number_weather_state(data, report);
        },
        Conv::V4649SpearToTrident => {
            v4649::spear_to_trident(data);
        },
        Conv::V4649TridentToSpear => {
            v4649::trident_to_spear(data);
        },
        Conv::V4763Finalize => {
            v4763::finalize(data);
        },
        Conv::V4763Unfinalize => {
            v4763::unfinalize(data);
        },
    }
}

/// What the walker named `w` makes of the compound `d0` and the report
/// `r0`: the contract of that walker, with `d1` and `r1` its results.
pub open spec fn custom_walked(e: Seq<Registration>, w: CustomWalker, d0: NbtMap, d1: NbtMap, r0: LossReport, r1: LossReport, from: i32, to: i32, fuel: nat) -> bool
    decreases fuel, 13int, 0int,
{
    match w {
        CustomWalker::V99EntityRiding => v99::entity_walked(e, d0, d1, r0, r1, from, to, fuel),
        CustomWalker::V99Spawner => v99::spawner_walked(e, d0, d1, r0, r1, from, to, fuel),
        CustomWalker::V99LastOutput => v99::last_output_walked(e, d0, d1, r0, r1, from, to, fuel),
        CustomWalker::V99Offers => v99::offers_walked(e, d0, d1, r0, r1, from, to, fuel),
        CustomWalker::V99Particle => v99::particle_walked(e, d0, d1, r0, r1, from, to, fuel),
        CustomWalker::V99Components => v99::block_entity_walked(e, d0, d1, r0, r1, from, to, fuel),
        CustomWalker::V99Sign => v99::sign_walked(e, d0, d1, r0, r1, from, to, fuel),
        CustomWalker::V99ItemStack => v99::item_stack_walked(e, d0, d1, r0, r1, from, to, fuel),
        CustomWalker::V99Structure => v99::structure_walked(e, d0, d1, r0, r1, from, to, fuel),
        CustomWalker::V99Trade => v99::trade_walked(e, d0, d1, r0, r1, from, to, fuel),
        CustomWalker::V702Offers => v99::offers_walked(e, d0, d1, r0, r1, from, to, fuel),
        CustomWalker::V704ItemStack => v704::item_stack_walked(e, d0, d1, r0, r1, from, to, fuel),
        CustomWalker::V705Particle => v99::particle_walked(e, d0, d1, r0, r1, from, to, fuel),
        CustomWalker::V705LastOutput => v99::last_output_walked(e, d0, d1, r0, r1, from, to, fuel),
        CustomWalker::V705Spawner => v99::spawner_walked(e, d0, d1, r0, r1, from, to, fuel),
        CustomWalker::V705Villager => v705::villager_walked(e, d0, d1, r0, r1, from, to, fuel),
        CustomWalker::V705Offers => v99::offers_walked(e, d0, d1, r0, r1, from, to, fuel),
        CustomWalker::V3825TrialSpawner => v3825::trial_spawner_walked(e, d0, d1, r0, r1, from, to, fuel),
        CustomWalker::V3938InBlockState => at_path_converted(e, TypeKey::BlockState, "inBlockState"@, d0, d1, r0, r1, from, to, fuel),
        CustomWalker::V4059Components => v4059::components_walked(e, false, d0, d1, r0, r1, from, to, fuel),
        CustomWalker::V4290TextComponent => v4290::text_walked(e, d0, d1, r0, r1, from, to, fuel),
        CustomWalker::V4292TextComponent => v4292::text_walked(e, d0, d1, r0, r1, from, to, fuel),
        CustomWalker::V4300Nothing => d1@ == d0@ && r1 == r0,
        CustomWalker::V4301Equipment => v4301::equipment_walked(e, d0, d1, r0, r1, from, to, fuel),
        CustomWalker::V4302Data => at_path_converted(e, TypeKey::TextComponent, "data"@, d0, d1, r0, r1, from, to, fuel),
        CustomWalker::V4302Errors => list_converted(e, TypeKey::TextComponent, "errors"@, d0, d1, r0, r1, from, to, fuel),
        CustomWalker::V4306Nothing => d1@ == d0@ && r1 == r0,
        CustomWalker::V4307Components => v4059::components_walked(e, true, d0, d1, r0, r1, from, to, fuel),
        CustomWalker::V4420Particle => at_path_converted(e, TypeKey::Particle, "custom_particle"@, d0, d1, r0, r1, from, to, fuel),
    }
}

/// Run the walker named `w` over `data`.
pub fn apply_custom_walker(reg: &Registry, w: CustomWalker, data: &mut NbtMap, from: i32, to: i32, report: &mut LossReport, fuel: u32)
    requires
        fuel > 0,
    ensures
        report_grows(*old(report), *final(report)),
        custom_walked(reg.entries@, w, *old(data), *final(data), *old(report), *final(report), from, to, fuel as nat),
    decreases fuel, 4int,
{
    match w {
        CustomWalker::V99EntityRiding => {
            v99::walk_entity(reg, data, from, to, report, fuel);
        },
        CustomWalker::V99Spawner => {
            v99::walk_spawner(reg, data, from, to, report, fuel);
        },
        CustomWalker::V99LastOutput => {
            v99::walk_last_output(reg, data, from, to, report, fuel);
        },
        CustomWalker::V99Offers => {
            v99::walk_offers(reg, data, from, to, report, fuel);
        },
        CustomWalker::V99Particle => {
            v99::walk_particle(reg, data, from, to, report, fuel);
        },
        CustomWalker::V99Components => {
            v99::walk_block_entity(reg, data, from, to, report, fuel);
        },
        CustomWalker::V99Sign => {
            v99::walk_sign(reg, data, from, to, report, fuel);
        },
        CustomWalker::V99ItemStack => {
            v99::walk_item_stack(reg, data, from, to, report, fuel);
        },
        CustomWalker::V99Structure => {
            v99::walk_structure(reg, data, from, to, report, fuel);
        },
        CustomWalker::V99Trade => {
            v99::walk_trade(reg, data, from, to, report, fuel);
        },
        CustomWalker::V702Offers => {
            v702::walk_offers(reg, data, from, to, report, fuel);
        },
        CustomWalker::V704ItemStack => {
            v704::walk_item_stack(reg, data, from, to, report, fuel);
        },
        CustomWalker::V705Particle => {
            v705::walk_particle(reg, data, from, to, report, fuel);
        },
        CustomWalker::V705LastOutput => {
            v705::walk_last_output(reg, data, from, to, report, fuel);
        },
        CustomWalker::V705Spawner => {
            v705::walk_spawner(reg, data, from, to, report, fuel);
        },
        CustomWalker::V705Villager => {
            v705::walk_villager(reg, data, from, to, report, fuel);
        },
        CustomWalker::V705Offers => {
            v705::walk_offers(reg, data, from, to, report, fuel);
        },
        CustomWalker::V3825TrialSpawner => {
            v3825::walk_trial_spawner(reg, data, from, to, report, fuel);
        },
        CustomWalker::V3938InBlockState => {
            v3938::walk_in_block_state(reg, data, from, to, report, fuel);
        },
        CustomWalker::V4059Components => {
            v4059::walk_components(reg, data, from, to, report, fuel);
        },
        CustomWalker::V4290TextComponent => {
            v4290::walk_text_component(reg, data, from, to, report, fuel);
        },
        CustomWalker::V4292TextComponent => {
            v4292::walk_text_component(reg, data, from, to, report, fuel);
        },
        CustomWalker::V4300Nothing => {
            v4300::walk_nothing(data, report);
        },
        CustomWalker::V4301Equipment => {
            v4301::walk_equipment(reg, data, from, to, report, fuel);
        },
        CustomWalker::V4302Data => {
            v4302::walk_data(reg, data, from, to, report, fuel);
        },
        CustomWalker::V4302Errors => {
            v4302::walk_errors(reg, data, from, to, report, fuel);
        },
        CustomWalker::V4306Nothing => {
            v4306::walk_nothing(reg, data, from, to, report, fuel);
        },
        CustomWalker::V4307Components => {
            v4307::walk_components(reg, data, from, to, report, fuel);
        },
        CustomWalker::V4420Particle => {
            v4420::walk_particle(reg, data, from, to, report, fuel);
        },
    }
}

} // verus!
