//! V705: legacy entity ids become namespaced (`Pig` becomes
//! `minecraft:pig`), for entity names and entity `id`s alike, and the
//! entity walkers are registered again under the new ids. Entity ids are
//! namespaced from here on.

use vstd::prelude::*;
use super::super::registry::{state_pair};
use crate::nbt::{NbtMap, NbtValue};
use crate::loss::LossReport;
use super::super::helpers::{enforce_namespaced_id_hook, enforce_namespaced_value_hook, map_renamer, register_entity_rename, rename_entries};
use super::super::registry::{convert_map, entry, lemma_report_grows_trans, report_grows, Action, Hook, Registration, Registry, RegistryBuilder, TypeKey, Walker};
use super::super::dispatch::{CustomWalker, RenameTable};
use super::super::walker::{block_names, convert, convert_list, item_lists, items, tile_entities, lemma_replaced_at};
use super::super::registry::{compound_of, list_converted, map_converted};
use super::v99::{last_output_walked, offers_walked, particle_walked, spawner_walked};

verus! {

/// This version.
pub const VERSION: i32 = 705;

/// The `(legacy, namespaced)` entity ids.
pub open spec fn entity_id_update_pairs() -> Seq<(&'static str, &'static str)> {
    seq![
        ("AreaEffectCloud", "minecraft:area_effect_cloud"),
        ("ArmorStand", "minecraft:armor_stand"),
        ("Arrow", "minecraft:arrow"),
        ("Bat", "minecraft:bat"),
        ("Blaze", "minecraft:blaze"),
        ("Boat", "minecraft:boat"),
        ("CaveSpider", "minecraft:cave_spider"),
        ("Chicken", "minecraft:chicken"),
        ("Cow", "minecraft:cow"),
        ("Creeper", "minecraft:creeper"),
        ("Donkey", "minecraft:donkey"),
        ("DragonFireball", "minecraft:dragon_fireball"),
        ("ElderGuardian", "minecraft:elder_guardian"),
        ("EnderCrystal", "minecraft:ender_crystal"),
        ("EnderDragon", "minecraft:ender_dragon"),
        ("Enderman", "minecraft:enderman"),
        ("Endermite", "minecraft:endermite"),
        ("EyeOfEnderSignal", "minecraft:eye_of_ender_signal"),
        ("FallingSand", "minecraft:falling_block"),
        ("Fireball", "minecraft:fireball"),
        ("FireworksRocketEntity", "minecraft:fireworks_rocket"),
        ("Ghast", "minecraft:ghast"),
        ("Giant", "minecraft:giant"),
        ("Guardian", "minecraft:guardian"),
        ("Horse", "minecraft:horse"),
        ("Husk", "minecraft:husk"),
        ("Item", "minecraft:item"),
        ("ItemFrame", "minecraft:item_frame"),
        ("LavaSlime", "minecraft:magma_cube"),
        ("LeashKnot", "minecraft:leash_knot"),
        ("MinecartChest", "minecraft:chest_minecart"),
        ("MinecartCommandBlock", "minecraft:commandblock_minecart"),
        ("MinecartFurnace", "minecraft:furnace_minecart"),
        ("MinecartHopper", "minecraft:hopper_minecart"),
        ("MinecartRideable", "minecraft:minecart"),
        ("MinecartSpawner", "minecraft:spawner_minecart"),
        ("MinecartTNT", "minecraft:tnt_minecart"),
        ("Mule", "minecraft:mule"),
        ("MushroomCow", "minecraft:mooshroom"),
        ("Ozelot", "minecraft:ocelot"),
        ("Painting", "minecraft:painting"),
        ("Pig", "minecraft:pig"),
        ("PigZombie", "minecraft:zombie_pigman"),
        ("PolarBear", "minecraft:polar_bear"),
        ("PrimedTnt", "minecraft:tnt"),
        ("Rabbit", "minecraft:rabbit"),
        ("Sheep", "minecraft:sheep"),
        ("Shulker", "minecraft:shulker"),
        ("ShulkerBullet", "minecraft:shulker_bullet"),
        ("Silverfish", "minecraft:silverfish"),
        ("Skeleton", "minecraft:skeleton"),
        ("SkeletonHorse", "minecraft:skeleton_horse"),
        ("Slime", "minecraft:slime"),
        ("SmallFireball", "minecraft:small_fireball"),
        ("SnowMan", "minecraft:snowman"),
        ("Snowball", "minecraft:snowball"),
        ("SpectralArrow", "minecraft:spectral_arrow"),
        ("Spider", "minecraft:spider"),
        ("Squid", "minecraft:squid"),
        ("Stray", "minecraft:stray"),
        ("ThrownEgg", "minecraft:egg"),
        ("ThrownEnderpearl", "minecraft:ender_pearl"),
        ("ThrownExpBottle", "minecraft:xp_bottle"),
        ("ThrownPotion", "minecraft:potion"),
        ("Villager", "minecraft:villager"),
        ("VillagerGolem", "minecraft:villager_golem"),
        ("Witch", "minecraft:witch"),
        ("WitherBoss", "minecraft:wither"),
        ("WitherSkeleton", "minecraft:wither_skeleton"),
        ("WitherSkull", "minecraft:wither_skull"),
        ("Wolf", "minecraft:wolf"),
        ("XPOrb", "minecraft:xp_orb"),
        ("Zombie", "minecraft:zombie"),
        ("ZombieHorse", "minecraft:zombie_horse"),
        ("ZombieVillager", "minecraft:zombie_villager")
    ]
}

/// The `(legacy, namespaced)` entity ids.
pub fn entity_id_update() -> (t: &'static [(&'static str, &'static str)])
    ensures
        t@ == entity_id_update_pairs(),
{
    &[
        ("AreaEffectCloud", "minecraft:area_effect_cloud"),
        ("ArmorStand", "minecraft:armor_stand"),
        ("Arrow", "minecraft:arrow"),
        ("Bat", "minecraft:bat"),
        ("Blaze", "minecraft:blaze"),
        ("Boat", "minecraft:boat"),
        ("CaveSpider", "minecraft:cave_spider"),
        ("Chicken", "minecraft:chicken"),
        ("Cow", "minecraft:cow"),
        ("Creeper", "minecraft:creeper"),
        ("Donkey", "minecraft:donkey"),
        ("DragonFireball", "minecraft:dragon_fireball"),
        ("ElderGuardian", "minecraft:elder_guardian"),
        ("EnderCrystal", "minecraft:ender_crystal"),
        ("EnderDragon", "minecraft:ender_dragon"),
        ("Enderman", "minecraft:enderman"),
        ("Endermite", "minecraft:endermite"),
        ("EyeOfEnderSignal", "minecraft:eye_of_ender_signal"),
        ("FallingSand", "minecraft:falling_block"),
        ("Fireball", "minecraft:fireball"),
        ("FireworksRocketEntity", "minecraft:fireworks_rocket"),
        ("Ghast", "minecraft:ghast"),
        ("Giant", "minecraft:giant"),
        ("Guardian", "minecraft:guardian"),
        ("Horse", "minecraft:horse"),
        ("Husk", "minecraft:husk"),
        ("Item", "minecraft:item"),
        ("ItemFrame", "minecraft:item_frame"),
        ("LavaSlime", "minecraft:magma_cube"),
        ("LeashKnot", "minecraft:leash_knot"),
        ("MinecartChest", "minecraft:chest_minecart"),
        ("MinecartCommandBlock", "minecraft:commandblock_minecart"),
        ("MinecartFurnace", "minecraft:furnace_minecart"),
        ("MinecartHopper", "minecraft:hopper_minecart"),
        ("MinecartRideable", "minecraft:minecart"),
        ("MinecartSpawner", "minecraft:spawner_minecart"),
        ("MinecartTNT", "minecraft:tnt_minecart"),
        ("Mule", "minecraft:mule"),
        ("MushroomCow", "minecraft:mooshroom"),
        ("Ozelot", "minecraft:ocelot"),
        ("Painting", "minecraft:painting"),
        ("Pig", "minecraft:pig"),
        ("PigZombie", "minecraft:zombie_pigman"),
        ("PolarBear", "minecraft:polar_bear"),
        ("PrimedTnt", "minecraft:tnt"),
        ("Rabbit", "minecraft:rabbit"),
        ("Sheep", "minecraft:sheep"),
        ("Shulker", "minecraft:shulker"),
        ("ShulkerBullet", "minecraft:shulker_bullet"),
        ("Silverfish", "minecraft:silverfish"),
        ("Skeleton", "minecraft:skeleton"),
        ("SkeletonHorse", "minecraft:skeleton_horse"),
        ("Slime", "minecraft:slime"),
        ("SmallFireball", "minecraft:small_fireball"),
        ("SnowMan", "minecraft:snowman"),
        ("Snowball", "minecraft:snowball"),
        ("SpectralArrow", "minecraft:spectral_arrow"),
        ("Spider", "minecraft:spider"),
        ("Squid", "minecraft:squid"),
        ("Stray", "minecraft:stray"),
        ("ThrownEgg", "minecraft:egg"),
        ("ThrownEnderpearl", "minecraft:ender_pearl"),
        ("ThrownExpBottle", "minecraft:xp_bottle"),
        ("ThrownPotion", "minecraft:potion"),
        ("Villager", "minecraft:villager"),
        ("VillagerGolem", "minecraft:villager_golem"),
        ("Witch", "minecraft:witch"),
        ("WitherBoss", "minecraft:wither"),
        ("WitherSkeleton", "minecraft:wither_skeleton"),
        ("WitherSkull", "minecraft:wither_skull"),
        ("Wolf", "minecraft:wolf"),
        ("XPOrb", "minecraft:xp_orb"),
        ("Zombie", "minecraft:zombie"),
        ("ZombieHorse", "minecraft:zombie_horse"),
        ("ZombieVillager", "minecraft:zombie_villager")
    ]
}

/// The area effect cloud walker: `Particle` is a particle.
pub fn walk_particle(reg: &Registry, data: &mut NbtMap, from: i32, to: i32, report: &mut LossReport, fuel: u32)
    requires
        fuel > 0,
    ensures
        report_grows(*old(report), *final(report)),
        particle_walked(reg.entries@, *old(data), *final(data), *old(report), *final(report), from, to, fuel as nat),
    decreases fuel, 3int,
{
    convert(reg, TypeKey::Particle, data, "Particle", from, to, report, fuel);
}

/// The command block minecart walker: `LastOutput` is a text component.
pub fn walk_last_output(reg: &Registry, data: &mut NbtMap, from: i32, to: i32, report: &mut LossReport, fuel: u32)
    requires
        fuel > 0,
    ensures
        report_grows(*old(report), *final(report)),
        last_output_walked(reg.entries@, *old(data), *final(data), *old(report), *final(report), from, to, fuel as nat),
    decreases fuel, 3int,
{
    convert(reg, TypeKey::TextComponent, data, "LastOutput", from, to, report, fuel);
}

/// The spawner minecart walker: the data is an untagged spawner itself.
pub fn walk_spawner(reg: &Registry, data: &mut NbtMap, from: i32, to: i32, report: &mut LossReport, fuel: u32)
    requires
        fuel > 0,
    ensures
        report_grows(*old(report), *final(report)),
        spawner_walked(reg.entries@, *old(data), *final(data), *old(report), *final(report), from, to, fuel as nat),
    decreases fuel, 3int,
{
    convert_map(reg, TypeKey::UntaggedSpawner, data, from, to, report, fuel - 1);
    proof {
        assert(map_converted(reg.entries@, TypeKey::UntaggedSpawner, *old(data), *data, *old(report), *report, from, to, ((fuel as nat) - 1) as nat));
    }
}

/// The trade offers walker: `Offers.Recipes` is a list of trades.
pub fn walk_offers(reg: &Registry, data: &mut NbtMap, from: i32, to: i32, report: &mut LossReport, fuel: u32)
    requires
        fuel > 0,
    ensures
        report_grows(*old(report), *final(report)),
        offers_walked(reg.entries@, *old(data), *final(data), *old(report), *final(report), from, to, fuel as nat),
    decreases fuel, 2int,
{
    match data.take_map("Offers") {
        Some(mut offers) => {
            let ghost mid = *data;
            let ghost o0 = offers;
            convert_list(reg, TypeKey::VillagerTrade, &mut offers, "Recipes", from, to, report, fuel);
            data.set_map("Offers", offers);
            proof {
                lemma_replaced_at(old(data)@, mid@, "Offers"@, NbtValue::Compound(offers));
                assert(compound_of(offers) == NbtValue::Compound(offers));
                assert(list_converted(reg.entries@, TypeKey::VillagerTrade, "Recipes"@, o0, offers, *old(report), *report, from, to, fuel as nat));
            }
        },
        None => {},
    }
}

/// What the villager walker makes of a villager: its `Inventory` converted
/// as item stacks, then its trade offers.
pub open spec fn villager_walked(e: Seq<Registration>, d0: NbtMap, d1: NbtMap, r0: LossReport, r1: LossReport, from: i32, to: i32, fuel: nat) -> bool
    decreases fuel, 9int, 0int,
{
    exists|dm: NbtMap, rm: LossReport| #![trigger state_pair(dm, rm)]
        state_pair(dm, rm) == (dm, rm) && list_converted(e, TypeKey::ItemStack, "Inventory"@, d0, dm, r0, rm, from, to, fuel)
            && offers_walked(e, dm, d1, rm, r1, from, to, fuel)
}

/// The villager walker: its `Inventory` items and its trade offers.
pub fn walk_villager(reg: &Registry, data: &mut NbtMap, from: i32, to: i32, report: &mut LossReport, fuel: u32)
    requires
        fuel > 0,
    ensures
        report_grows(*old(report), *final(report)),
        villager_walked(reg.entries@, *old(data), *final(data), *old(report), *final(report), from, to, fuel as nat),
    decreases fuel, 3int,
{
    let ghost r0 = *report;
    convert_list(reg, TypeKey::ItemStack, data, "Inventory", from, to, report, fuel);
    let ghost r1 = *report;
    let ghost dm = *data;
    walk_offers(reg, data, from, to, report, fuel);
    proof {
        lemma_report_grows_trans(r0, r1, *report);
        assert(list_converted(reg.entries@, TypeKey::ItemStack, "Inventory"@, *old(data), dm, r0, r1, from, to, fuel as nat));
        assert(state_pair(dm, r1) == (dm, r1));
    }
}

/// The walkers of this version.
/// The walkers of this version, part 1.
pub open spec fn walkers_1() -> Seq<Registration> {
    seq![
        entry(TypeKey::Entity, VERSION, 0, Action::Walk("minecraft:area_effect_cloud", Walker::Custom(CustomWalker::V705Particle))),
        entry(TypeKey::Entity, VERSION, 0, Action::Walk("minecraft:arrow", Walker::BlockNames(&["inTile"]))),
        entry(TypeKey::Entity, VERSION, 0, Action::Walk("minecraft:chest_minecart", Walker::BlockNames(&["DisplayTile"]))),
        entry(TypeKey::Entity, VERSION, 0, Action::Walk("minecraft:chest_minecart", Walker::ItemLists(&["Items"]))),
        entry(TypeKey::Entity, VERSION, 0, Action::Walk("minecraft:commandblock_minecart", Walker::BlockNames(&["DisplayTile"]))),
        entry(TypeKey::Entity, VERSION, 0, Action::Walk("minecraft:commandblock_minecart", Walker::Custom(CustomWalker::V705LastOutput))),
        entry(TypeKey::Entity, VERSION, 0, Action::Walk("minecraft:donkey", Walker::ItemLists(&["Items"]))),
        entry(TypeKey::Entity, VERSION, 0, Action::Walk("minecraft:donkey", Walker::Items(&["SaddleItem"]))),
        entry(TypeKey::Entity, VERSION, 0, Action::Walk("minecraft:egg", Walker::BlockNames(&["inTile"]))),
        entry(TypeKey::Entity, VERSION, 0, Action::Walk("minecraft:enderman", Walker::BlockNames(&["carried"]))),
        entry(TypeKey::Entity, VERSION, 0, Action::Walk("minecraft:ender_pearl", Walker::BlockNames(&["inTile"]))),
        entry(TypeKey::Entity, VERSION, 0, Action::Walk("minecraft:falling_block", Walker::BlockNames(&["Block"]))),
        entry(TypeKey::Entity, VERSION, 0, Action::Walk("minecraft:falling_block", Walker::TileEntities(&["TileEntityData"]))),
        entry(TypeKey::Entity, VERSION, 0, Action::Walk("minecraft:fireball", Walker::BlockNames(&["inTile"]))),
        entry(TypeKey::Entity, VERSION, 0, Action::Walk("minecraft:fireworks_rocket", Walker::Items(&["FireworksItem"]))),
        entry(TypeKey::Entity, VERSION, 0, Action::Walk("minecraft:furnace_minecart", Walker::BlockNames(&["DisplayTile"]))),
        entry(TypeKey::Entity, VERSION, 0, Action::Walk("minecraft:hopper_minecart", Walker::BlockNames(&["DisplayTile"]))),
        entry(TypeKey::Entity, VERSION, 0, Action::Walk("minecraft:hopper_minecart", Walker::ItemLists(&["Items"]))),
        entry(TypeKey::Entity, VERSION, 0, Action::Walk("minecraft:horse", Walker::Items(&["ArmorItem", "SaddleItem"]))),
        entry(TypeKey::Entity, VERSION, 0, Action::Walk("minecraft:item", Walker::Items(&["Item"]))),
    ]
}

/// The walkers of this version, part 2.
pub open spec fn walkers_2() -> Seq<Registration> {
    seq![
        entry(TypeKey::Entity, VERSION, 0, Action::Walk("minecraft:item_frame", Walker::Items(&["Item"]))),
        entry(TypeKey::Entity, VERSION, 0, Action::Walk("minecraft:minecart", Walker::BlockNames(&["DisplayTile"]))),
        entry(TypeKey::Entity, VERSION, 0, Action::Walk("minecraft:mule", Walker::ItemLists(&["Items"]))),
        entry(TypeKey::Entity, VERSION, 0, Action::Walk("minecraft:mule", Walker::Items(&["SaddleItem"]))),
        entry(TypeKey::Entity, VERSION, 0, Action::Walk("minecraft:potion", Walker::Items(&["Potion"]))),
        entry(TypeKey::Entity, VERSION, 0, Action::Walk("minecraft:potion", Walker::BlockNames(&["inTile"]))),
        entry(TypeKey::Entity, VERSION, 0, Action::Walk("minecraft:skeleton_horse", Walker::Items(&["SaddleItem"]))),
        entry(TypeKey::Entity, VERSION, 0, Action::Walk("minecraft:small_fireball", Walker::BlockNames(&["inTile"]))),
        entry(TypeKey::Entity, VERSION, 0, Action::Walk("minecraft:snowball", Walker::BlockNames(&["inTile"]))),
        entry(TypeKey::Entity, VERSION, 0, Action::Walk("minecraft:spawner_minecart", Walker::BlockNames(&["DisplayTile"]))),
        entry(TypeKey::Entity, VERSION, 0, Action::Walk("minecraft:spawner_minecart", Walker::Custom(CustomWalker::V705Spawner))),
        entry(TypeKey::Entity, VERSION, 0, Action::Walk("minecraft:spectral_arrow", Walker::BlockNames(&["inTile"]))),
        entry(TypeKey::Entity, VERSION, 0, Action::Walk("minecraft:tnt_minecart", Walker::BlockNames(&["DisplayTile"]))),
        entry(TypeKey::Entity, VERSION, 0, Action::Walk("minecraft:villager", Walker::Custom(CustomWalker::V705Villager))),
        entry(TypeKey::Entity, VERSION, 0, Action::Walk("minecraft:wither_skull", Walker::BlockNames(&["inTile"]))),
        entry(TypeKey::Entity, VERSION, 0, Action::Walk("minecraft:xp_bottle", Walker::BlockNames(&["inTile"]))),
        entry(TypeKey::Entity, VERSION, 0, Action::Walk("minecraft:zombie_horse", Walker::Items(&["SaddleItem"]))),
        entry(TypeKey::Entity, VERSION, 0, Action::Walk("minecraft:zombie_villager", Walker::Custom(CustomWalker::V705Offers))),
        entry(TypeKey::Entity, VERSION, 0, Action::Walk("minecraft:llama", Walker::ItemLists(&["Items"]))),
        entry(TypeKey::Entity, VERSION, 0, Action::Walk("minecraft:llama", Walker::Items(&["SaddleItem", "DecorItem"]))),
    ]
}

/// The walkers of this version.
pub open spec fn walker_registrations() -> Seq<Registration> {
    walkers_1() + walkers_2()
}

fn register_walkers_1(reg: &mut RegistryBuilder)
    ensures
        final(reg).entries@ == old(reg).entries@ + walkers_1(),
{
    reg.add(TypeKey::Entity, VERSION, 0, Action::Walk("minecraft:area_effect_cloud", Walker::Custom(CustomWalker::V705Particle)));
    reg.add(TypeKey::Entity, VERSION, 0, Action::Walk("minecraft:arrow", block_names(&["inTile"])));
    reg.add(TypeKey::Entity, VERSION, 0, Action::Walk("minecraft:chest_minecart", block_names(&["DisplayTile"])));
    reg.add(TypeKey::Entity, VERSION, 0, Action::Walk("minecraft:chest_minecart", item_lists(&["Items"])));
    reg.add(TypeKey::Entity, VERSION, 0, Action::Walk("minecraft:commandblock_minecart", block_names(&["DisplayTile"])));
    reg.add(TypeKey::Entity, VERSION, 0, Action::Walk("minecraft:commandblock_minecart", Walker::Custom(CustomWalker::V705LastOutput)));
    reg.add(TypeKey::Entity, VERSION, 0, Action::Walk("minecraft:donkey", item_lists(&["Items"])));
    reg.add(TypeKey::Entity, VERSION, 0, Action::Walk("minecraft:donkey", items(&["SaddleItem"])));
    reg.add(TypeKey::Entity, VERSION, 0, Action::Walk("minecraft:egg", block_names(&["inTile"])));
    reg.add(TypeKey::Entity, VERSION, 0, Action::Walk("minecraft:enderman", block_names(&["carried"])));
    reg.add(TypeKey::Entity, VERSION, 0, Action::Walk("minecraft:ender_pearl", block_names(&["inTile"])));
    reg.add(TypeKey::Entity, VERSION, 0, Action::Walk("minecraft:falling_block", block_names(&["Block"])));
    reg.add(TypeKey::Entity, VERSION, 0, Action::Walk("minecraft:falling_block", tile_entities(&["TileEntityData"])));
    reg.add(TypeKey::Entity, VERSION, 0, Action::Walk("minecraft:fireball", block_names(&["inTile"])));
    reg.add(TypeKey::Entity, VERSION, 0, Action::Walk("minecraft:fireworks_rocket", items(&["FireworksItem"])));
    reg.add(TypeKey::Entity, VERSION, 0, Action::Walk("minecraft:furnace_minecart", block_names(&["DisplayTile"])));
    reg.add(TypeKey::Entity, VERSION, 0, Action::Walk("minecraft:hopper_minecart", block_names(&["DisplayTile"])));
    reg.add(TypeKey::Entity, VERSION, 0, Action::Walk("minecraft:hopper_minecart", item_lists(&["Items"])));
    reg.add(TypeKey::Entity, VERSION, 0, Action::Walk("minecraft:horse", items(&["ArmorItem", "SaddleItem"])));
    reg.add(TypeKey::Entity, VERSION, 0, Action::Walk("minecraft:item", items(&["Item"])));
    proof {
        assert(final(reg).entries@ =~= old(reg).entries@ + walkers_1());
    }
}

fn register_walkers_2(reg: &mut RegistryBuilder)
    ensures
        final(reg).entries@ == old(reg).entries@ + walkers_2(),
{
    reg.add(TypeKey::Entity, VERSION, 0, Action::Walk("minecraft:item_frame", items(&["Item"])));
    reg.add(TypeKey::Entity, VERSION, 0, Action::Walk("minecraft:minecart", block_names(&["DisplayTile"])));
    reg.add(TypeKey::Entity, VERSION, 0, Action::Walk("minecraft:mule", item_lists(&["Items"])));
    reg.add(TypeKey::Entity, VERSION, 0, Action::Walk("minecraft:mule", items(&["SaddleItem"])));
    reg.add(TypeKey::Entity, VERSION, 0, Action::Walk("minecraft:potion", items(&["Potion"])));
    reg.add(TypeKey::Entity, VERSION, 0, Action::Walk("minecraft:potion", block_names(&["inTile"])));
    reg.add(TypeKey::Entity, VERSION, 0, Action::Walk("minecraft:skeleton_horse", items(&["SaddleItem"])));
    reg.add(TypeKey::Entity, VERSION, 0, Action::Walk("minecraft:small_fireball", block_names(&["inTile"])));
    reg.add(TypeKey::Entity, VERSION, 0, Action::Walk("minecraft:snowball", block_names(&["inTile"])));
    reg.add(TypeKey::Entity, VERSION, 0, Action::Walk("minecraft:spawner_minecart", block_names(&["DisplayTile"])));
    reg.add(TypeKey::Entity, VERSION, 0, Action::Walk("minecraft:spawner_minecart", Walker::Custom(CustomWalker::V705Spawner)));
    reg.add(TypeKey::Entity, VERSION, 0, Action::Walk("minecraft:spectral_arrow", block_names(&["inTile"])));
    reg.add(TypeKey::Entity, VERSION, 0, Action::Walk("minecraft:tnt_minecart", block_names(&["DisplayTile"])));
    reg.add(TypeKey::Entity, VERSION, 0, Action::Walk("minecraft:villager", Walker::Custom(CustomWalker::V705Villager)));
    reg.add(TypeKey::Entity, VERSION, 0, Action::Walk("minecraft:wither_skull", block_names(&["inTile"])));
    reg.add(TypeKey::Entity, VERSION, 0, Action::Walk("minecraft:xp_bottle", block_names(&["inTile"])));
    reg.add(TypeKey::Entity, VERSION, 0, Action::Walk("minecraft:zombie_horse", items(&["SaddleItem"])));
    reg.add(TypeKey::Entity, VERSION, 0, Action::Walk("minecraft:zombie_villager", Walker::Custom(CustomWalker::V705Offers)));
    reg.add(TypeKey::Entity, VERSION, 0, Action::Walk("minecraft:llama", item_lists(&["Items"])));
    reg.add(TypeKey::Entity, VERSION, 0, Action::Walk("minecraft:llama", items(&["SaddleItem", "DecorItem"])));
    proof {
        assert(final(reg).entries@ =~= old(reg).entries@ + walkers_2());
    }
}

fn register_walkers(reg: &mut RegistryBuilder)
    ensures
        final(reg).entries@ == old(reg).entries@ + walker_registrations(),
{
    register_walkers_1(reg);
    register_walkers_2(reg);
    proof {
        assert(final(reg).entries@ =~= old(reg).entries@ + walker_registrations());
    }
}

/// What this version registers.
pub open spec fn registrations() -> Seq<Registration> {
    rename_entries(TypeKey::EntityName, TypeKey::Entity, VERSION, RenameTable::V705EntityIds) + walker_registrations() + seq![
        entry(TypeKey::Entity, VERSION, 0, Action::Hook(Hook::NamespacedId("id"))),
        entry(TypeKey::EntityName, VERSION, 0, Action::Hook(Hook::NamespacedValue)),
    ]
}

/// Register this version's renames, walkers and namespace hooks.
pub fn register(reg: &mut RegistryBuilder)
    ensures
        final(reg).entries@ == old(reg).entries@ + registrations(),
{
    register_entity_rename(reg, VERSION, map_renamer(RenameTable::V705EntityIds));
    register_walkers(reg);
    reg.add(TypeKey::Entity, VERSION, 0, Action::Hook(enforce_namespaced_id_hook("id")));
    reg.add(TypeKey::EntityName, VERSION, 0, Action::Hook(enforce_namespaced_value_hook()));
    proof {
        assert(final(reg).entries@ =~= old(reg).entries@ + registrations());
    }
}

} // verus!
