//! V99: the legacy base registrations. Walkers for every nested structure
//! a schematic can hold (entities, block entities, item stacks, the
//! structure root, villager trades), and the namespacing of item and block
//! ids.

use vstd::prelude::*;
use super::super::registry::{state_pair, map_pair};
use crate::nbt::{is_str, map_of, str_of, NbtMap, NbtValue};
use super::v704::opt_text;
use crate::loss::LossReport;
use crate::text::str_eq;
use super::super::helpers::{enforce_namespaced_id_hook, enforce_namespaced_value_hook};
use super::super::registry::{
    at_path_converted, value_at_path_converted, compound_of, first_hit, list_converted, map_converted, convert_map, entry, lemma_report_grows_trans, rename_lookup, report_grows, Action, Hook, Registration, Registry,
    RegistryBuilder, TypeKey, Walker,
};
use super::super::dispatch::CustomWalker;
use super::super::walker::{
    lemma_steps_push, nested_done, steps_done, WalkStep,
    lemma_replaced_at, list_path_effect, nested_list_converted, paths_at_converted,
    block_names, convert, convert_list, convert_list_path, convert_value, convert_value_list, item_lists, item_names,
    items, tile_entities,
};

verus! {

/// This version.
pub const VERSION: i32 = 99;

/// What the entity structure walker makes of an entity: the ridden entity
/// converted, then the entity converted as equipment.
pub open spec fn entity_walked(e: Seq<Registration>, d0: NbtMap, d1: NbtMap, r0: LossReport, r1: LossReport, from: i32, to: i32, fuel: nat) -> bool
    decreases fuel, 8int, 0int,
{
    fuel > 0 && exists|dm: NbtMap, rm: LossReport| #![trigger state_pair(dm, rm)]
        state_pair(dm, rm) == (dm, rm) && at_path_converted(e, TypeKey::Entity, "Riding"@, d0, dm, r0, rm, from, to, fuel)
            && map_converted(e, TypeKey::EntityEquipment, dm, d1, rm, r1, from, to, (fuel - 1) as nat)
}

/// The entity structure walker: the ridden entity, then the equipment.
pub fn walk_entity(reg: &Registry, data: &mut NbtMap, from: i32, to: i32, report: &mut LossReport, fuel: u32)
    requires
        fuel > 0,
    ensures
        report_grows(*old(report), *final(report)),
        entity_walked(reg.entries@, *old(data), *final(data), *old(report), *final(report), from, to, fuel as nat),
    decreases fuel, 3int,
{
    let ghost r0 = *report;
    convert(reg, TypeKey::Entity, data, "Riding", from, to, report, fuel);
    let ghost r1 = *report;
    let ghost dm = *data;
    convert_map(reg, TypeKey::EntityEquipment, data, from, to, report, fuel - 1);
    proof {
        lemma_report_grows_trans(r0, r1, *report);
        assert(map_converted(reg.entries@, TypeKey::EntityEquipment, dm, *data, r1, *report, from, to, ((fuel as nat) - 1) as nat));
        assert(state_pair(dm, r1) == (dm, r1));
    }
}

/// What the spawner walker makes of a spawner: the data converted as an
/// untagged spawner.
pub open spec fn spawner_walked(e: Seq<Registration>, d0: NbtMap, d1: NbtMap, r0: LossReport, r1: LossReport, from: i32, to: i32, fuel: nat) -> bool
    decreases fuel, 8int, 0int,
{
    fuel > 0 && map_converted(e, TypeKey::UntaggedSpawner, d0, d1, r0, r1, from, to, (fuel - 1) as nat)
}

/// The spawner walker: the data is an untagged spawner itself.
pub fn walk_spawner(reg: &Registry, data: &mut NbtMap, from: i32, to: i32, report: &mut LossReport, fuel: u32)
    requires
        fuel > 0,
    ensures
        report_grows(*old(report), *final(report)),
        spawner_walked(reg.entries@, *old(data), *final(data), *old(report), *final(report), from, to, fuel as nat),
    decreases fuel, 3int,
{
    convert_map(reg, TypeKey::UntaggedSpawner, data, from, to, report, fuel - 1);
    proof {
        assert(map_converted(reg.entries@, TypeKey::UntaggedSpawner, *old(data), *data, *old(report), *report, from, to, ((fuel as nat) - 1) as nat));
    }
}

/// What the command block walker makes of a command block.
pub open spec fn last_output_walked(e: Seq<Registration>, d0: NbtMap, d1: NbtMap, r0: LossReport, r1: LossReport, from: i32, to: i32, fuel: nat) -> bool
    decreases fuel, 8int, 0int,
{
    at_path_converted(e, TypeKey::TextComponent, "LastOutput"@, d0, d1, r0, r1, from, to, fuel)
}

/// The command block walker: `LastOutput` is a text component.
pub fn walk_last_output(reg: &Registry, data: &mut NbtMap, from: i32, to: i32, report: &mut LossReport, fuel: u32)
    requires
        fuel > 0,
    ensures
        report_grows(*old(report), *final(report)),
        last_output_walked(reg.entries@, *old(data), *final(data), *old(report), *final(report), from, to, fuel as nat),
    decreases fuel, 3int,
{
    convert(reg, TypeKey::TextComponent, data, "LastOutput", from, to, report, fuel);
}

/// What the villager walker makes of a villager: `Offers.Recipes`
/// converted as trades.
pub open spec fn offers_walked(e: Seq<Registration>, d0: NbtMap, d1: NbtMap, r0: LossReport, r1: LossReport, from: i32, to: i32, fuel: nat) -> bool
    decreases fuel, 8int, 0int,
{
    nested_list_converted(e, TypeKey::VillagerTrade, "Offers"@, "Recipes"@, d0, d1, r0, r1, from, to, fuel)
}

/// The villager walker: `Offers.Recipes` is a list of trades.
pub fn walk_offers(reg: &Registry, data: &mut NbtMap, from: i32, to: i32, report: &mut LossReport, fuel: u32)
    requires
        fuel > 0,
    ensures
        report_grows(*old(report), *final(report)),
        offers_walked(reg.entries@, *old(data), *final(data), *old(report), *final(report), from, to, fuel as nat),
    decreases fuel, 3int,
{
    match data.take_map("Offers") {
        Some(mut offers) => {
            let ghost mid = *data;
            let ghost o0 = offers;
            convert_list(reg, TypeKey::VillagerTrade, &mut offers, "Recipes", from, to, report, fuel);
            data.set_map("Offers", offers);
            proof {
                lemma_replaced_at(old(data)@, mid@, "Offers"@, NbtValue::Compound(offers));
                assert(compound_of(offers) == NbtValue::Compound(offers));
                assert(list_converted(reg.entries@, TypeKey::VillagerTrade, "Recipes"@, o0, offers, *old(report), *report, from, to, fuel as nat));
            }
        },
        None => {},
    }
}

/// What the area effect cloud walker makes of a cloud.
pub open spec fn particle_walked(e: Seq<Registration>, d0: NbtMap, d1: NbtMap, r0: LossReport, r1: LossReport, from: i32, to: i32, fuel: nat) -> bool
    decreases fuel, 8int, 0int,
{
    at_path_converted(e, TypeKey::Particle, "Particle"@, d0, d1, r0, r1, from, to, fuel)
}

/// The area effect cloud walker: `Particle` is a particle.
pub fn walk_particle(reg: &Registry, data: &mut NbtMap, from: i32, to: i32, report: &mut LossReport, fuel: u32)
    requires
        fuel > 0,
    ensures
        report_grows(*old(report), *final(report)),
        particle_walked(reg.entries@, *old(data), *final(data), *old(report), *final(report), from, to, fuel as nat),
    decreases fuel, 3int,
{
    convert(reg, TypeKey::Particle, data, "Particle", from, to, report, fuel);
}

/// What the block entity structure walker makes of a block entity.
pub open spec fn block_entity_walked(e: Seq<Registration>, d0: NbtMap, d1: NbtMap, r0: LossReport, r1: LossReport, from: i32, to: i32, fuel: nat) -> bool
    decreases fuel, 8int, 0int,
{
    at_path_converted(e, TypeKey::DataComponents, "components"@, d0, d1, r0, r1, from, to, fuel)
}

/// The block entity structure walker: `components` are data components.
pub fn walk_block_entity(reg: &Registry, data: &mut NbtMap, from: i32, to: i32, report: &mut LossReport, fuel: u32)
    requires
        fuel > 0,
    ensures
        report_grows(*old(report), *final(report)),
        block_entity_walked(reg.entries@, *old(data), *final(data), *old(report), *final(report), from, to, fuel as nat),
    decreases fuel, 3int,
{
    convert(reg, TypeKey::DataComponents, data, "components", from, to, report, fuel);
}

/// The sign text walker, shared by later sign ids.
pub fn sign_walker() -> (w: Walker)
    ensures
        w == Walker::Custom(CustomWalker::V99Sign),
{
    Walker::Custom(CustomWalker::V99Sign)
}

/// The eight text lines of a sign.
pub open spec fn sign_lines() -> Seq<&'static str> {
    seq!["Text1", "Text2", "Text3", "Text4", "FilteredText1", "FilteredText2", "FilteredText3", "FilteredText4"]
}

/// What the sign walker makes of a sign: each text line converted as a text
/// component, in order.
pub open spec fn sign_walked(e: Seq<Registration>, d0: NbtMap, d1: NbtMap, r0: LossReport, r1: LossReport, from: i32, to: i32, fuel: nat) -> bool
    decreases fuel, 8int, 0int,
{
    paths_at_converted(e, TypeKey::TextComponent, sign_lines(), d0, d1, r0, r1, from, to, fuel)
}

/// The sign walker: the eight text lines are text components.
pub fn walk_sign(reg: &Registry, data: &mut NbtMap, from: i32, to: i32, report: &mut LossReport, fuel: u32)
    requires
        fuel > 0,
    ensures
        report_grows(*old(report), *final(report)),
        sign_walked(reg.entries@, *old(data), *final(data), *old(report), *final(report), from, to, fuel as nat),
    decreases fuel, 3int,
{
    let ghost r0 = *report;
    let ghost d0 = *data;
    let ghost e = reg.entries@;
    let lines: &[&'static str] = &[
        "Text1", "Text2", "Text3", "Text4", "FilteredText1", "FilteredText2", "FilteredText3", "FilteredText4",
    ];
    proof {
        assert(lines@ == sign_lines());
    }
    let ghost mut ds: Seq<NbtMap> = seq![*data];
    let ghost mut rs: Seq<LossReport> = seq![*report];
    let mut i: usize = 0;
    while i < lines.len()
        invariant
            i <= lines@.len(),
            lines@ == sign_lines(),
            e == reg.entries@,
            fuel > 0,
            report_grows(r0, *report),
            ds.len() == i + 1,
            rs.len() == i + 1,
            ds[0] == d0,
            rs[0] == r0,
            ds[i as int] == *data,
            rs[i as int] == *report,
            forall|j: int| 0 <= j < i ==> #[trigger] at_path_converted(e, TypeKey::TextComponent, sign_lines()[j]@, ds[j], ds[j + 1], rs[j], rs[j + 1], from, to, fuel as nat),
        decreases lines@.len() - i,
    {
        let ghost r1 = *report;
        let ghost before = *data;
        convert(reg, TypeKey::TextComponent, data, lines[i], from, to, report, fuel);
        proof {
            lemma_report_grows_trans(r0, r1, *report);
            let ds2 = ds.push(*data);
            let rs2 = rs.push(*report);
            assert forall|j: int| 0 <= j < i + 1 implies #[trigger] at_path_converted(e, TypeKey::TextComponent, sign_lines()[j]@, ds2[j], ds2[j + 1], rs2[j], rs2[j + 1], from, to, fuel as nat) by {
                if j < i {
                    assert(at_path_converted(e, TypeKey::TextComponent, sign_lines()[j]@, ds[j], ds[j + 1], rs[j], rs[j + 1], from, to, fuel as nat));
                    assert(ds2[j] == ds[j] && ds2[j + 1] == ds[j + 1] && rs2[j] == rs[j] && rs2[j + 1] == rs[j + 1]);
                } else {
                    assert(ds2[j] == before && ds2[j + 1] == *data && rs2[j] == r1 && rs2[j + 1] == *report);
                }
            }
            ds = ds2;
            rs = rs2;
        }
        i = i + 1;
    }
    proof {
        assert(ds.len() == sign_lines().len() + 1);
        assert(forall|j: int| #![trigger ds[j]] 0 <= j < sign_lines().len() ==> at_path_converted(e, TypeKey::TextComponent, sign_lines()[j]@, ds[j], ds[j + 1], rs[j], rs[j + 1], from, to, fuel as nat));
        assert(sign_walked(e, d0, *data, r0, *report, from, to, fuel as nat));
    }
}

/// What the structure root walker makes of a structure: the entities and
/// block entities under `nbt` of their lists, then the palette as block
/// states.
pub open spec fn structure_walked(e: Seq<Registration>, d0: NbtMap, d1: NbtMap, r0: LossReport, r1: LossReport, from: i32, to: i32, fuel: nat) -> bool
    decreases fuel, 8int, 0int,
{
    exists|da: NbtMap, ra: LossReport, db: NbtMap, rb: LossReport|
        #![trigger state_pair(da, ra), state_pair(db, rb)]
        state_pair(da, ra) == (da, ra) && state_pair(db, rb) == (db, rb) && list_path_effect(e, TypeKey::Entity, "entities"@, "nbt"@, d0, da, r0, ra, from, to, fuel)
            && list_path_effect(e, TypeKey::TileEntity, "blocks"@, "nbt"@, da, db, ra, rb, from, to, fuel)
            && list_converted(e, TypeKey::BlockState, "palette"@, db, d1, rb, r1, from, to, fuel)
}

/// The structure root walker: entities, block entities and the palette.
pub fn walk_structure(reg: &Registry, root: &mut NbtMap, from: i32, to: i32, report: &mut LossReport, fuel: u32)
    requires
        fuel > 0,
    ensures
        report_grows(*old(report), *final(report)),
        structure_walked(reg.entries@, *old(root), *final(root), *old(report), *final(report), from, to, fuel as nat),
    decreases fuel, 3int,
{
    let ghost r0 = *report;
    convert_list_path(reg, TypeKey::Entity, root, "entities", "nbt", from, to, report, fuel);
    let ghost r1 = *report;
    let ghost da = *root;
    convert_list_path(reg, TypeKey::TileEntity, root, "blocks", "nbt", from, to, report, fuel);
    proof {
        lemma_report_grows_trans(r0, r1, *report);
    }
    let ghost r2 = *report;
    let ghost db = *root;
    convert_list(reg, TypeKey::BlockState, root, "palette", from, to, report, fuel);
    proof {
        lemma_report_grows_trans(r0, r2, *report);
        assert(list_path_effect(reg.entries@, TypeKey::Entity, "entities"@, "nbt"@, *old(root), da, r0, r1, from, to, fuel as nat));
        assert(state_pair(da, r1) == (da, r1));
        assert(state_pair(db, r2) == (db, r2));
        assert(list_path_effect(reg.entries@, TypeKey::TileEntity, "blocks"@, "nbt"@, da, db, r1, r2, from, to, fuel as nat));
    }
}

/// What the villager trade walker makes of a trade: `buy`, `buyB` and
/// `sell` converted as item stacks, in order.
pub open spec fn trade_walked(e: Seq<Registration>, d0: NbtMap, d1: NbtMap, r0: LossReport, r1: LossReport, from: i32, to: i32, fuel: nat) -> bool
    decreases fuel, 8int, 0int,
{
    paths_at_converted(e, TypeKey::ItemStack, seq!["buy", "buyB", "sell"], d0, d1, r0, r1, from, to, fuel)
}

/// The villager trade walker: what is bought and sold are item stacks.
pub fn walk_trade(reg: &Registry, root: &mut NbtMap, from: i32, to: i32, report: &mut LossReport, fuel: u32)
    requires
        fuel > 0,
    ensures
        report_grows(*old(report), *final(report)),
        trade_walked(reg.entries@, *old(root), *final(root), *old(report), *final(report), from, to, fuel as nat),
    decreases fuel, 3int,
{
    let ghost r0 = *report;
    let ghost d0 = *root;
    convert(reg, TypeKey::ItemStack, root, "buy", from, to, report, fuel);
    let ghost r1 = *report;
    let ghost d1 = *root;
    convert(reg, TypeKey::ItemStack, root, "buyB", from, to, report, fuel);
    proof {
        lemma_report_grows_trans(r0, r1, *report);
    }
    let ghost r2 = *report;
    let ghost d2 = *root;
    convert(reg, TypeKey::ItemStack, root, "sell", from, to, report, fuel);
    proof {
        lemma_report_grows_trans(r0, r2, *report);
        let ds = seq![d0, d1, d2, *root];
        let rs = seq![r0, r1, r2, *report];
        let paths: Seq<&'static str> = seq!["buy", "buyB", "sell"];
        assert forall|i: int| #![trigger ds[i]] 0 <= i < paths.len() implies at_path_converted(reg.entries@, TypeKey::ItemStack, paths[i]@, ds[i], ds[i + 1], rs[i], rs[i + 1], from, to, fuel as nat) by {
            if i == 0 {} else if i == 1 {} else {}
        }
        assert(ds.len() == paths.len() + 1 && rs.len() == paths.len() + 1);
    }
}

/// The legacy block entity id of the block an item places, for the item
/// ids that carry a block entity.
pub fn tile_entity_id_for(item_id: &str) -> (r: Option<&'static str>)
    ensures
        r matches Some(x) ==> exists|i: int| 0 <= i < item_tile_entity_ids().len() && item_tile_entity_ids()[i].0@ == item_id@
            && item_tile_entity_ids()[i].1 == x,
        r is None ==> forall|i: int| 0 <= i < item_tile_entity_ids().len() ==> item_tile_entity_ids()[i].0@ != item_id@,
        r == first_hit(item_tile_entity_ids(), item_id@, false),
{
    let table: &[(&'static str, &'static str)] = &[
        ("minecraft:furnace", "Furnace"),
        ("minecraft:lit_furnace", "Furnace"),
        ("minecraft:chest", "Chest"),
        ("minecraft:trapped_chest", "Chest"),
        ("minecraft:ender_chest", "EnderChest"),
        ("minecraft:dispenser", "Trap"),
        ("minecraft:dropper", "Dropper"),
        ("minecraft:hopper", "Hopper"),
        ("minecraft:brewing_stand", "Cauldron"),
        ("minecraft:beacon", "Beacon"),
        ("minecraft:jukebox", "RecordPlayer"),
        ("minecraft:mob_spawner", "MobSpawner"),
        ("minecraft:flower_pot", "FlowerPot"),
        ("minecraft:standing_banner", "Banner"),
        ("minecraft:wall_banner", "Banner"),
        ("minecraft:noteblock", "Music"),
        ("minecraft:command_block", "Control"),
        ("minecraft:repeating_command_block", "Control"),
        ("minecraft:chain_command_block", "Control"),
        ("minecraft:skull", "Skull"),
        ("minecraft:standing_sign", "Sign"),
        ("minecraft:wall_sign", "Sign"),
    ];
    assert(table@ == item_tile_entity_ids());
    rename_lookup(table, item_id, false)
}

/// The item ids that place a block entity, with its legacy id.
pub open spec fn item_tile_entity_ids() -> Seq<(&'static str, &'static str)> {
    seq![
        ("minecraft:furnace", "Furnace"),
        ("minecraft:lit_furnace", "Furnace"),
        ("minecraft:chest", "Chest"),
        ("minecraft:trapped_chest", "Chest"),
        ("minecraft:ender_chest", "EnderChest"),
        ("minecraft:dispenser", "Trap"),
        ("minecraft:dropper", "Dropper"),
        ("minecraft:hopper", "Hopper"),
        ("minecraft:brewing_stand", "Cauldron"),
        ("minecraft:beacon", "Beacon"),
        ("minecraft:jukebox", "RecordPlayer"),
        ("minecraft:mob_spawner", "MobSpawner"),
        ("minecraft:flower_pot", "FlowerPot"),
        ("minecraft:standing_banner", "Banner"),
        ("minecraft:wall_banner", "Banner"),
        ("minecraft:noteblock", "Music"),
        ("minecraft:command_block", "Control"),
        ("minecraft:repeating_command_block", "Control"),
        ("minecraft:chain_command_block", "Control"),
        ("minecraft:skull", "Skull"),
        ("minecraft:standing_sign", "Sign"),
        ("minecraft:wall_sign", "Sign"),
    ]
}

/// The entity id an item's `EntityTag` stands for when it has none.
pub open spec fn entity_for(item_id: Seq<char>) -> Option<&'static str> {
    if item_id == "minecraft:armor_stand"@ {
        Some("ArmorStand")
    } else if item_id == "minecraft:item_frame"@ {
        Some("ItemFrame")
    } else if item_id == "minecraft:painting"@ {
        Some("Painting")
    } else {
        None
    }
}

/// The entity id an item's `EntityTag` stands for when it has none.
fn entity_id_for(item_id: &str) -> (r: Option<&'static str>)
    ensures
        r == entity_for(item_id@),
{
    if str_eq(item_id, "minecraft:armor_stand") {
        Some("ArmorStand")
    } else if str_eq(item_id, "minecraft:item_frame") {
        Some("ItemFrame")
    } else if str_eq(item_id, "minecraft:painting") {
        Some("Painting")
    } else {
        None
    }
}

/// `ma` is `m0` with `id` set to `resolved` when it had none (or always,
/// with `overwrite`).
pub open spec fn id_prepared(m0: NbtMap, ma: NbtMap, resolved: Option<&'static str>, overwrite: bool) -> bool {
    match resolved {
        Some(id) => if !m0@.dom().contains("id"@) || overwrite {
            ma@ == m0@.insert("id"@, ma@["id"@]) && is_str(ma@["id"@], id@)
        } else {
            ma@ == m0@
        },
        None => ma@ == m0@,
    }
}

/// What converting `m0` as a `ty` with `id` resolved to `resolved` makes of
/// it: the id set as [`id_prepared`] says, the compound converted one level
/// down, and an id that was only set for the conversion taken out again.
pub open spec fn converted_with_id(regs: Seq<Registration>, ty: TypeKey, m0: NbtMap, m1: NbtMap, resolved: Option<&'static str>, overwrite: bool, r0: LossReport, r1: LossReport, from: i32, to: i32, fuel: nat) -> bool
    decreases fuel, 7int, 0int,
{
    fuel > 0 && exists|ma: NbtMap, mb: NbtMap| #![trigger map_pair(ma, mb)]
        map_pair(ma, mb) == (ma, mb) && id_prepared(m0, ma, resolved, overwrite) && map_converted(regs, ty, ma, mb, r0, r1, from, to, (fuel - 1) as nat)
            && m1@ == if resolved is Some && !m0@.dom().contains("id"@) { mb@.remove("id"@) } else { mb@ }
}

/// Convert `m` as a `ty`, with `id` set to `resolved` during the conversion
/// when it had none.
fn convert_with_id(
    reg: &Registry,
    ty: TypeKey,
    m: &mut NbtMap,
    resolved: Option<&'static str>,
    overwrite: bool,
    from: i32,
    to: i32,
    report: &mut LossReport,
    fuel: u32,
)
    requires
        fuel > 0,
    ensures
        report_grows(*old(report), *final(report)),
        converted_with_id(reg.entries@, ty, *old(m), *final(m), resolved, overwrite, *old(report), *final(report), from, to, fuel as nat),
    decreases fuel, 2int,
{
    let mut remove_id = false;
    match resolved {
        Some(id) => {
            if !m.has_key("id") {
                remove_id = true;
                m.set_string("id", id);
            } else if overwrite {
                m.set_string("id", id);
            }
        },
        None => {},
    }
    let ghost ma = *m;
    proof {
        assert(id_prepared(*old(m), ma, resolved, overwrite));
    }
    convert_map(reg, ty, m, from, to, report, fuel - 1);
    let ghost mb = *m;
    proof {
        assert(map_pair(ma, mb) == (ma, mb));
        assert(map_converted(reg.entries@, ty, ma, mb, *old(report), *report, from, to, ((fuel as nat) - 1) as nat));
    }
    if remove_id {
        m.take("id");
    }
}

/// The members of an item stack's `tag` the item stack walker visits, in
/// order.
pub open spec fn item_steps() -> Seq<WalkStep> {
    seq![
        WalkStep::List(TypeKey::ItemStack, "Items"),
        WalkStep::List(TypeKey::ItemStack, "ChargedProjectiles"),
        WalkStep::BookList("pages"),
        WalkStep::BookList("filtered_pages"),
        WalkStep::EntityTagFor,
        WalkStep::BlockEntityTagFor,
        WalkStep::ValueList(TypeKey::BlockName, "CanDestroy"),
        WalkStep::ValueList(TypeKey::BlockName, "CanPlaceOn"),
    ]
}

/// What an item stack walker makes of an item stack: its `id` converted as
/// an item name, then the members `steps` of its `tag`, in order, for the
/// converted id.
pub open spec fn item_stack_walked_with(e: Seq<Registration>, steps: Seq<WalkStep>, d0: NbtMap, d1: NbtMap, r0: LossReport, r1: LossReport, from: i32, to: i32, fuel: nat) -> bool
    decreases fuel, 11int, 0int,
{
    exists|dm: NbtMap| #![trigger value_at_path_converted(e, TypeKey::ItemName, "id"@, d0, dm, from, to)]
        value_at_path_converted(e, TypeKey::ItemName, "id"@, d0, dm, from, to) && match map_of(dm@, "tag"@) {
            None => d1@ == dm@ && r1 == r0,
            Some(t) => exists|t2: NbtMap| #![trigger compound_of(t2)]
                steps_done(e, steps, str_of(dm@, "id"@), t, t2, r0, r1, from, to, fuel) && nested_done("tag"@, dm, d1, t2),
        }
}

/// What the item stack walker makes of an item stack.
pub open spec fn item_stack_walked(e: Seq<Registration>, d0: NbtMap, d1: NbtMap, r0: LossReport, r1: LossReport, from: i32, to: i32, fuel: nat) -> bool
    decreases fuel, 12int, 0int,
{
    item_stack_walked_with(e, item_steps(), d0, d1, r0, r1, from, to, fuel)
}

/// The item stack structure walker: the id, and everything nested in `tag`.
#[verifier::spinoff_prover]
#[verifier::rlimit(60)]
pub fn walk_item_stack(reg: &Registry, data: &mut NbtMap, from: i32, to: i32, report: &mut LossReport, fuel: u32)
    requires
        fuel > 0,
    ensures
        report_grows(*old(report), *final(report)),
        item_stack_walked(reg.entries@, *old(data), *final(data), *old(report), *final(report), from, to, fuel as nat),
    decreases fuel, 3int,
{
    let ghost regs = reg.entries@;
    let ghost r0 = *report;
    convert_value(reg, TypeKey::ItemName, data, "id", from, to);
    let ghost dm = *data;
    let item_id = match data.get_string("id") {
        Some(s) => Some(s.to_owned()),
        None => None,
    };
    let ghost item = opt_text(item_id);
    proof {
        assert(item == str_of(dm@, "id"@));
        assert(value_at_path_converted(regs, TypeKey::ItemName, "id"@, *old(data), dm, from, to));
    }
    let mut tag = match data.take_map("tag") {
        Some(t) => t,
        None => {
            proof {
                assert(map_of(dm@, "tag"@).is_none());
                assert(item_stack_walked_with(regs, item_steps(), *old(data), *data, r0, *report, from, to, fuel as nat));
            }
            return;
        },
    };
    let ghost tmid = *data;
    let ghost t0 = tag;
    let ghost steps = item_steps();
    let ghost mut ds: Seq<NbtMap> = seq![tag];
    let ghost mut rs: Seq<LossReport> = seq![*report];
    convert_list(reg, TypeKey::ItemStack, &mut tag, "Items", from, to, report, fuel);
    proof {
        lemma_steps_push(regs, steps, item, ds, rs, tag, *report, from, to, fuel as nat);
        lemma_report_grows_trans(r0, rs.last(), *report);
        ds = ds.push(tag);
        rs = rs.push(*report);
    }
    convert_list(reg, TypeKey::ItemStack, &mut tag, "ChargedProjectiles", from, to, report, fuel);
    proof {
        lemma_steps_push(regs, steps, item, ds, rs, tag, *report, from, to, fuel as nat);
        lemma_report_grows_trans(r0, rs.last(), *report);
        ds = ds.push(tag);
        rs = rs.push(*report);
    }
    let is_book = match &item_id {
        Some(id) => str_eq(id.as_str(), "minecraft:written_book"),
        None => false,
    };
    proof {
        reveal_strlit("minecraft:written_book");
        assert(is_book == (item == Some("minecraft:written_book"@)));
    }
    if is_book {
        convert_list(reg, TypeKey::TextComponent, &mut tag, "pages", from, to, report, fuel);
        proof {
            lemma_steps_push(regs, steps, item, ds, rs, tag, *report, from, to, fuel as nat);
            lemma_report_grows_trans(r0, rs.last(), *report);
            ds = ds.push(tag);
            rs = rs.push(*report);
        }
        convert_list(reg, TypeKey::TextComponent, &mut tag, "filtered_pages", from, to, report, fuel);
        proof {
            lemma_steps_push(regs, steps, item, ds, rs, tag, *report, from, to, fuel as nat);
            lemma_report_grows_trans(r0, rs.last(), *report);
            ds = ds.push(tag);
            rs = rs.push(*report);
        }
    } else {
        proof {
            lemma_steps_push(regs, steps, item, ds, rs, tag, *report, from, to, fuel as nat);
            lemma_report_grows_trans(r0, rs.last(), *report);
            ds = ds.push(tag);
            rs = rs.push(*report);
        }
        proof {
            lemma_steps_push(regs, steps, item, ds, rs, tag, *report, from, to, fuel as nat);
            lemma_report_grows_trans(r0, rs.last(), *report);
            ds = ds.push(tag);
            rs = rs.push(*report);
        }
    }
    match tag.take_map("EntityTag") {
        Some(mut inner) => {
            let ghost mid = tag;
            let ghost m0 = inner;
            let ghost rb = *report;
            let resolved = match &item_id {
                Some(id) => entity_id_for(id.as_str()),
                None => None,
            };
            proof {
                assert(resolved == match item { Some(i) => entity_for(i), None => None });
            }
            convert_with_id(reg, TypeKey::Entity, &mut inner, resolved, false, from, to, report, fuel);
            let ghost m1 = inner;
            tag.set_map("EntityTag", inner);
            proof {
                lemma_replaced_at(ds.last()@, mid@, "EntityTag"@, NbtValue::Compound(m1));
                assert(compound_of(m1) == NbtValue::Compound(m1));
                assert(converted_with_id(regs, TypeKey::Entity, m0, m1, match item { Some(i) => entity_for(i), None => None }, false, rb, *report, from, to, fuel as nat));
                assert(nested_done("EntityTag"@, ds.last(), tag, m1));
            }
        },
        None => {},
    }
    proof {
        lemma_steps_push(regs, steps, item, ds, rs, tag, *report, from, to, fuel as nat);
        lemma_report_grows_trans(r0, rs.last(), *report);
        ds = ds.push(tag);
        rs = rs.push(*report);
    }
    match tag.take_map("BlockEntityTag") {
        Some(mut inner) => {
            let ghost mid = tag;
            let ghost m0 = inner;
            let ghost rb = *report;
            let resolved = match &item_id {
                Some(id) => tile_entity_id_for(id.as_str()),
                None => None,
            };
            proof {
                assert(resolved == match item { Some(i) => first_hit(item_tile_entity_ids(), i, false), None => None });
            }
            convert_with_id(reg, TypeKey::TileEntity, &mut inner, resolved, true, from, to, report, fuel);
            let ghost m1 = inner;
            tag.set_map("BlockEntityTag", inner);
            proof {
                lemma_replaced_at(ds.last()@, mid@, "BlockEntityTag"@, NbtValue::Compound(m1));
                assert(compound_of(m1) == NbtValue::Compound(m1));
                assert(converted_with_id(regs, TypeKey::TileEntity, m0, m1, match item { Some(i) => first_hit(item_tile_entity_ids(), i, false), None => None }, true, rb, *report, from, to, fuel as nat));
                assert(nested_done("BlockEntityTag"@, ds.last(), tag, m1));
            }
        },
        None => {},
    }
    proof {
        lemma_steps_push(regs, steps, item, ds, rs, tag, *report, from, to, fuel as nat);
        lemma_report_grows_trans(r0, rs.last(), *report);
        ds = ds.push(tag);
        rs = rs.push(*report);
    }
    convert_value_list(reg, TypeKey::BlockName, &mut tag, "CanDestroy", from, to);
    proof {
        lemma_steps_push(regs, steps, item, ds, rs, tag, *report, from, to, fuel as nat);
        lemma_report_grows_trans(r0, rs.last(), *report);
        ds = ds.push(tag);
        rs = rs.push(*report);
    }
    convert_value_list(reg, TypeKey::BlockName, &mut tag, "CanPlaceOn", from, to);
    proof {
        lemma_steps_push(regs, steps, item, ds, rs, tag, *report, from, to, fuel as nat);
        lemma_report_grows_trans(r0, rs.last(), *report);
        ds = ds.push(tag);
        rs = rs.push(*report);
    }
    let ghost t1 = tag;
    data.set_map("tag", tag);
    proof {
        lemma_replaced_at(dm@, tmid@, "tag"@, NbtValue::Compound(t1));
        assert(compound_of(t1) == NbtValue::Compound(t1));
        assert(map_of(dm@, "tag"@) == Some(t0));
        assert(steps_done(regs, steps, item, t0, t1, r0, *report, from, to, fuel as nat));
        assert(nested_done("tag"@, dm, *data, t1));
        assert(item_stack_walked_with(regs, item_steps(), *old(data), *data, r0, *report, from, to, fuel as nat));
    }
}

/// The entity registrations of this version.
pub open spec fn entity_registrations() -> Seq<Registration> {
    seq![
            entry(TypeKey::Entity, VERSION, 0, Action::WalkAll(Walker::Custom(CustomWalker::V99EntityRiding))),
            entry(TypeKey::EntityEquipment, VERSION, 0, Action::WalkAll(Walker::ItemLists(&["Equipment"]))),
            entry(TypeKey::Entity, VERSION, 0, Action::Walk("Item", Walker::Items(&["Item"]))),
            entry(TypeKey::Entity, VERSION, 0, Action::Walk("ThrownEgg", Walker::BlockNames(&["inTile"]))),
            entry(TypeKey::Entity, VERSION, 0, Action::Walk("Arrow", Walker::BlockNames(&["inTile"]))),
            entry(TypeKey::Entity, VERSION, 0, Action::Walk("TippedArrow", Walker::BlockNames(&["inTile"]))),
            entry(TypeKey::Entity, VERSION, 0, Action::Walk("SpectralArrow", Walker::BlockNames(&["inTile"]))),
            entry(TypeKey::Entity, VERSION, 0, Action::Walk("Snowball", Walker::BlockNames(&["inTile"]))),
            entry(TypeKey::Entity, VERSION, 0, Action::Walk("Fireball", Walker::BlockNames(&["inTile"]))),
            entry(TypeKey::Entity, VERSION, 0, Action::Walk("SmallFireball", Walker::BlockNames(&["inTile"]))),
            entry(TypeKey::Entity, VERSION, 0, Action::Walk("ThrownEnderpearl", Walker::BlockNames(&["inTile"]))),
            entry(TypeKey::Entity, VERSION, 0, Action::Walk("ThrownPotion", Walker::BlockNames(&["inTile"]))),
            entry(TypeKey::Entity, VERSION, 0, Action::Walk("ThrownPotion", Walker::Items(&["Potion"]))),
            entry(TypeKey::Entity, VERSION, 0, Action::Walk("ThrownExpBottle", Walker::BlockNames(&["inTile"]))),
            entry(TypeKey::Entity, VERSION, 0, Action::Walk("ItemFrame", Walker::Items(&["Item"]))),
            entry(TypeKey::Entity, VERSION, 0, Action::Walk("WitherSkull", Walker::BlockNames(&["inTile"]))),
            entry(TypeKey::Entity, VERSION, 0, Action::Walk("FallingSand", Walker::BlockNames(&["Block"]))),
            entry(TypeKey::Entity, VERSION, 0, Action::Walk("FallingSand", Walker::TileEntities(&["TileEntityData"]))),
            entry(TypeKey::Entity, VERSION, 0, Action::Walk("FireworksRocketEntity", Walker::Items(&["FireworksItem"]))),
            entry(TypeKey::Entity, VERSION, 0, Action::Walk("Minecart", Walker::BlockNames(&["DisplayTile"]))),
            entry(TypeKey::Entity, VERSION, 0, Action::Walk("Minecart", Walker::ItemLists(&["Items"]))),
            entry(TypeKey::Entity, VERSION, 0, Action::Walk("Minecart", Walker::Custom(CustomWalker::V99Spawner))),
            entry(TypeKey::Entity, VERSION, 0, Action::Walk("MinecartRideable", Walker::BlockNames(&["DisplayTile"]))),
            entry(TypeKey::Entity, VERSION, 0, Action::Walk("MinecartChest", Walker::BlockNames(&["DisplayTile"]))),
            entry(TypeKey::Entity, VERSION, 0, Action::Walk("MinecartChest", Walker::ItemLists(&["Items"]))),
            entry(TypeKey::Entity, VERSION, 0, Action::Walk("MinecartFurnace", Walker::BlockNames(&["DisplayTile"]))),
            entry(TypeKey::Entity, VERSION, 0, Action::Walk("MinecartTNT", Walker::BlockNames(&["DisplayTile"]))),
            entry(TypeKey::Entity, VERSION, 0, Action::Walk("MinecartSpawner", Walker::BlockNames(&["DisplayTile"]))),
            entry(TypeKey::Entity, VERSION, 0, Action::Walk("MinecartSpawner", Walker::Custom(CustomWalker::V99Spawner))),
            entry(TypeKey::Entity, VERSION, 0, Action::Walk("MinecartHopper", Walker::BlockNames(&["DisplayTile"]))),
            entry(TypeKey::Entity, VERSION, 0, Action::Walk("MinecartHopper", Walker::ItemLists(&["Items"]))),
            entry(TypeKey::Entity, VERSION, 0, Action::Walk("MinecartCommandBlock", Walker::BlockNames(&["DisplayTile"]))),
            entry(TypeKey::Entity, VERSION, 0, Action::Walk("MinecartCommandBlock", Walker::Custom(CustomWalker::V99LastOutput))),
            entry(TypeKey::Entity, VERSION, 0, Action::Walk("Enderman", Walker::BlockNames(&["carried"]))),
            entry(TypeKey::Entity, VERSION, 0, Action::Walk("EntityHorse", Walker::ItemLists(&["Items"]))),
            entry(TypeKey::Entity, VERSION, 0, Action::Walk("EntityHorse", Walker::Items(&["ArmorItem", "SaddleItem"]))),
            entry(TypeKey::Entity, VERSION, 0, Action::Walk("Villager", Walker::ItemLists(&["Inventory"]))),
            entry(TypeKey::Entity, VERSION, 0, Action::Walk("Villager", Walker::Custom(CustomWalker::V99Offers))),
            entry(TypeKey::Entity, VERSION, 0, Action::Walk("AreaEffectCloud", Walker::Custom(CustomWalker::V99Particle))),
    ]
}

/// The tile registrations of this version.
pub open spec fn tile_registrations() -> Seq<Registration> {
    seq![
            entry(TypeKey::TileEntity, VERSION, 0, Action::WalkAll(Walker::Custom(CustomWalker::V99Components))),
            entry(TypeKey::TileEntity, VERSION, 0, Action::Walk("Furnace", Walker::ItemLists(&["Items"]))),
            entry(TypeKey::TileEntity, VERSION, 0, Action::Walk("Chest", Walker::ItemLists(&["Items"]))),
            entry(TypeKey::TileEntity, VERSION, 0, Action::Walk("RecordPlayer", Walker::Items(&["RecordItem"]))),
            entry(TypeKey::TileEntity, VERSION, 0, Action::Walk("Trap", Walker::ItemLists(&["Items"]))),
            entry(TypeKey::TileEntity, VERSION, 0, Action::Walk("Dropper", Walker::ItemLists(&["Items"]))),
            entry(TypeKey::TileEntity, VERSION, 0, Action::Walk("Sign", Walker::Custom(CustomWalker::V99Sign))),
            entry(TypeKey::TileEntity, VERSION, 0, Action::Walk("MobSpawner", Walker::Custom(CustomWalker::V99Spawner))),
            entry(TypeKey::TileEntity, VERSION, 0, Action::Walk("Cauldron", Walker::ItemLists(&["Items"]))),
            entry(TypeKey::TileEntity, VERSION, 0, Action::Walk("Control", Walker::Custom(CustomWalker::V99LastOutput))),
            entry(TypeKey::TileEntity, VERSION, 0, Action::Walk("Hopper", Walker::ItemLists(&["Items"]))),
            entry(TypeKey::TileEntity, VERSION, 0, Action::Walk("FlowerPot", Walker::ItemNames(&["Item"]))),
    ]
}

/// The other registrations of this version.
pub open spec fn other_registrations() -> Seq<Registration> {
    seq![
            entry(TypeKey::ItemStack, VERSION, 0, Action::WalkAll(Walker::Custom(CustomWalker::V99ItemStack))),
            entry(TypeKey::Structure, VERSION, 0, Action::WalkAll(Walker::Custom(CustomWalker::V99Structure))),
            entry(TypeKey::VillagerTrade, VERSION, 0, Action::WalkAll(Walker::Custom(CustomWalker::V99Trade))),
            entry(TypeKey::BlockName, VERSION, 0, Action::Hook(Hook::NamespacedValue)),
            entry(TypeKey::ItemName, VERSION, 0, Action::Hook(Hook::NamespacedValue)),
            entry(TypeKey::ItemStack, VERSION, 0, Action::Hook(Hook::NamespacedId("id"))),
    ]
}

#[verifier::spinoff_prover]
fn register_entity(reg: &mut RegistryBuilder)
    ensures
        final(reg).entries@ == old(reg).entries@ + entity_registrations(),
{
    reg.add(TypeKey::Entity, VERSION, 0, Action::WalkAll(Walker::Custom(CustomWalker::V99EntityRiding)));
    reg.add(TypeKey::EntityEquipment, VERSION, 0, Action::WalkAll(item_lists(&["Equipment"])));
    reg.add(TypeKey::Entity, VERSION, 0, Action::Walk("Item", items(&["Item"])));
    reg.add(TypeKey::Entity, VERSION, 0, Action::Walk("ThrownEgg", block_names(&["inTile"])));
    reg.add(TypeKey::Entity, VERSION, 0, Action::Walk("Arrow", block_names(&["inTile"])));
    reg.add(TypeKey::Entity, VERSION, 0, Action::Walk("TippedArrow", block_names(&["inTile"])));
    reg.add(TypeKey::Entity, VERSION, 0, Action::Walk("SpectralArrow", block_names(&["inTile"])));
    reg.add(TypeKey::Entity, VERSION, 0, Action::Walk("Snowball", block_names(&["inTile"])));
    reg.add(TypeKey::Entity, VERSION, 0, Action::Walk("Fireball", block_names(&["inTile"])));
    reg.add(TypeKey::Entity, VERSION, 0, Action::Walk("SmallFireball", block_names(&["inTile"])));
    reg.add(TypeKey::Entity, VERSION, 0, Action::Walk("ThrownEnderpearl", block_names(&["inTile"])));
    reg.add(TypeKey::Entity, VERSION, 0, Action::Walk("ThrownPotion", block_names(&["inTile"])));
    reg.add(TypeKey::Entity, VERSION, 0, Action::Walk("ThrownPotion", items(&["Potion"])));
    reg.add(TypeKey::Entity, VERSION, 0, Action::Walk("ThrownExpBottle", block_names(&["inTile"])));
    reg.add(TypeKey::Entity, VERSION, 0, Action::Walk("ItemFrame", items(&["Item"])));
    reg.add(TypeKey::Entity, VERSION, 0, Action::Walk("WitherSkull", block_names(&["inTile"])));
    reg.add(TypeKey::Entity, VERSION, 0, Action::Walk("FallingSand", block_names(&["Block"])));
    reg.add(TypeKey::Entity, VERSION, 0, Action::Walk("FallingSand", tile_entities(&["TileEntityData"])));
    reg.add(TypeKey::Entity, VERSION, 0, Action::Walk("FireworksRocketEntity", items(&["FireworksItem"])));
    reg.add(TypeKey::Entity, VERSION, 0, Action::Walk("Minecart", block_names(&["DisplayTile"])));
    reg.add(TypeKey::Entity, VERSION, 0, Action::Walk("Minecart", item_lists(&["Items"])));
    reg.add(TypeKey::Entity, VERSION, 0, Action::Walk("Minecart", Walker::Custom(CustomWalker::V99Spawner)));
    reg.add(TypeKey::Entity, VERSION, 0, Action::Walk("MinecartRideable", block_names(&["DisplayTile"])));
    reg.add(TypeKey::Entity, VERSION, 0, Action::Walk("MinecartChest", block_names(&["DisplayTile"])));
    reg.add(TypeKey::Entity, VERSION, 0, Action::Walk("MinecartChest", item_lists(&["Items"])));
    reg.add(TypeKey::Entity, VERSION, 0, Action::Walk("MinecartFurnace", block_names(&["DisplayTile"])));
    reg.add(TypeKey::Entity, VERSION, 0, Action::Walk("MinecartTNT", block_names(&["DisplayTile"])));
    reg.add(TypeKey::Entity, VERSION, 0, Action::Walk("MinecartSpawner", block_names(&["DisplayTile"])));
    reg.add(TypeKey::Entity, VERSION, 0, Action::Walk("MinecartSpawner", Walker::Custom(CustomWalker::V99Spawner)));
    reg.add(TypeKey::Entity, VERSION, 0, Action::Walk("MinecartHopper", block_names(&["DisplayTile"])));
    reg.add(TypeKey::Entity, VERSION, 0, Action::Walk("MinecartHopper", item_lists(&["Items"])));
    reg.add(TypeKey::Entity, VERSION, 0, Action::Walk("MinecartCommandBlock", block_names(&["DisplayTile"])));
    reg.add(TypeKey::Entity, VERSION, 0, Action::Walk("MinecartCommandBlock", Walker::Custom(CustomWalker::V99LastOutput)));
    reg.add(TypeKey::Entity, VERSION, 0, Action::Walk("Enderman", block_names(&["carried"])));
    reg.add(TypeKey::Entity, VERSION, 0, Action::Walk("EntityHorse", item_lists(&["Items"])));
    reg.add(TypeKey::Entity, VERSION, 0, Action::Walk("EntityHorse", items(&["ArmorItem", "SaddleItem"])));
    reg.add(TypeKey::Entity, VERSION, 0, Action::Walk("Villager", item_lists(&["Inventory"])));
    reg.add(TypeKey::Entity, VERSION, 0, Action::Walk("Villager", Walker::Custom(CustomWalker::V99Offers)));
    reg.add(TypeKey::Entity, VERSION, 0, Action::Walk("AreaEffectCloud", Walker::Custom(CustomWalker::V99Particle)));
    proof {
        assert(final(reg).entries@ =~= old(reg).entries@ + entity_registrations());
    }
}

fn register_tile(reg: &mut RegistryBuilder)
    ensures
        final(reg).entries@ == old(reg).entries@ + tile_registrations(),
{
    reg.add(TypeKey::TileEntity, VERSION, 0, Action::WalkAll(Walker::Custom(CustomWalker::V99Components)));
    reg.add(TypeKey::TileEntity, VERSION, 0, Action::Walk("Furnace", item_lists(&["Items"])));
    reg.add(TypeKey::TileEntity, VERSION, 0, Action::Walk("Chest", item_lists(&["Items"])));
    reg.add(TypeKey::TileEntity, VERSION, 0, Action::Walk("RecordPlayer", items(&["RecordItem"])));
    reg.add(TypeKey::TileEntity, VERSION, 0, Action::Walk("Trap", item_lists(&["Items"])));
    reg.add(TypeKey::TileEntity, VERSION, 0, Action::Walk("Dropper", item_lists(&["Items"])));
    reg.add(TypeKey::TileEntity, VERSION, 0, Action::Walk("Sign", Walker::Custom(CustomWalker::V99Sign)));
    reg.add(TypeKey::TileEntity, VERSION, 0, Action::Walk("MobSpawner", Walker::Custom(CustomWalker::V99Spawner)));
    reg.add(TypeKey::TileEntity, VERSION, 0, Action::Walk("Cauldron", item_lists(&["Items"])));
    reg.add(TypeKey::TileEntity, VERSION, 0, Action::Walk("Control", Walker::Custom(CustomWalker::V99LastOutput)));
    reg.add(TypeKey::TileEntity, VERSION, 0, Action::Walk("Hopper", item_lists(&["Items"])));
    reg.add(TypeKey::TileEntity, VERSION, 0, Action::Walk("FlowerPot", item_names(&["Item"])));
    proof {
        assert(final(reg).entries@ =~= old(reg).entries@ + tile_registrations());
    }
}

fn register_other(reg: &mut RegistryBuilder)
    ensures
        final(reg).entries@ == old(reg).entries@ + other_registrations(),
{
    reg.add(TypeKey::ItemStack, VERSION, 0, Action::WalkAll(Walker::Custom(CustomWalker::V99ItemStack)));
    reg.add(TypeKey::Structure, VERSION, 0, Action::WalkAll(Walker::Custom(CustomWalker::V99Structure)));
    reg.add(TypeKey::VillagerTrade, VERSION, 0, Action::WalkAll(Walker::Custom(CustomWalker::V99Trade)));
    reg.add(TypeKey::BlockName, VERSION, 0, Action::Hook(enforce_namespaced_value_hook()));
    reg.add(TypeKey::ItemName, VERSION, 0, Action::Hook(enforce_namespaced_value_hook()));
    reg.add(TypeKey::ItemStack, VERSION, 0, Action::Hook(enforce_namespaced_id_hook("id")));
    proof {
        assert(final(reg).entries@ =~= old(reg).entries@ + other_registrations());
    }
}

/// What this version registers.
pub open spec fn registrations() -> Seq<Registration> {
    entity_registrations() + tile_registrations() + other_registrations()
}

/// Register this version's walkers and namespace hooks.
pub fn register(reg: &mut RegistryBuilder)
    ensures
        final(reg).entries@ == old(reg).entries@ + registrations(),
{
    register_entity(reg);
    register_tile(reg);
    register_other(reg);
    proof {
        assert(final(reg).entries@ =~= old(reg).entries@ + registrations());
    }
}

} // verus!
