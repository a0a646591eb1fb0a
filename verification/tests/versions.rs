use nucleation::dataconverter::registry::{convert_with_all, TypeKey};
use nucleation::loss::{LossKind, Severity};
use nucleation::dataconverter::versions::v3945::{make_uuid, operation_str, uuid_string_to_ints};
use nucleation::dataconverter::versions::v4055::{correct_namespace, rename};
use nucleation::dataconverter::versions::v4067::{boat_entity_to_base_and_type, merge_boat_entity, split_boat_entity};
use nucleation::dataconverter::versions::v4068::{escape, unescape};
use nucleation::dataconverter::versions::v4299::{
    axolotl_index, banner_colour, banner_colour_id, fish_pattern_code, lookup_axolotl, lookup_fish_pattern,
    pack_variant, unpack_variant,
};
use nucleation::dataconverter::versions::v4314::{join_vex, split_vex};
use nucleation::nbt::{NbtMap, NbtValue};

#[test]
fn a_lock_name_escapes_and_unescapes() {
    assert_eq!(escape("a\"b\\c"), "a\\\"b\\\\c");
    assert_eq!(escape("plain"), "plain");
    for s in ["", "key", "\"quoted\"", "back\\slash", "\\\"mixed\\\\"] {
        assert_eq!(unescape(&escape(s)), s);
    }
    // A backslash the escaper never writes is kept as it is.
    assert_eq!(unescape("a\\nb"), "a\\nb");
    assert_eq!(unescape("end\\"), "end\\");
}

#[test]
fn tropical_fish_variants_pack_and_unpack() {
    let v = pack_variant(1, 1, 14);
    assert_eq!(v, 1 + 0x1_0000 + 14 * 0x100_0000);
    assert_eq!(unpack_variant(v), (1, 1, 14));
    assert_eq!(unpack_variant(-1), (0xFFFF, 0xFF, 0xFF));
    assert_eq!(lookup_fish_pattern(1), "flopper");
    assert_eq!(lookup_fish_pattern(1281), "clayfish");
    assert_eq!(lookup_fish_pattern(5), "kob");
    assert_eq!(fish_pattern_code("betty"), 1025);
    assert_eq!(fish_pattern_code("kob"), 0);
    assert_eq!(fish_pattern_code("unknown"), 0);
}

#[test]
fn axolotl_and_banner_colour_tables() {
    assert_eq!(lookup_axolotl(2), "gold");
    assert_eq!(lookup_axolotl(9), "lucy");
    assert_eq!(lookup_axolotl(-1), "lucy");
    assert_eq!(axolotl_index("cyan"), 3);
    assert_eq!(axolotl_index("pink"), 0);
    assert_eq!(banner_colour(14), "red");
    assert_eq!(banner_colour(16), "white");
    assert_eq!(banner_colour_id("light_gray"), 8);
    assert_eq!(banner_colour_id("teal"), 0);
}

#[test]
fn attribute_ids_lose_their_category_prefix() {
    assert_eq!(correct_namespace("generic.max_health"), "minecraft:generic.max_health");
    assert_eq!(correct_namespace("mod:thing"), "mod:thing");
    assert_eq!(correct_namespace("Bad Name"), "Bad Name");
    assert_eq!(rename("generic.max_health"), Some("minecraft:max_health".to_string()));
    assert_eq!(rename("minecraft:horse.jump_strength"), Some("minecraft:jump_strength".to_string()));
    assert_eq!(rename("zombie.spawn_reinforcements"), Some("minecraft:spawn_reinforcements".to_string()));
    assert_eq!(rename("minecraft:luck"), None);
}

#[test]
fn a_typed_boat_splits_by_wood_and_merges_back() {
    let mut boat = NbtMap::new();
    boat.set_string("id", "minecraft:chest_boat");
    boat.set_string("Type", "bamboo");
    split_boat_entity(&mut boat);
    assert_eq!(boat.get_string("id"), Some("bamboo_chest_raft"));
    assert!(!boat.has_key("Type"));
    merge_boat_entity(&mut boat);
    assert_eq!(boat.get_string("id"), Some("minecraft:chest_boat"));
    assert_eq!(boat.get_string("Type"), Some("bamboo"));

    let mut plain = NbtMap::new();
    plain.set_string("id", "minecraft:boat");
    split_boat_entity(&mut plain);
    assert_eq!(plain.get_string("id"), Some("minecraft:oak_boat"));

    assert_eq!(boat_entity_to_base_and_type("minecraft:dark_oak_boat"), Some((false, "dark_oak")));
    assert_eq!(boat_entity_to_base_and_type("oak_chest_boat"), Some((true, "oak")));
    assert_eq!(boat_entity_to_base_and_type("minecraft:pig"), None);
}

#[test]
fn a_vex_bound_position_joins_and_splits() {
    let mut vex = NbtMap::new();
    vex.set_string("id", "minecraft:vex");
    vex.set_i32("BoundX", 1);
    vex.set_i32("BoundY", -2);
    vex.set_i32("BoundZ", 3);
    vex.set_i32("LifeTicks", 40);
    join_vex(&mut vex);
    assert!(matches!(vex.get("bound_pos"), Some(NbtValue::IntArray(v)) if v == &vec![1, -2, 3]));
    assert_eq!(vex.get_i32("life_ticks"), Some(40));
    assert!(!vex.has_key("BoundX") && !vex.has_key("LifeTicks"));
    split_vex(&mut vex);
    assert_eq!(vex.get_i32("BoundX"), Some(1));
    assert_eq!(vex.get_i32("BoundY"), Some(-2));
    assert_eq!(vex.get_i32("BoundZ"), Some(3));
    assert_eq!(vex.get_i32("LifeTicks"), Some(40));
    assert!(!vex.has_key("bound_pos"));
}

#[test]
fn a_furnace_gains_a_total_burn_time_and_loses_it_again() {
    let mut furnace = NbtMap::new();
    furnace.set_string("id", "minecraft:furnace");
    furnace.set_short("BurnTime", 120);
    furnace.set_short("CookTime", 5);
    furnace.set_short("CookTimeTotal", 200);
    let report = convert_with_all(TypeKey::TileEntity, &mut furnace, 4180, 4181);
    assert!(report.is_empty());
    assert!(matches!(furnace.get("lit_time_remaining"), Some(NbtValue::Short(120))));
    assert!(matches!(furnace.get("lit_total_time"), Some(NbtValue::Short(120))));
    assert!(matches!(furnace.get("cooking_time_spent"), Some(NbtValue::Short(5))));
    assert!(matches!(furnace.get("cooking_total_time"), Some(NbtValue::Short(200))));
    assert!(!furnace.has_key("BurnTime"));

    let report = convert_with_all(TypeKey::TileEntity, &mut furnace, 4181, 4180);
    assert!(report.is_empty());
    assert!(matches!(furnace.get("BurnTime"), Some(NbtValue::Short(120))));
    assert!(matches!(furnace.get("CookTime"), Some(NbtValue::Short(5))));
    assert!(matches!(furnace.get("CookTimeTotal"), Some(NbtValue::Short(200))));
    assert!(!furnace.has_key("lit_total_time"));
}

#[test]
fn a_differing_total_burn_time_is_reported_on_the_way_down() {
    let mut smoker = NbtMap::new();
    smoker.set_string("id", "minecraft:smoker");
    smoker.set_i32("lit_time_remaining", 40);
    smoker.set_i32("lit_total_time", 300);
    let report = convert_with_all(TypeKey::TileEntity, &mut smoker, 4181, 4180);
    assert_eq!(report.len(), 1);
    assert_eq!(report.entries[0].kind, LossKind::FingerprintCollapse);
    assert_eq!(report.entries[0].severity, Severity::Loss);
    assert_eq!(smoker.get_i32("BurnTime"), Some(40));

    // Floating tags compare as numbers: a NaN never equals itself.
    let mut blast = NbtMap::new();
    blast.set_string("id", "minecraft:blast_furnace");
    blast.set_f32_bits("lit_time_remaining", f32::NAN.to_bits());
    blast.set_f32_bits("lit_total_time", f32::NAN.to_bits());
    let report = convert_with_all(TypeKey::TileEntity, &mut blast, 4181, 4180);
    assert_eq!(report.len(), 1);

    // And the two zeros are equal.
    let mut zero = NbtMap::new();
    zero.set_string("id", "minecraft:furnace");
    zero.set_f32_bits("lit_time_remaining", 0.0f32.to_bits());
    zero.set_f32_bits("lit_total_time", (-0.0f32).to_bits());
    let report = convert_with_all(TypeKey::TileEntity, &mut zero, 4181, 4180);
    assert!(report.is_empty());
}

fn words(u: &str) -> Vec<i32> {
    let hex: String = u.chars().filter(|c| *c != '-').collect();
    (0..4).map(|k| u32::from_str_radix(&hex[8 * k..8 * k + 8], 16).unwrap() as i32).collect()
}

#[test]
fn legacy_uuids_print_and_parse() {
    let w = words("736565d2-e1a7-403d-a3f8-1aeb3e302542");
    assert_eq!(make_uuid(&w), Some("736565d2-e1a7-403d-a3f8-1aeb3e302542".to_string()));
    assert_eq!(uuid_string_to_ints("736565d2-e1a7-403d-a3f8-1aeb3e302542"), Some(w));
    assert_eq!(make_uuid(&[1, 2, 3, 4]), Some("00000001-0000-0002-0000-000300000004".to_string()));
    assert_eq!(make_uuid(&[-1, -1, -1, -1]), Some("ffffffff-ffff-ffff-ffff-ffffffffffff".to_string()));
    assert_eq!(make_uuid(&[1, 2, 3]), None);
    assert_eq!(uuid_string_to_ints("FFFFFFFF-0000-0000-0000-000000000001"), Some(vec![-1, 0, 0, 1]));
    assert_eq!(uuid_string_to_ints("not-a-uuid"), None);
    assert_eq!(uuid_string_to_ints("0000000g-0000-0000-0000-000000000001"), None);
    assert_eq!(operation_str(1), "add_multiplied_base");
    assert_eq!(operation_str(9), "invalid");
}

fn modifier(uuid: Option<Vec<i32>>, name: &str, amount: f64, op: i32) -> NbtValue {
    let mut m = NbtMap::new();
    if let Some(u) = uuid {
        m.set("UUID", NbtValue::IntArray(u));
    }
    m.set_string("Name", name);
    m.set_f64_bits("Amount", amount.to_bits());
    m.set_i32("Operation", op);
    NbtValue::Compound(m)
}

#[test]
fn entity_attribute_modifiers_resolve_merge_and_come_back() {
    let mut attribute = NbtMap::new();
    attribute.set_string("Name", "minecraft:generic.max_health");
    attribute.set_f64_bits("Base", 20.0f64.to_bits());
    attribute.set_list(
        "Modifiers",
        vec![
            modifier(Some(words("736565d2-e1a7-403d-a3f8-1aeb3e302542")), "x", 1.5, 0),
            modifier(None, "Random spawn bonus", 0.25, 1),
            modifier(None, "Random spawn bonus", 0.5, 1),
            modifier(Some(vec![1, 2, 3, 4]), "custom", 2.0, 7),
        ],
    );
    let mut zombie = NbtMap::new();
    zombie.set_string("id", "minecraft:zombie");
    zombie.set_list("Attributes", vec![NbtValue::Compound(attribute)]);

    let report = convert_with_all(TypeKey::Entity, &mut zombie, 3944, 3945);
    assert!(report.is_empty());
    assert!(!zombie.has_key("Attributes"));
    let attrs = zombie.get_list("attributes").unwrap();
    let NbtValue::Compound(a) = &attrs[0] else { panic!("attribute") };
    assert_eq!(a.get_string("id"), Some("minecraft:generic.max_health"));
    assert!(a.has_key("base"));
    let mods = a.get_list("modifiers").unwrap();
    assert_eq!(mods.len(), 3);
    let NbtValue::Compound(m0) = &mods[0] else { panic!() };
    assert_eq!(m0.get_string("id"), Some("minecraft:creative_mode_block_range"));
    assert!(!m0.has_key("uuid") && !m0.has_key("name"));
    assert_eq!(m0.get_string("operation"), Some("add_value"));
    let NbtValue::Compound(m1) = &mods[1] else { panic!() };
    assert_eq!(m1.get_string("id"), Some("minecraft:random_spawn_bonus"));
    assert_eq!(m1.get_f64("amount"), Some(0.75f64.to_bits()));
    assert_eq!(m1.get_string("operation"), Some("add_multiplied_base"));
    let NbtValue::Compound(m2) = &mods[2] else { panic!() };
    assert_eq!(m2.get_string("id"), Some("minecraft:00000001-0000-0002-0000-000300000004"));
    assert_eq!(m2.get_string("name"), Some("custom"));
    assert_eq!(m2.get_string("operation"), Some("invalid"));

    let report = convert_with_all(TypeKey::Entity, &mut zombie, 3945, 3944);
    assert_eq!(report.len(), 3);
    assert_eq!(report.entries[0].kind, LossKind::RenameAmbiguous);
    assert_eq!(report.entries[1].kind, LossKind::FingerprintCollapse);
    assert_eq!(report.entries[2].kind, LossKind::Other);
    assert_eq!(report.loss_count(), 2);
    let attrs = zombie.get_list("Attributes").unwrap();
    let NbtValue::Compound(a) = &attrs[0] else { panic!("attribute") };
    assert_eq!(a.get_string("Name"), Some("minecraft:generic.max_health"));
    let mods = a.get_list("Modifiers").unwrap();
    let NbtValue::Compound(m0) = &mods[0] else { panic!() };
    assert!(matches!(m0.get("UUID"), Some(NbtValue::IntArray(w)) if *w == words("736565d2-e1a7-403d-a3f8-1aeb3e302542")));
    assert_eq!(m0.get_i32("Operation"), Some(0));
    let NbtValue::Compound(m1) = &mods[1] else { panic!() };
    assert_eq!(m1.get_string("Name"), Some("Random spawn bonus"));
    assert_eq!(m1.get_i32("Operation"), Some(1));
    let NbtValue::Compound(m2) = &mods[2] else { panic!() };
    assert!(matches!(m2.get("UUID"), Some(NbtValue::IntArray(w)) if *w == vec![1, 2, 3, 4]));
    assert_eq!(m2.get_i32("Operation"), Some(0));
    assert!(!m2.has_key("id"));
}

#[test]
fn a_jukebox_keeps_only_how_long_it_has_played() {
    let mut jukebox = NbtMap::new();
    jukebox.set_string("id", "minecraft:jukebox");
    jukebox.set_bool("IsPlaying", true);
    jukebox.set_i64("TickCount", 100);
    jukebox.set_i64("RecordStartTick", 40);
    let report = convert_with_all(TypeKey::TileEntity, &mut jukebox, 3944, 3945);
    assert!(report.is_empty());
    assert_eq!(jukebox.get_i64("ticks_since_song_started"), Some(60));
    assert!(!jukebox.has_key("TickCount") && !jukebox.has_key("IsPlaying"));

    let report = convert_with_all(TypeKey::TileEntity, &mut jukebox, 3945, 3944);
    assert_eq!(report.len(), 1);
    assert_eq!(jukebox.get_i64("TickCount"), Some(60));
    assert_eq!(jukebox.get_i64("RecordStartTick"), Some(0));
    assert_eq!(jukebox.get_bool("IsPlaying"), Some(true));

    let mut idle = NbtMap::new();
    idle.set_string("id", "minecraft:jukebox");
    idle.set_i64("TickCount", 10);
    idle.set_i64("RecordStartTick", 40);
    convert_with_all(TypeKey::TileEntity, &mut idle, 3944, 3945);
    assert!(!idle.has_key("ticks_since_song_started"));
}

#[test]
fn item_attribute_modifiers_are_remapped() {
    let mut list = Vec::new();
    let mut m = NbtMap::new();
    m.set("uuid", NbtValue::IntArray(words("91aeaa56-376b-4498-935b-2f7f68070635")));
    m.set_string("name", "speed");
    m.set_f64_bits("amount", 0.2f64.to_bits());
    list.push(NbtValue::Compound(m));
    let mut am = NbtMap::new();
    am.set_list("modifiers", list);
    let mut components = NbtMap::new();
    components.set_map("minecraft:attribute_modifiers", am);
    let mut item = NbtMap::new();
    item.set_string("id", "minecraft:stick");
    item.set_map("components", components);
    convert_with_all(TypeKey::ItemStack, &mut item, 3944, 3945);
    let mods = item.get_map("components").unwrap().get_map("minecraft:attribute_modifiers").unwrap().get_list("modifiers").unwrap();
    let NbtValue::Compound(m0) = &mods[0] else { panic!() };
    assert_eq!(m0.get_string("id"), Some("minecraft:effect.speed"));
    assert!(!m0.has_key("uuid") && !m0.has_key("name"));
    let report = convert_with_all(TypeKey::ItemStack, &mut item, 3945, 3944);
    assert_eq!(report.len(), 1);
    let mods = item.get_map("components").unwrap().get_map("minecraft:attribute_modifiers").unwrap().get_list("modifiers").unwrap();
    let NbtValue::Compound(m0) = &mods[0] else { panic!() };
    assert!(m0.has_key("uuid"));
    assert!(!m0.has_key("id"));
}
