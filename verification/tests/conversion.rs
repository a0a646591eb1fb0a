use nucleation::dataconverter::versions::v4292::convert_component_reverse;
use nucleation::dataconverter::registry::{
    convert_block_state_reverse, convert_entity_reverse, convert_item_stack_reverse, convert_with_all, TypeKey,
};
use nucleation::loss::{LossKind, LossReport, Severity};
use nucleation::nbt::{NbtMap, NbtValue};

#[test]
fn reverse_non_awake_creaking_heart_reports_collapsed_active_value() {
    let mut data = NbtMap::new();
    data.set_string("Name", "minecraft:creaking_heart");
    let mut properties = NbtMap::new();
    properties.set_string("creaking_heart_state", "uprooted");
    data.set_map("Properties", properties);

    let report = convert_block_state_reverse(&mut data, 4294, 4293);

    assert_eq!(report.len(), 1);
    assert_eq!(report.entries[0].kind, LossKind::FingerprintCollapse);
    assert_eq!(data.get_map("Properties").unwrap().get_string("active"), Some("false"));
}

#[test]
fn reverse_non_default_locator_bar_icon_style_reports_and_drops() {
    let mut data = NbtMap::new();
    data.set_string("id", "minecraft:pig");
    let mut icon = NbtMap::new();
    icon.set_string("style", "minecraft:fancy");
    data.set_map("locator_bar_icon", icon);

    let report = convert_entity_reverse(&mut data, 4424, 4423);

    assert_eq!(report.loss_count(), 1);
    assert!(!data.get_map("locator_bar_icon").unwrap().has_key("style"));
}

#[test]
fn reverse_unknown_copper_golem_weather_state_reports() {
    let mut data = NbtMap::new();
    data.set_string("id", "minecraft:copper_golem");
    data.set_string("weather_state", "stormy");

    let report = convert_entity_reverse(&mut data, 4535, 4534);

    assert_eq!(report.loss_count(), 1);
    assert_eq!(data.get_i32("weather_state"), Some(0));
}

#[test]
fn reverse_plain_zombie_type_zero_restores_plain_zombie() {
    let mut zombie = NbtMap::new();
    zombie.set_string("id", "Zombie");
    zombie.set_i32("ZombieType", 0);

    let report = convert_entity_reverse(&mut zombie, 502, 501);

    assert_eq!(zombie.get_bool("IsVillager"), Some(false));
    assert!(!zombie.has_key("ZombieType"));
    assert_eq!(report.len(), 1);
    assert_eq!(report.loss_count(), 0);
}

#[test]
fn reverse_water_potion_prunes_empty_tag() {
    let mut tag = NbtMap::new();
    tag.set_string("Potion", "minecraft:water");
    let mut item = NbtMap::new();
    item.set_string("id", "minecraft:potion");
    item.set_map("tag", tag);

    let report = convert_item_stack_reverse(&mut item, 806, 805);

    assert!(!item.has_key("tag"));
    assert_eq!(report.len(), 1);
    assert_eq!(report.loss_count(), 0);
}

#[test]
fn reverse_pig_custom_saddle_and_drop_chance_reports_losses() {
    let mut data = NbtMap::new();
    data.set_string("id", "minecraft:pig");
    let mut saddle = NbtMap::new();
    saddle.set_string("id", "minecraft:diamond");
    saddle.set_i32("count", 2);
    data.set_map("saddle", saddle);
    let mut chances = NbtMap::new();
    chances.set_f32_bits("saddle", 0.5f32.to_bits());
    data.set_map("drop_chances", chances);

    let report = convert_entity_reverse(&mut data, 4300, 4299);

    assert_eq!(report.loss_count(), 2);
    assert_eq!(data.get_bool("Saddle"), Some(true));
    assert!(data.get_map("drop_chances").is_none());
}

#[test]
fn reverse_equipment_reports_non_compound_and_unknown_slots() {
    let mut data = NbtMap::new();
    let mut equipment = NbtMap::new();
    equipment.set_string("head", "not an item");
    equipment.set_string("unknown_slot", "extra");
    data.set_map("equipment", equipment);

    let report = convert_with_all(TypeKey::EntityEquipment, &mut data, 4301, 4300);

    assert_eq!(report.loss_count(), 2);
    assert!(data.get_map("equipment").is_none());
    assert!(data.get_list("ArmorItems").is_some());
}

#[test]
fn forward_zombie_villager_gets_a_profession_type() {
    let mut zombie = NbtMap::new();
    zombie.set_string("id", "Zombie");
    zombie.set_bool("IsVillager", true);
    zombie.set_i32("VillagerProfession", 3);

    let report = convert_entity_reverse(&mut zombie, 501, 502);

    assert!(report.is_empty());
    assert!(!zombie.has_key("IsVillager"));
    assert_eq!(zombie.get_i32("ZombieType"), Some(3));
}

#[test]
fn forward_zombie_villager_without_profession_rolls_one() {
    let mut zombie = NbtMap::new();
    zombie.set_string("id", "Zombie");
    zombie.set_bool("IsVillager", true);

    convert_entity_reverse(&mut zombie, 501, 502);

    let t = zombie.get_i32("ZombieType").unwrap();
    assert!((0..6).contains(&t));
}

#[test]
fn reverse_husk_type_is_a_loss() {
    let mut zombie = NbtMap::new();
    zombie.set_string("id", "Zombie");
    zombie.set_i32("ZombieType", 6);

    let report = convert_entity_reverse(&mut zombie, 502, 501);

    assert_eq!(report.loss_count(), 1);
    assert_eq!(report.entries[0].kind, LossKind::UnsupportedInTarget);
    assert_eq!(report.entries[0].severity, Severity::Loss);
    assert_eq!(zombie.get_bool("IsVillager"), Some(false));
}

#[test]
fn reverse_out_of_range_zombie_type_names_the_value() {
    let mut zombie = NbtMap::new();
    zombie.set_string("id", "Zombie");
    zombie.set_i32("ZombieType", -12);

    let report = convert_entity_reverse(&mut zombie, 502, 501);

    assert_eq!(report.loss_count(), 1);
    assert!(report.entries[0].message.starts_with("ZombieType=-12 "));
}

#[test]
fn forward_then_reverse_pig_saddle_round_trips() {
    let mut pig = NbtMap::new();
    pig.set_string("id", "minecraft:pig");
    pig.set_bool("Saddle", true);

    convert_entity_reverse(&mut pig, 4299, 4300);
    assert!(!pig.has_key("Saddle"));
    let saddle = pig.get_map("saddle").unwrap();
    assert_eq!(saddle.get_string("id"), Some("minecraft:saddle"));
    assert_eq!(saddle.get_i32("count"), Some(1));
    let chances = pig.get_map("drop_chances").unwrap();
    assert!(matches!(chances.get("saddle"), Some(NbtValue::Float(b)) if f32::from_bits(*b) == 2.0));

    let report = convert_entity_reverse(&mut pig, 4300, 4299);
    assert!(report.is_empty());
    assert_eq!(pig.get_bool("Saddle"), Some(true));
    assert!(!pig.has_key("saddle"));
    assert!(!pig.has_key("drop_chances"));
}

#[test]
fn forward_folds_equipment_and_drops_empty_slots() {
    let mut data = NbtMap::new();
    let mut boots = NbtMap::new();
    boots.set_string("id", "minecraft:iron_boots");
    let armor = vec![
        NbtValue::Compound(boots),
        NbtValue::Compound(NbtMap::new()),
        NbtValue::Compound(NbtMap::new()),
        NbtValue::Compound(NbtMap::new()),
    ];
    data.set_list("ArmorItems", armor);
    data.set_list("HandItems", vec![NbtValue::Compound(NbtMap::new()), NbtValue::Compound(NbtMap::new())]);

    let report = convert_with_all(TypeKey::EntityEquipment, &mut data, 4300, 4301);

    assert!(report.is_empty());
    assert!(!data.has_key("ArmorItems"));
    assert!(!data.has_key("HandItems"));
    let equipment = data.get_map("equipment").unwrap();
    assert_eq!(equipment.len(), 1);
    assert_eq!(equipment.get_map("feet").unwrap().get_string("id"), Some("minecraft:iron_boots"));
}

#[test]
fn a_report_counts_only_losses() {
    let mut r = LossReport::new();
    nucleation::loss::report(&mut r, 1, LossKind::Other, Severity::Approximated, "a");
    nucleation::loss::report(&mut r, 1, LossKind::Other, Severity::Loss, "b");
    assert_eq!(r.len(), 2);
    assert_eq!(r.loss_count(), 1);
    assert!(!r.is_empty());
}

#[test]
fn reverse_tooltip_display_reports_unknown_and_subset_hidden_components() {
    let mut root = NbtMap::new();
    root.set_list("minecraft:bees", Vec::new());
    root.set_list("minecraft:bundle_contents", Vec::new());
    let mut tooltip = NbtMap::new();
    tooltip.set_bool("hide_tooltip", false);
    tooltip.set_list(
        "hidden_components",
        vec![
            NbtValue::String("minecraft:bees".to_string()),
            NbtValue::String("minecraft:unknown_component".to_string()),
        ],
    );
    root.set_map("minecraft:tooltip_display", tooltip);

    let report = convert_with_all(TypeKey::DataComponents, &mut root, 4307, 4306);

    assert_eq!(report.loss_count(), 1);
    assert_eq!(report.len(), 2);
    assert!(root.has_key("minecraft:hide_additional_tooltip"));
}

#[test]
fn forward_tooltip_flags_move_into_the_display() {
    let mut root = NbtMap::new();
    let mut trim = NbtMap::new();
    trim.set_bool("show_in_tooltip", false);
    trim.set_string("pattern", "minecraft:coast");
    root.set_map("minecraft:trim", trim);
    let mut dyed = NbtMap::new();
    dyed.set_i32("rgb", 255);
    root.set_map("minecraft:dyed_color", dyed);
    root.set_map("minecraft:hide_tooltip", NbtMap::new());

    let report = convert_with_all(TypeKey::DataComponents, &mut root, 4306, 4307);

    assert!(report.is_empty());
    assert_eq!(root.get_i32("minecraft:dyed_color"), Some(255));
    assert!(!root.get_map("minecraft:trim").unwrap().has_key("show_in_tooltip"));
    assert!(!root.has_key("minecraft:hide_tooltip"));
    let display = root.get_map("minecraft:tooltip_display").unwrap();
    assert_eq!(display.get_bool("hide_tooltip"), Some(true));
    let hidden = display.get_list("hidden_components").unwrap();
    assert_eq!(hidden.len(), 1);
    assert!(matches!(&hidden[0], NbtValue::String(s) if s == "minecraft:trim"));
}

#[test]
fn forward_shulker_box_color_picks_the_colored_id() {
    let mut be = NbtMap::new();
    be.set_i32("Color", 17);
    let mut tag = NbtMap::new();
    tag.set_map("BlockEntityTag", be);
    let mut item = NbtMap::new();
    item.set_string("id", "minecraft:shulker_box");
    item.set_map("tag", tag);

    convert_item_stack_reverse(&mut item, 812, 813);

    assert_eq!(item.get_string("id"), Some("minecraft:orange_shulker_box"));
    assert!(!item.get_map("tag").unwrap().get_map("BlockEntityTag").unwrap().has_key("Color"));

    // Back down: the item id gives the color back, but the block entity walk
    // that follows runs the block entity's own reverse, which has no color
    // to go by and restores white with a report.
    let report = convert_item_stack_reverse(&mut item, 813, 812);
    assert_eq!(report.len(), 1);
    assert_eq!(report.loss_count(), 0);
    assert_eq!(report.entries[0].kind, LossKind::FingerprintCollapse);
    assert_eq!(report.entries[0].severity, Severity::Approximated);
    assert_eq!(item.get_string("id"), Some("minecraft:shulker_box"));
    let be = item.get_map("tag").unwrap().get_map("BlockEntityTag").unwrap();
    assert_eq!(be.get_i32("Color"), Some(0));
    assert_eq!(be.get_string("id"), Some("minecraft:shulker_box"));
}

#[test]
fn a_horse_type_becomes_its_id_and_back() {
    let mut horse = NbtMap::new();
    horse.set_string("id", "EntityHorse");
    horse.set_i32("Type", 2);

    convert_entity_reverse(&mut horse, 702, 703);
    assert_eq!(horse.get_string("id"), Some("Mule"));
    assert!(!horse.has_key("Type"));

    convert_entity_reverse(&mut horse, 703, 702);
    assert_eq!(horse.get_string("id"), Some("EntityHorse"));
    assert_eq!(horse.get_i32("Type"), Some(2));
}

#[test]
fn a_banner_base_moves_into_damage_and_the_containers_are_pruned() {
    let mut be = NbtMap::new();
    be.set_i32("Base", 0x1b);
    let mut tag = NbtMap::new();
    tag.set_map("BlockEntityTag", be);
    let mut item = NbtMap::new();
    item.set_string("id", "minecraft:banner");
    item.set_map("tag", tag);

    convert_item_stack_reverse(&mut item, 803, 804);

    assert_eq!(item.get_i32("Damage"), Some(11));
    assert!(!item.has_key("tag"));
}

#[test]
fn reverse_show_item_id_only_reports_string_map_collapse() {
    let mut component = NbtMap::new();
    let mut hover = NbtMap::new();
    hover.set_string("action", "show_item");
    hover.set_string("id", "minecraft:stone");
    component.set_map("hover_event", hover);

    let mut report = LossReport::new();
    convert_component_reverse(&mut component, &mut report);

    assert_eq!(report.len(), 1);
    assert_eq!(report.entries[0].kind, LossKind::FingerprintCollapse);
    let hover = component.get_map("hoverEvent").unwrap();
    let contents = hover.get_map("contents").unwrap();
    assert_eq!(contents.get_string("id"), Some("minecraft:stone"));
}

#[test]
fn reverse_precise_double_fall_distance_reports_float_narrowing() {
    let mut data = NbtMap::new();
    data.set_string("id", "minecraft:pig");
    data.set_f64_bits("fall_distance", 1.0000000000000002f64.to_bits());

    let report = convert_entity_reverse(&mut data, 4303, 4302);

    assert_eq!(report.len(), 1);
    assert_eq!(report.entries[0].kind, LossKind::FingerprintCollapse);
    assert!(data.has_key("FallDistance"));
}

#[test]
fn reverse_exact_fall_distance_narrows_without_a_report() {
    let mut data = NbtMap::new();
    data.set_string("id", "minecraft:pig");
    data.set_f64_bits("fall_distance", 1.5f64.to_bits());

    let report = convert_entity_reverse(&mut data, 4303, 4302);

    assert_eq!(report.len(), 0);
    assert!(data.has_key("FallDistance"));
    assert!(!data.has_key("fall_distance"));
}

#[test]
fn a_villager_zombie_converted_up_and_back_is_unchanged() {
    let mut zombie = NbtMap::new();
    zombie.set_string("id", "Zombie");
    zombie.set_bool("IsVillager", true);
    zombie.set_i32("VillagerProfession", 4);

    let up = convert_entity_reverse(&mut zombie, 501, 502);
    let down = convert_entity_reverse(&mut zombie, 502, 501);

    assert!(up.is_empty());
    assert!(down.is_empty());
    assert_eq!(zombie.get_bool("IsVillager"), Some(true));
    assert_eq!(zombie.get_i32("VillagerProfession"), Some(4));
    assert!(!zombie.has_key("ZombieType"));
    assert_eq!(zombie.get_string("id"), Some("Zombie"));
}

#[test]
fn a_husk_reverse_says_why_it_is_lost() {
    let mut zombie = NbtMap::new();
    zombie.set_string("id", "Zombie");
    zombie.set_i32("ZombieType", 6);

    let report = convert_entity_reverse(&mut zombie, 502, 501);

    assert_eq!(
        report.entries[0].message,
        "Husk/ZombieType=6 has no pre-V502 representation; restoring plain zombie"
    );
}

#[test]
fn an_unknown_weather_state_is_named_in_the_report() {
    let mut data = NbtMap::new();
    data.set_string("id", "minecraft:copper_golem");
    data.set_string("weather_state", "stormy");

    let report = convert_entity_reverse(&mut data, 4535, 4534);

    assert_eq!(report.len(), 1);
    assert_eq!(
        report.entries[0].message,
        "unknown copper_golem weather_state \"stormy\"; restoring legacy unaffected state"
    );
}

#[test]
fn a_turtle_reverse_reports_its_travel_target() {
    let mut data = NbtMap::new();
    data.set_string("id", "minecraft:turtle");

    let report = convert_entity_reverse(&mut data, 4314, 4313);

    assert_eq!(report.len(), 1);
    assert_eq!(
        report.entries[0].message,
        "turtle TravelPosX/Y/Z was dropped on upgrade and cannot be restored"
    );
}
