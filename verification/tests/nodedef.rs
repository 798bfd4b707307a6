use bridgetest::nodedef::{
    block_light_source, contains_id, item_kind, item_usable, node_features, AlphaMode, ItemKind,
    NodeDrawType,
};

#[test]
fn water_flows_and_lets_light_through() {
    let f = node_features("minecraft:water", NodeDrawType::Liquid);
    assert_eq!(f.liquid_range, 7);
    assert_eq!(f.liquid_viscosity, 0);
    assert!(f.liquid_renewable);
    assert!(f.animated);
    assert!(f.sunlight_propagates);
    assert!(!f.pointable);
    assert!(!f.diggable);
    assert!(!f.walkable);
    assert_eq!(f.alpha, AlphaMode::LegacyCompat);
    assert!(f.liquid_move_physics);
}

#[test]
fn lava_is_viscous_and_bright() {
    let f = node_features("minecraft:lava", NodeDrawType::Liquid);
    assert_eq!(f.liquid_range, 4);
    assert_eq!(f.liquid_viscosity, 1);
    assert!(!f.liquid_renewable);
    assert_eq!(f.light_source, 15);
}

#[test]
fn solid_blocks() {
    let stone = node_features("minecraft:stone", NodeDrawType::Normal);
    assert!(stone.walkable && stone.pointable && stone.diggable && stone.buildable_to);
    assert!(!stone.sunlight_propagates);
    assert_eq!(stone.waving, 0);
    assert_eq!(stone.alpha, AlphaMode::Opaque);
    let bedrock = node_features("minecraft:bedrock", NodeDrawType::Normal);
    assert!(!bedrock.diggable);
    let chest = node_features("minecraft:chest", NodeDrawType::NodeBox);
    assert!(chest.rightclickable && !chest.buildable_to && chest.nodebox_scaled);
}

#[test]
fn plants_and_leaves_wave() {
    let flower = node_features("minecraft:poppy", NodeDrawType::PlantLike);
    assert_eq!(flower.waving, 100);
    assert_eq!(flower.alpha, AlphaMode::Blend);
    assert!(!flower.backface_culling);
    let leaves = node_features("minecraft:oak_leaves", NodeDrawType::AllFaces);
    assert_eq!(leaves.waving, 100);
    assert!(leaves.backface_culling);
}

#[test]
fn light_sources() {
    assert_eq!(block_light_source("minecraft:torch"), 14);
    assert_eq!(block_light_source("minecraft:jack_o_lantern"), 15);
    assert_eq!(block_light_source("minecraft:furnace"), 13);
    assert_eq!(block_light_source("minecraft:magma_block"), 3);
    assert_eq!(block_light_source("minecraft:dirt"), 0);
}

#[test]
fn item_kinds() {
    assert_eq!(item_kind(true, true), ItemKind::Tool);
    assert_eq!(item_kind(false, true), ItemKind::Node);
    assert_eq!(item_kind(false, false), ItemKind::Craft);
    assert!(item_usable(ItemKind::Craft, true));
    assert!(!item_usable(ItemKind::Craft, false));
    assert!(item_usable(ItemKind::Node, false));
    assert!(contains_id(&vec![3, 5, 8], 5));
    assert!(!contains_id(&vec![3, 5, 8], 4));
}

#[test]
fn item_definition_traits() {
    let t = bridgetest::nodedef::item_traits(64, false, true, false);
    assert_eq!(t.kind, ItemKind::Node);
    assert!(t.usable && t.building_block);
    assert_eq!(t.stack_max, 64);
    let sword = bridgetest::nodedef::item_traits(1, true, false, false);
    assert_eq!(sword.kind, ItemKind::Tool);
    assert!(sword.usable && !sword.building_block);
    let apple = bridgetest::nodedef::item_traits(64, false, false, true);
    assert_eq!(apple.kind, ItemKind::Craft);
    assert!(apple.usable);
    assert_eq!(bridgetest::nodedef::item_traits(70000, false, false, false).stack_max, 70000u32 as i16);
}
