use bridgetest::containers::{
    affordable_enchantments, enchantment_display, form_field_action, handle_form_fields,
    matching_stonecutter_recipes, open_container, property, selectable_loom_patterns,
    BannerPatterns, ContainerState, FormAction, MenuKind, StonecutterInput, StonecutterRecipe,
    CONTAINER_FORM_NAME,
};
use std::collections::HashMap;

fn props(pairs: &[(u16, u16)]) -> HashMap<u16, u16> {
    pairs.iter().copied().collect()
}

#[test]
fn missing_property_is_zero() {
    let p = props(&[(2, 40)]);
    assert_eq!(property(&p, 2), 40);
    assert_eq!(property(&p, 3), 0);
}

#[test]
fn stale_container_ids_are_ignored() {
    let c = Some(ContainerState::new(4, MenuKind::Furnace, String::from("Furnace")));
    assert_eq!(open_container(&c, 4).map(|x| x.id), Some(4));
    assert!(open_container(&c, 5).is_none());
    assert!(open_container(&None, 4).is_none());
}

#[test]
fn property_updates_and_progress() {
    let mut c = ContainerState::new(1, MenuKind::BrewingStand, String::from("Brewing"));
    c.set_property(0, 400);
    assert_eq!(property(&c.properties, 0), 400);
    assert!(c.progress_changed(vec![3, 4]));
    assert!(!c.progress_changed(vec![3, 4]));
    assert!(c.progress_changed(vec![3, 5]));
    assert!(c.progress_changed(vec![]));
}

#[test]
fn enchantment_affordability() {
    let p = props(&[(0, 1), (1, 5), (2, 30)]);
    assert_eq!(affordable_enchantments(false, 10, 2, &p), [true, true, false]);
    assert_eq!(affordable_enchantments(false, 40, 1, &p), [true, false, false]);
    assert_eq!(affordable_enchantments(true, 0, 0, &p), [true, true, true]);
}

#[test]
fn enchantment_display_values() {
    let p = props(&[(0, 1), (2, 3), (3, 99), (4, 7), (9, 2)]);
    assert_eq!(enchantment_display(&p), vec![1, 0, 3, 7, 0, 0, 0, 0, 2]);
}

#[test]
fn form_field_actions() {
    assert_eq!(form_field_action("trade_3", None), Some(FormAction::SelectTrade(3)));
    assert_eq!(form_field_action("trade_x", Some(1)), None);
    assert_eq!(form_field_action("enchant_2", Some(9)), Some(FormAction::ClickButton(9, 2)));
    assert_eq!(form_field_action("stonecut_11", Some(9)), Some(FormAction::ClickButton(9, 11)));
    assert_eq!(form_field_action("loom_0", Some(9)), Some(FormAction::ClickButton(9, 0)));
    assert_eq!(form_field_action("loom_0", None), None);
    assert_eq!(form_field_action("beacon_5", None), Some(FormAction::SetBeacon(5)));
    assert_eq!(form_field_action("beacon_6", None), None);
    assert_eq!(form_field_action("trade_+4", None), Some(FormAction::SelectTrade(4)));
    assert_eq!(form_field_action("trade_4294967296", None), None);
    assert_eq!(form_field_action("other", Some(1)), None);
}

#[test]
fn form_submissions() {
    let fields = vec![String::from("trade_1"), String::from("x"), String::from("beacon_0")];
    assert_eq!(
        handle_form_fields(CONTAINER_FORM_NAME, &fields, None),
        vec![FormAction::SelectTrade(1), FormAction::SetBeacon(0)]
    );
    assert!(handle_form_fields("inventory", &fields, None).is_empty());
    let quit = vec![String::from("trade_1"), String::from("quit")];
    assert_eq!(handle_form_fields(CONTAINER_FORM_NAME, &quit, Some(2)), vec![FormAction::Close]);
}

fn recipe(input: StonecutterInput, display: &str) -> StonecutterRecipe {
    StonecutterRecipe { input, display: display.to_string() }
}

#[test]
fn stonecutter_keeps_matching_recipes_in_order() {
    let recipes = vec![
        recipe(StonecutterInput::Items(vec![1, 2]), "minecraft:stone_slab 2"),
        recipe(StonecutterInput::Tag, "minecraft:stone_stairs 1"),
        recipe(StonecutterInput::Items(vec![3]), "minecraft:granite_slab 2"),
        recipe(StonecutterInput::Items(vec![2]), "minecraft:stone_bricks 1"),
    ];
    let shown: Vec<&str> = matching_stonecutter_recipes(&recipes, Some(2))
        .iter()
        .map(|r| r.display.as_str())
        .collect();
    assert_eq!(shown, vec!["minecraft:stone_slab 2", "minecraft:stone_bricks 1"]);
    assert!(matching_stonecutter_recipes(&recipes, Some(9)).is_empty());
}

#[test]
fn stonecutter_without_input_offers_nothing() {
    let recipes = vec![recipe(StonecutterInput::Items(vec![1]), "minecraft:stone_slab 2")];
    assert!(matching_stonecutter_recipes(&recipes, None).is_empty());
}

fn patterns() -> BannerPatterns {
    BannerPatterns {
        no_item_required: vec!["stripe_top".to_string(), "border".to_string()],
        pattern_items: vec![
            ("minecraft:creeper_banner_pattern".to_string(), vec!["creeper".to_string()]),
            ("minecraft:flower_banner_pattern".to_string(), vec!["flower".to_string()]),
        ],
    }
}

#[test]
fn loom_needs_banner_and_dye() {
    let data = patterns();
    assert!(selectable_loom_patterns(&data, false, true, None).is_empty());
    assert!(selectable_loom_patterns(&data, true, false, None).is_empty());
    assert_eq!(selectable_loom_patterns(&data, true, true, None), vec!["stripe_top", "border"]);
}

#[test]
fn loom_pattern_item_unlocks_its_patterns() {
    let data = patterns();
    assert_eq!(
        selectable_loom_patterns(&data, true, true, Some("minecraft:flower_banner_pattern")),
        vec!["flower"]
    );
    assert!(selectable_loom_patterns(&data, true, true, Some("minecraft:stick")).is_empty());
}

#[test]
fn stonecutter_form_reshown_when_input_changes() {
    let mut c = ContainerState::new(3, MenuKind::Stonecutter, "Stonecutter".to_string());
    assert!(c.update_options(Some(7), Vec::new()));
    assert_eq!(c.stonecutter_input, Some(7));
    assert!(!c.update_options(Some(7), Vec::new()));
    assert!(c.update_options(None, Vec::new()));
}

#[test]
fn option_change_on_other_containers_needs_no_reshow() {
    let mut c = ContainerState::new(3, MenuKind::Furnace, "Furnace".to_string());
    assert!(!c.update_options(None, vec!["border".to_string()]));
    assert_eq!(c.loom_patterns, vec!["border".to_string()]);
    let mut l = ContainerState::new(4, MenuKind::Loom, "Loom".to_string());
    assert!(l.update_options(None, vec!["border".to_string()]));
    assert!(!l.update_options(None, vec!["border".to_string()]));
}

#[test]
fn enchanting_form_reshown_when_affordability_changes() {
    let mut c = ContainerState::new(5, MenuKind::Enchantment, "Enchant".to_string());
    assert!(!c.update_affordable([false, false, false]));
    assert!(c.update_affordable([true, false, false]));
    assert_eq!(c.last_shown_affordable, [true, false, false]);
    let mut f = ContainerState::new(6, MenuKind::Furnace, "Furnace".to_string());
    assert!(!f.update_affordable([true, true, true]));
    assert_eq!(f.last_shown_affordable, [false, false, false]);
}
