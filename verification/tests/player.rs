use bridgetest::player::{
    edit_airbar, edit_foodbar, edit_healthbar, effect_ended, effect_icon, effect_started,
    get_random_username, health_update, movement_for_keys, player_name, speed_mode, update_effects,
    username_choice, username_from, BarEffect, BarStyle, EffectIcon, FoodDisplay, HeartDisplay,
    InputState, InteractKind, Movement, NodeAction, SpeedMode, SprintDirection, UsernameChoice,
    WalkDirection,
};

#[test]
fn healthbar_texture_and_number() {
    let u = edit_healthbar(HeartDisplay::Wither, 7);
    assert_eq!(u.texture.as_deref(), Some("gui-sprites-hud-heart-withered_full.png"));
    assert_eq!(u.number, Some(7));
    let u = edit_healthbar(HeartDisplay::NoChange, 20);
    assert!(u.texture.is_none());
    assert_eq!(u.number, Some(20));
    let u = edit_healthbar(HeartDisplay::NoChange, 21);
    assert_eq!(u.number, None);
    let u = edit_healthbar(HeartDisplay::HardcoreNormal, 19);
    assert_eq!(u.texture.as_deref(), Some("gui-sprites-hud-heart-hardcore_full.png"));
    assert_eq!(u.number, Some(19));
}

#[test]
fn foodbar_texture_and_number() {
    let u = edit_foodbar(FoodDisplay::Hunger, 20);
    assert_eq!(u.texture.as_deref(), Some("gui-sprites-hud-food_full_hunger.png"));
    assert_eq!(u.number, Some(20));
    assert_eq!(edit_foodbar(FoodDisplay::NoChange, 21).number, None);
    assert_eq!(edit_foodbar(FoodDisplay::Normal, 0).texture.as_deref(), Some("gui-sprites-hud-food_full.png"));
}

#[test]
fn airbar_rounding() {
    assert_eq!(edit_airbar(7, 7), (6, None));
    assert_eq!(edit_airbar(7, 9), (6, Some(8)));
    assert_eq!(edit_airbar(8, 7), (8, None));
    assert_eq!(edit_airbar(20, 0), (20, Some(20)));
}

#[test]
fn damage_flash_only_when_health_drops() {
    assert_eq!(health_update(20, 15), (15, Some(true)));
    assert_eq!(health_update(15, 15), (15, None));
    assert_eq!(health_update(10, 15), (15, None));
}

#[test]
fn usernames() {
    assert_eq!(username_from(0, 7), "Aradia_Megido007");
    assert_eq!(username_from(25, 999), "Jade_English999");
    assert_eq!(username_from(12, 42), "John_Egbert042");
    let r = get_random_username();
    let digits = &r[r.len() - 3..];
    assert!(digits.chars().all(|c| c.is_ascii_digit()));
    assert_eq!(username_choice("random", true, false), UsernameChoice::Random);
    assert_eq!(username_choice("random", true, true), UsernameChoice::RandomRefused);
    assert_eq!(username_choice("random", false, false), UsernameChoice::RandomRefused);
    assert_eq!(username_choice("alice", true, false), UsernameChoice::AsGiven);
    assert_eq!(player_name("alice", true, false), "alice");
    assert_eq!(player_name("random", false, false), "random");
    assert_ne!(player_name("random", true, false), "random");
}

#[test]
fn keys_to_movement() {
    assert_eq!(movement_for_keys(0b0001), Movement::Walk(WalkDirection::Forward));
    assert_eq!(movement_for_keys(0b0101), Movement::Walk(WalkDirection::ForwardLeft));
    assert_eq!(movement_for_keys(0b1001), Movement::Walk(WalkDirection::ForwardRight));
    assert_eq!(movement_for_keys(0b0010), Movement::Walk(WalkDirection::Backward));
    assert_eq!(movement_for_keys(0b0110), Movement::Walk(WalkDirection::BackwardLeft));
    assert_eq!(movement_for_keys(0b0100), Movement::Walk(WalkDirection::Left));
    assert_eq!(movement_for_keys(0b1000), Movement::Walk(WalkDirection::Right));
    assert_eq!(movement_for_keys(0b1100), Movement::Walk(WalkDirection::Still));
    assert_eq!(movement_for_keys(0b0011), Movement::Walk(WalkDirection::Still));
    assert_eq!(movement_for_keys(32 | 1), Movement::Sprint(SprintDirection::Forward));
    assert_eq!(movement_for_keys(32 | 0b0101), Movement::Sprint(SprintDirection::ForwardLeft));
    assert_eq!(movement_for_keys(32 | 0b0010), Movement::Walk(WalkDirection::Still));
}

#[test]
fn attack_on_rising_dig_edge_only() {
    let mut s = InputState::new();
    let a = s.on_keys(128);
    assert!(a.attack);
    assert_eq!(a.movement, Some(Movement::Walk(WalkDirection::Still)));
    let a = s.on_keys(128);
    assert!(!a.attack);
    assert_eq!(a.movement, None);
    s.on_keys(0);
    assert!(s.on_keys(128).attack);
}

#[test]
fn digging_press_does_not_attack() {
    let mut s = InputState::new();
    s.on_keys(0);
    let r = s.interact_node(InteractKind::StartDigging, (3, 4, 5), (3, 5, 5), false);
    assert_eq!(r, NodeAction::StartMining(-4, 4, 5));
    assert!(!s.on_keys(128).attack);
    // released, and still released at the next update: attacking re-arms
    s.on_keys(0);
    s.on_keys(0);
    assert!(s.on_keys(128).attack);
}

#[test]
fn input_flags() {
    let mut s = InputState::new();
    s.has_moved_since_sync = false;
    let a = s.on_keys(32);
    assert!(!s.has_moved_since_sync);
    assert!(!a.jumping);
    let a = s.on_keys(16 | 64);
    assert!(a.jumping);
    assert!(s.is_sneaking);
    assert!(s.has_moved_since_sync);
    assert_eq!(s.keys_pressed, 16 | 64);
}

#[test]
fn place_targets() {
    let mut s = InputState::new();
    assert_eq!(s.interact_node(InteractKind::Place, (0, 1, 2), (0, 2, 2), true), NodeAction::Interact(-1, 1, 2));
    assert_eq!(s.interact_node(InteractKind::Place, (0, 1, 2), (0, 2, 2), false), NodeAction::Interact(-1, 2, 2));
    assert_eq!(s.interact_node(InteractKind::StopDigging, (0, 1, 2), (0, 2, 2), false), NodeAction::StopMining);
    assert_eq!(s.interact_node(InteractKind::Other, (0, 1, 2), (0, 2, 2), false), NodeAction::Unsupported);
}

#[test]
fn speed_modes() {
    assert_eq!(speed_mode(false, false), (SpeedMode::Walk, false));
    assert_eq!(speed_mode(false, true), (SpeedMode::Sneak, true));
    assert_eq!(speed_mode(true, false), (SpeedMode::Sprint, false));
    assert_eq!(speed_mode(true, true), (SpeedMode::Sprint, false));
}

#[test]
fn effect_icons_snake_case() {
    assert_eq!(effect_icon("JumpBoost"), "jump_boost");
    assert_eq!(effect_icon("Speed"), "speed");
    assert_eq!(effect_icon("BadOmen"), "bad_omen");
}

fn eff(name: &str, show_icon: bool, ambient: bool) -> EffectIcon {
    EffectIcon { name: String::from(name), show_icon, ambient }
}

#[test]
fn effects_texture() {
    assert_eq!(update_effects(&vec![]), "");
    let t = update_effects(&vec![eff("Speed", true, false), eff("Speed", true, false), eff("Haste", false, false), eff("JumpBoost", true, true)]);
    assert_eq!(
        t,
        "[combine:24x120:0,0=(gui-sprites-hud-effect_background.png^mob_effect-speed.png):0,30=(gui-sprites-hud-effect_background_ambient.png^mob_effect-jump_boost.png)"
    );
}

#[test]
fn effect_bar_styles() {
    assert_eq!(effect_started(BarEffect::Wither), Some(BarStyle::Hearts(HeartDisplay::Wither)));
    assert_eq!(effect_started(BarEffect::Hunger), Some(BarStyle::Food(FoodDisplay::Hunger)));
    assert_eq!(effect_started(BarEffect::Other), None);
    assert_eq!(effect_ended(BarEffect::Poison), Some(BarStyle::Hearts(HeartDisplay::Normal)));
    assert_eq!(effect_ended(BarEffect::Hunger), Some(BarStyle::Food(FoodDisplay::Normal)));
}

#[test]
fn ended_effect_is_dropped() {
    let effects = vec![eff("Speed", true, false), eff("Haste", true, true), eff("Speed", false, false)];
    let left = bridgetest::player::remove_effect(&effects, "Speed");
    assert_eq!(left.len(), 1);
    assert_eq!(left[0].name, "Haste");
    assert!(left[0].ambient);
}
