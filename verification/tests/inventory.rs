use bridgetest::inventory::{
    close_open_container, craft_clicks, drop_clicks, get_adjusted_index, move_clicks, move_count, shift_to_menu,
    to_inv_index, unchanged_fields, wants_close, Click, InventoryState,
};

#[test]
fn inventory_indices() {
    assert_eq!(to_inv_index(0, "armor"), 5);
    assert_eq!(to_inv_index(3, "craft"), 4);
    assert_eq!(to_inv_index(0, "craftpreview"), 0);
    assert_eq!(to_inv_index(0, "offhand"), 45);
    assert_eq!(to_inv_index(0, "main"), 36);
    assert_eq!(to_inv_index(8, "main"), 44);
    assert_eq!(to_inv_index(9, "main"), 9);
    assert_eq!(to_inv_index(35, "main"), 35);
}

#[test]
fn adjusted_indices_match() {
    for i in 0..36u16 {
        assert_eq!(get_adjusted_index(i, "main"), to_inv_index(i, "main"));
    }
    assert_eq!(get_adjusted_index(40, "main"), 40);
    assert_eq!(get_adjusted_index(2, "armor"), 7);
}

#[test]
fn menu_slots() {
    assert_eq!(shift_to_menu("container", 7, 27), 7);
    // player menu: offset 9, main keeps its player-menu slot
    assert_eq!(shift_to_menu("main", 0, 9), 36);
    assert_eq!(shift_to_menu("main", 9, 9), 9);
    // a chest with 27 slots: player slots start at 27
    assert_eq!(shift_to_menu("main", 9, 27), 27);
    assert_eq!(shift_to_menu("main", 0, 27), 54);
    assert_eq!(shift_to_menu("craftpreview", 0, 9), 0);
    assert_eq!(shift_to_menu("armor", 1, 9), 6);
}

#[test]
fn drop_click_plans() {
    assert_eq!(drop_clicks(5, 3, 3), vec![Click::ThrowAll(5)]);
    assert_eq!(drop_clicks(5, 3, 64), vec![Click::ThrowAll(5)]);
    assert_eq!(drop_clicks(5, 10, 2), vec![Click::ThrowOne(5), Click::ThrowOne(5)]);
}

#[test]
fn move_click_plans() {
    assert_eq!(move_clicks(1, 2, 5, 5), vec![Click::PickupLeft(1), Click::PickupLeft(2)]);
    assert_eq!(
        move_clicks(1, 2, 2, 5),
        vec![Click::PickupLeft(1), Click::PickupRight(2), Click::PickupRight(2), Click::PickupLeft(1)]
    );
    assert_eq!(craft_clicks(3), vec![Click::QuickMove(0); 3]);
    assert_eq!(move_count(10, 0), None);
    assert_eq!(move_count(10, 4), Some(4));
    assert_eq!(move_count(3, 4), Some(3));
}

#[test]
fn keep_unchanged_lists() {
    let changed = vec![String::from("main"), String::from("craft")];
    assert_eq!(unchanged_fields(&changed), vec!["armor", "offhand", "craftpreview", "container"]);
    assert_eq!(unchanged_fields(&vec![]).len(), 6);
}

#[test]
fn quit_closes() {
    assert!(wants_close(&vec![String::from("x"), String::from("quit")]));
    assert!(!wants_close(&vec![String::from("quitx")]));
}

#[test]
fn main_list_hotbar_first() {
    let server: Vec<u16> = (9..45).collect();
    let client = bridgetest::inventory::rotate_main(server.clone());
    assert_eq!(client[0], 36);
    assert_eq!(client[8], 44);
    assert_eq!(client[9], 9);
    for i in 0..36u16 {
        assert_eq!(client[i as usize], to_inv_index(i, "main"));
    }
}

#[test]
fn moving_closes_the_open_container() {
    let mut s = InventoryState { container_id: Some(7), holds_inventory: true };
    assert_eq!(close_open_container(&mut s), Some(7));
    assert_eq!(s, InventoryState::new());
    assert_eq!(close_open_container(&mut s), None);
    assert_eq!(s.container_id, None);
}
