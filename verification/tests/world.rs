use bridgetest::world::{
    dimension_from_id, get_y_bounds, mirror_block_pos, mirror_section, section_layout, state_to_node,
    ChunkBatchState, Dimensions, MapNode, TimeState,
};

#[test]
fn y_bounds_per_dimension() {
    assert_eq!(get_y_bounds(&Dimensions::Overworld), (-64, 320));
    assert_eq!(get_y_bounds(&Dimensions::Nether), (0, 255));
    assert_eq!(Dimensions::End.get_y_bounds(), (0, 255));
    assert_eq!(Dimensions::Custom.get_y_bounds(), (-64, 320));
}

#[test]
fn mirror_block_pos_values() {
    assert_eq!(mirror_block_pos(0), -1);
    assert_eq!(mirror_block_pos(-1), 0);
    assert_eq!(mirror_block_pos(15), -16);
    assert_eq!(mirror_block_pos(mirror_block_pos(1234)), 1234);
}

#[test]
fn time_of_day_follows_clock_and_game_time() {
    let mut t = TimeState::new();
    // sunrise in Minecraft is 6000 on the client
    assert_eq!(t.set_time(100, Some(0)), 6000);
    assert_eq!(t, TimeState { clock_total: 0, anchor_game_time: 100 });
    // 500 game ticks later, no clock update
    assert_eq!(t.set_time(600, None), 6500);
    // noon (6000) maps to 12000
    assert_eq!(t.set_time(700, Some(6000)), 12000);
    // midnight wraps
    assert_eq!(t.set_time(800, Some(18000)), 0);
    // game time going backwards counts as no time
    assert_eq!(t.set_time(10, None), 0);
}

#[test]
fn chunk_batch_flags() {
    let mut b = ChunkBatchState::new();
    assert!(!b.chunk_batch_start());
    assert!(b.chunk_batch_start());
    assert!(b.chunk_batch_finished());
    assert!(!b.chunk_batch_finished());
    assert!(!b.active);
}

#[test]
fn state_to_node_ids() {
    assert_eq!(state_to_node(5, false, false, false), MapNode { content_id: 133, param1: 0xEE, param2: 0 });
    assert_eq!(state_to_node(0, true, false, true).content_id, 126);
    assert_eq!(state_to_node(800, false, true, true).content_id, 120);
    assert_eq!(state_to_node(800, false, true, false).content_id, 928);
}

#[test]
fn mirror_section_flips_x() {
    let mut a = [0u16; 4096];
    for i in 0..4096 {
        a[i] = i as u16;
    }
    let m = mirror_section(&a);
    assert_eq!(m[15], 0);
    assert_eq!(m[0], 15);
    assert_eq!(m[14 + 16 + 256], 1 + 16 + 256);
    assert_eq!(mirror_section(&m), a);
}

#[test]
fn section_layouts() {
    assert_eq!(section_layout(Dimensions::Overworld), (24, -4));
    assert_eq!(section_layout(Dimensions::Nether), (16, 0));
}

#[test]
fn dimensions_from_ids() {
    assert_eq!(dimension_from_id("minecraft", "overworld"), Dimensions::Overworld);
    assert_eq!(dimension_from_id("minecraft", "the_nether"), Dimensions::Nether);
    assert_eq!(dimension_from_id("minecraft", "the_end"), Dimensions::End);
    assert_eq!(dimension_from_id("minecraft", "moon"), Dimensions::Custom);
    assert_eq!(dimension_from_id("mod", "overworld"), Dimensions::Custom);
}

#[test]
fn dimensions_at_start() {
    assert_eq!(bridgetest::world::initial_dimension("the_end"), Dimensions::End);
    assert_eq!(bridgetest::world::initial_dimension("overworld"), Dimensions::Overworld);
    assert_eq!(bridgetest::world::initial_dimension("nether"), Dimensions::Nether);
    assert_eq!(bridgetest::world::initial_dimension("the_nether"), Dimensions::Custom);
}
