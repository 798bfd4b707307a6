use bridgetest::particles::{emission_count, particle_texture, spawner_def_for_block, ParticleSpawnerState};

#[test]
fn particle_textures() {
    assert_eq!(particle_texture("angry_villager"), Some("particle-angry.png"));
    assert_eq!(particle_texture("bubble_column_up"), Some("particle-bubble.png"));
    assert_eq!(particle_texture("dripping_obsidian_tear"), Some("particle-drip_hang.png"));
    assert_eq!(particle_texture("heart"), Some("particle-heart.png"));
    assert_eq!(particle_texture("no_such_particle"), None);
}

#[test]
fn spawner_defs() {
    assert_eq!(spawner_def_for_block("minecraft:wall_torch"), Some(0));
    assert_eq!(spawner_def_for_block("minecraft:soul_campfire"), Some(4));
    assert_eq!(spawner_def_for_block("minecraft:nether_portal"), Some(7));
    assert_eq!(spawner_def_for_block("minecraft:stone"), None);
    assert_eq!(emission_count(0), 2);
    assert_eq!(emission_count(5), 1);
}

#[test]
fn spawners_follow_blocks() {
    let mut s = ParticleSpawnerState::new();
    let r = s.sync_block_spawner(1, 2, 3, Some(0));
    assert!(r.delete.is_empty());
    assert_eq!(r.add, Some((0, vec![0, 1])));
    // same block again: nothing to do
    let r = s.sync_block_spawner(1, 2, 3, Some(0));
    assert!(r.delete.is_empty() && r.add.is_none());
    // torch replaced by fire: old streams go, new ones come
    let r = s.sync_block_spawner(1, 2, 3, Some(2));
    assert_eq!(r.delete, vec![0, 1]);
    assert_eq!(r.add, Some((2, vec![2, 3])));
    // block removed
    let r = s.sync_block_spawner(1, 2, 3, None);
    assert_eq!(r.delete, vec![2, 3]);
    assert!(r.add.is_none());
    assert!(s.get(1, 2, 3).is_none());
    // no spawner, none wanted
    let r = s.sync_block_spawner(-5, 0, 7, None);
    assert!(r.delete.is_empty() && r.add.is_none());
}

#[test]
fn spawner_positions_are_distinct() {
    let mut s = ParticleSpawnerState::new();
    s.insert(1, 0, 0, 3, 1);
    s.insert(0, 1, 0, 4, 1);
    assert_eq!(s.get(1, 0, 0), Some((3, vec![0])));
    assert_eq!(s.get(0, 1, 0), Some((4, vec![1])));
    assert_eq!(s.remove(1, 0, 0), Some((3, vec![0])));
    assert!(s.get(1, 0, 0).is_none());
}
