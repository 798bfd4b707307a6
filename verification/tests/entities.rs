use bridgetest::entities::{
    allocate_id, chunk_messages, client_id_of, dedup_ids, defrag_ranges, end_tick, free_id,
    remove_entities,
    schedule_appearance_update, schedule_update, EntityState,
};

#[test]
fn new_state_has_ids_from_two() {
    let s = EntityState::new();
    assert_eq!(s.c_alloc_id_ranges, vec![(2u16, u16::MAX)]);
    assert!(s.entities_update_scheduled.is_empty());
}

#[test]
fn allocate_hands_out_lowest_id_of_smallest_range() {
    let mut s = EntityState::new();
    assert_eq!(allocate_id(100, &mut s), 2);
    assert_eq!(allocate_id(101, &mut s), 3);
    assert_eq!(s.c_alloc_id_ranges, vec![(4u16, u16::MAX)]);
    assert_eq!(client_id_of(100, &s), Some(2));
    assert_eq!(client_id_of(101, &s), Some(3));
    assert_eq!(client_id_of(102, &s), None);
}

#[test]
fn allocate_prefers_smallest_range() {
    let mut s = EntityState::new();
    s.c_alloc_id_ranges = vec![(10, 20), (5, 5), (30, 31)];
    assert_eq!(allocate_id(7, &mut s), 5);
    assert_eq!(s.c_alloc_id_ranges, vec![(10, 20), (30, 31)]);
    assert_eq!(allocate_id(8, &mut s), 30);
    assert_eq!(s.c_alloc_id_ranges, vec![(10, 20), (31, 31)]);
}

#[test]
fn allocate_ties_pick_first_range() {
    let mut s = EntityState::new();
    s.c_alloc_id_ranges = vec![(10, 12), (20, 22)];
    assert_eq!(allocate_id(1, &mut s), 10);
}

#[test]
fn free_returns_id_and_defrags() {
    let mut s = EntityState::new();
    allocate_id(100, &mut s);
    allocate_id(101, &mut s);
    free_id(100, &mut s);
    assert_eq!(client_id_of(100, &s), None);
    assert_eq!(s.c_alloc_id_ranges, vec![(2u16, 2u16), (4u16, u16::MAX)]);
    free_id(101, &mut s);
    assert_eq!(s.c_alloc_id_ranges, vec![(2u16, u16::MAX)]);
}

#[test]
fn allocate_then_free_restores_ranges() {
    let mut s = EntityState::new();
    allocate_id(1, &mut s);
    allocate_id(2, &mut s);
    allocate_id(3, &mut s);
    free_id(2, &mut s);
    let before = s.c_alloc_id_ranges.clone();
    let id = allocate_id(9, &mut s);
    assert_eq!(id, 3);
    free_id(9, &mut s);
    assert_eq!(s.c_alloc_id_ranges, before);
}

#[test]
fn free_unknown_id_changes_nothing() {
    let mut s = EntityState::new();
    allocate_id(5, &mut s);
    let before = s.c_alloc_id_ranges.clone();
    free_id(77, &mut s);
    assert_eq!(s.c_alloc_id_ranges, before);
    assert_eq!(client_id_of(5, &s), Some(2));
}

#[test]
fn free_drops_scheduled_updates() {
    let mut s = EntityState::new();
    allocate_id(5, &mut s);
    schedule_update(5, &mut s);
    schedule_update(6, &mut s);
    schedule_update(5, &mut s);
    schedule_appearance_update(5, &mut s);
    free_id(5, &mut s);
    assert_eq!(s.entities_update_scheduled, vec![6]);
    assert!(s.appearance_update_scheduled.is_empty());
}

#[test]
fn defrag_sorts_and_joins() {
    let mut s = EntityState::new();
    s.c_alloc_id_ranges = vec![(10, 12), (2, 4), (5, 9), (20, 20)];
    defrag_ranges(&mut s);
    assert_eq!(s.c_alloc_id_ranges, vec![(2, 12), (20, 20)]);
}

#[test]
fn remove_entities_reports_known_ids() {
    let mut s = EntityState::new();
    allocate_id(40, &mut s);
    allocate_id(41, &mut s);
    let removed = remove_entities(&vec![41, 99, 40], &mut s);
    assert_eq!(removed, vec![3, 2]);
    assert_eq!(client_id_of(40, &s), None);
    assert_eq!(s.c_alloc_id_ranges, vec![(2u16, u16::MAX)]);
}

#[test]
fn dedup_ids_cuts_runs() {
    assert_eq!(dedup_ids(&vec![1, 1, 2, 2, 2, 1, 3, 3]), vec![1, 2, 1, 3]);
    assert_eq!(dedup_ids(&vec![]), Vec::<u32>::new());
}

#[test]
fn chunk_messages_groups_of_twenty() {
    let msgs: Vec<u32> = (0..45).collect();
    let chunks = chunk_messages(msgs.clone(), 20);
    assert_eq!(chunks.len(), 3);
    assert_eq!(chunks[0].len(), 20);
    assert_eq!(chunks[1].len(), 20);
    assert_eq!(chunks[2].len(), 5);
    let flat: Vec<u32> = chunks.into_iter().flatten().collect();
    assert_eq!(flat, msgs);
    assert!(chunk_messages(Vec::<u32>::new(), 20).is_empty());
}

#[test]
fn remove_entities_clears_schedules_of_removed_only() {
    let mut s = EntityState::new();
    allocate_id(40, &mut s);
    allocate_id(41, &mut s);
    allocate_id(42, &mut s);
    schedule_update(40, &mut s);
    schedule_update(42, &mut s);
    schedule_update(40, &mut s);
    schedule_update(77, &mut s);
    schedule_appearance_update(42, &mut s);
    schedule_appearance_update(40, &mut s);
    let removed = remove_entities(&vec![40, 77], &mut s);
    assert_eq!(removed, vec![2]);
    assert_eq!(s.entities_update_scheduled, vec![42, 77]);
    assert_eq!(s.appearance_update_scheduled, vec![42]);
    assert_eq!(client_id_of(41, &s), Some(3));
    assert_eq!(client_id_of(42, &s), Some(4));
}

#[test]
fn defrag_keeps_order_of_equal_starts() {
    let mut s = EntityState::new();
    s.c_alloc_id_ranges = vec![(10, 12), (5, 6), (5, 5)];
    defrag_ranges(&mut s);
    assert_eq!(s.c_alloc_id_ranges, vec![(5, 6), (5, 5), (10, 12)]);
}

#[test]
fn end_tick_empties_both_schedules() {
    let mut s = EntityState::new();
    allocate_id(40, &mut s);
    schedule_update(40, &mut s);
    schedule_appearance_update(40, &mut s);
    end_tick(&mut s);
    assert!(s.entities_update_scheduled.is_empty());
    assert!(s.appearance_update_scheduled.is_empty());
    assert_eq!(client_id_of(40, &s), Some(2));
}
