use bridgetest::light::{decode_light_layers, LightCache, UNKNOWN_LIGHT};

#[test]
fn unknown_section_reads_fourteen() {
    let c = LightCache::new();
    let (sky, block) = c.get_section(0, 0, 0);
    assert!(sky.iter().all(|&v| v == UNKNOWN_LIGHT));
    assert!(block.iter().all(|&v| v == 14));
    assert_eq!(c.get_node(5, -70, 3), (14, 14));
}

#[test]
fn stored_section_reads_back() {
    let mut c = LightCache::new();
    let mut sky = [0u8; 4096];
    let mut block = [0u8; 4096];
    sky[1 + 2 * 16 + 3 * 256] = 9;
    block[1 + 2 * 16 + 3 * 256] = 4;
    c.store(1, -1, 2, sky, block);
    // block (17, -14, 35) lies in section (1, -1, 2) at (1, 2, 3)
    assert_eq!(c.get_node(17, -14, 35), (9, 4));
    assert_eq!(c.get_node(16, -14, 35), (0, 0));
    assert_eq!(c.get_section(1, -1, 2).0[1 + 2 * 16 + 3 * 256], 9);
    // another section is untouched
    assert_eq!(c.get_node(17, 2, 35), (14, 14));
}

#[test]
fn negative_coordinates_floor_into_sections() {
    let mut c = LightCache::new();
    let mut sky = [1u8; 4096];
    sky[15 + 15 * 16 + 15 * 256] = 7;
    c.store(-1, -1, -1, sky, [2u8; 4096]);
    assert_eq!(c.get_node(-1, -1, -1), (7, 2));
    assert_eq!(c.get_node(-16, -16, -16), (1, 2));
    assert_eq!(c.get_node(-17, -1, -1), (14, 14));
}

#[test]
fn store_replaces_section() {
    let mut c = LightCache::new();
    c.store(0, 0, 0, [3u8; 4096], [3u8; 4096]);
    c.store(0, 0, 0, [5u8; 4096], [6u8; 4096]);
    assert_eq!(c.get_node(0, 0, 0), (5, 6));
}

#[test]
fn take_positions_empties_cache() {
    let mut c = LightCache::new();
    c.store(1, 2, 3, [0u8; 4096], [0u8; 4096]);
    c.store(-4, 5, -6, [0u8; 4096], [0u8; 4096]);
    c.store(1, 2, 3, [1u8; 4096], [0u8; 4096]);
    let mut p = c.take_positions();
    p.sort();
    assert_eq!(p, vec![(-4, 5, -6), (1, 2, 3)]);
    assert!(c.take_positions().is_empty());
    assert_eq!(c.get_node(16, 32, 48), (14, 14));
}

fn layer_with(byte_index: usize, value: u8) -> Vec<u8> {
    let mut v = vec![0u8; 2048];
    v[byte_index] = value;
    v
}

#[test]
fn decode_light_maps_bits_to_sections() {
    // bits 1 and 3 set: layer 0 -> section 0, layer 1 -> section 2
    let layers = vec![layer_with(0, 0x3A), layer_with(8 * 17, 0xF0)];
    let out = decode_light_layers(&layers, &vec![0b1010u64], -64, 320, 4);
    assert_eq!(out.len(), 4);
    assert_eq!(out[0][0], 0xA);
    assert_eq!(out[0][1], 0x3);
    // byte (y*16+z)*8 with y = 1, z = 1 holds x = 0, 1
    assert_eq!(out[2][16 + 256], 0);
    assert_eq!(out[2][1 + 16 + 256], 0xF);
    assert!(out[1].iter().all(|&v| v == 0));
    assert!(out[3].iter().all(|&v| v == 0));
}

#[test]
fn decode_light_skips_out_of_range_bits() {
    // bit 0 is the section below the world: its layer is consumed but unused
    let layers = vec![layer_with(0, 0x11), layer_with(0, 0x22)];
    let out = decode_light_layers(&layers, &vec![0b11u64], -64, 320, 2);
    assert!(out[1].iter().all(|&v| v == 0));
    assert_eq!(out[0][0], 2);
    assert_eq!(out[0][1], 2);
}

#[test]
fn decode_light_stops_at_bad_layer() {
    let layers = vec![layer_with(0, 0x55), vec![0u8; 10], layer_with(0, 0x77)];
    let out = decode_light_layers(&layers, &vec![0b1110u64], 0, 256, 3);
    assert_eq!(out[0][0], 5);
    assert!(out[1].iter().all(|&v| v == 0));
    assert!(out[2].iter().all(|&v| v == 0));
}

#[test]
fn decode_light_second_word() {
    let layers = vec![layer_with(0, 0x09)];
    let out = decode_light_layers(&layers, &vec![0u64, 1u64], 0, 0, 70);
    assert_eq!(out[63][0], 9);
}

#[test]
fn section_light_stored_or_cached() {
    let mut c = LightCache::new();
    let (sky, block) = c.light_for_section(0, 0, 0, None, None);
    assert_eq!((sky[0], block[0]), (14, 14));
    let (sky, _) = c.light_for_section(0, 0, 0, Some([8u8; 4096]), Some([2u8; 4096]));
    assert_eq!(sky[5], 8);
    let (sky, block) = c.light_for_section(0, 0, 0, None, Some([0u8; 4096]));
    assert_eq!((sky[5], block[5]), (8, 2));
}
