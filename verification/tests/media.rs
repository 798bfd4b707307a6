use bridgetest::media::{announce, get_sha1, requested_media};
use bridgetest::textures::LuantiTexture;

#[test]
fn sha1_of_abc() {
    let d = get_sha1(&b"abc".to_vec());
    assert_eq!(
        d,
        [0xa9, 0x99, 0x3e, 0x36, 0x47, 0x06, 0x81, 0x6a, 0xba, 0x3e, 0x25, 0x71, 0x78, 0x50, 0xc2, 0x6c, 0x9c, 0xd0, 0xd8, 0x9d]
    );
}

#[test]
fn announcement_entry() {
    let (name, digest) = announce(&LuantiTexture::from_string("./block/stone.png"), &Vec::new());
    assert_eq!(name, "block-stone.png");
    assert_eq!(digest[0], 0xda);
    assert_eq!(digest[19], 0x09);
}

#[test]
fn requested_files() {
    let (t, model) = requested_media("entity-fox.b3d");
    assert!(model);
    assert_eq!(t.get_relative(), "./entity/fox.b3d");
    let (t, model) = requested_media("block-stone.png");
    assert!(!model);
    assert_eq!(t.get_relative(), "./block/stone.png");
}
