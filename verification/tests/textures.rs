use bridgetest::nodedef::NodeDrawType;
use bridgetest::textures::{
    absolute_root, best_variant, get_colormap, BlockMapping, Direction, LuantiTexture, MediaRoot,
    RawDrawType, RawTextures,
};

fn s(v: &str) -> String {
    String::from(v)
}

#[test]
fn safe_name_flattens_path() {
    let t = LuantiTexture::from_string("./block/stone.png");
    assert_eq!(t.get_relative(), "./block/stone.png");
    assert_eq!(t.to_luanti_safe(), "block-stone.png");
    let deep = LuantiTexture::from_string("./entity/cow/./red.png");
    assert_eq!(deep.to_luanti_safe(), "entity-cow-red.png");
}

#[test]
fn safe_name_round_trip() {
    let t = LuantiTexture::from_luanti_safe("block-grass_block_top.png");
    assert_eq!(t.get_relative(), "./block/grass_block_top.png");
    assert_eq!(t.to_luanti_safe(), "block-grass_block_top.png");
}

#[test]
fn colormaps_by_group() {
    let tint = |p: &str| get_colormap(&LuantiTexture::from_string(p));
    assert_eq!(tint("./block/grass_block_top.png"), Some((0x91, 0xBD, 0x59)));
    assert_eq!(tint("./block/oak_leaves.png"), Some((0x77, 0xAB, 0x2F)));
    assert_eq!(tint("./block/water_flow.png"), Some((0x3F, 0x76, 0xE4)));
    assert_eq!(tint("./block/melon_stem.png"), Some((0xE0, 0xC7, 0x1C)));
    assert_eq!(tint("./pink_petals_stem.png"), Some((0xE0, 0xC7, 0x1C)));
    assert_eq!(tint("./block/birch_leaves.png"), Some((0x80, 0xA7, 0x55)));
    assert_eq!(tint("./block/spruce_leaves.png"), Some((0x61, 0x99, 0x61)));
    assert_eq!(tint("./block/lily_pad.png"), Some((0x20, 0x80, 0x30)));
    assert_eq!(tint("./block/stone.png"), None);
}

#[test]
fn drawtype_parsing() {
    assert!(matches!(RawDrawType::parse("full"), Some(RawDrawType::Full)));
    assert!(matches!(RawDrawType::parse("air"), Some(RawDrawType::Air)));
    assert!(matches!(RawDrawType::parse("flower"), Some(RawDrawType::Flower)));
    assert!(matches!(RawDrawType::parse("fire"), Some(RawDrawType::Fire)));
    assert!(matches!(RawDrawType::parse("liquid"), Some(RawDrawType::Liquid)));
    match RawDrawType::parse("NB_slab") {
        Some(RawDrawType::NodeBox(k)) => assert_eq!(k, "NB_slab"),
        _ => panic!("node box expected"),
    }
    assert!(RawDrawType::parse("glass").is_none());
    assert!(RawDrawType::parse("NB").is_none());
}

#[test]
fn drawtype_compile() {
    assert_eq!(RawDrawType::Flower.compile().0, NodeDrawType::PlantLike);
    assert_eq!(RawDrawType::Full.compile().0, NodeDrawType::Normal);
    assert_eq!(RawDrawType::Air.compile().0, NodeDrawType::AirLike);
    let nb = RawDrawType::NodeBox(s("NB_x"));
    let (d, k) = nb.compile();
    assert_eq!(d, NodeDrawType::NodeBox);
    assert_eq!(k.map(|x| x.as_str()), Some("NB_x"));
    assert!(RawDrawType::Fire.compile().1.is_none());
}

#[test]
fn uniform_textures_fill_all_faces() {
    let m = RawTextures::Uniform(s("./block/dirt.png")).into_map();
    assert_eq!(m.len(), 6);
    assert_eq!(m[0], (Direction::Up, s("./block/dirt.png")));
    assert_eq!(m[5], (Direction::West, s("./block/dirt.png")));
    let per = RawTextures::PerFace(vec![(Direction::Up, s("a"))]).into_map();
    assert_eq!(per, vec![(Direction::Up, s("a"))]);
}

fn mapping(drawtype: NodeDrawType) -> BlockMapping {
    let faces = [
        (Direction::Up, "./block/grass_block_top.png"),
        (Direction::Down, "./block/dirt.png"),
        (Direction::North, "./block/n.png"),
        (Direction::South, "./block/s.png"),
        (Direction::East, "./block/e.png"),
        (Direction::West, "./block/w.png"),
    ];
    BlockMapping {
        textures: faces.iter().map(|(d, t)| (*d, LuantiTexture::from_string(t))).collect(),
        drawtype,
        nodebox: None,
        cutout: false,
    }
}

#[test]
fn tiledefs_in_face_order() {
    let tiles = mapping(NodeDrawType::Normal).get_tiledefs();
    let names: Vec<&str> = tiles.iter().map(|t| t.name.as_str()).collect();
    assert_eq!(
        names,
        vec![
            "block-grass_block_top.png",
            "block-dirt.png",
            "block-n.png",
            "block-s.png",
            "block-e.png",
            "block-w.png"
        ]
    );
    assert!(tiles[0].backface_culling);
    assert_eq!(tiles[0].color, Some((0x91, 0xBD, 0x59)));
    assert_eq!(tiles[1].color, None);
    assert!(!mapping(NodeDrawType::PlantLike).get_tiledefs()[3].backface_culling);
}

#[test]
fn later_face_entry_wins() {
    let mut m = mapping(NodeDrawType::Normal);
    m.textures.push((Direction::Up, LuantiTexture::from_string("./block/top2.png")));
    assert_eq!(m.face(Direction::Up).unwrap().get_relative(), "./block/top2.png");
    assert_eq!(m.to_entity_textures()[0], "block-top2.png");
}

#[test]
fn safe_cube_uses_top_north_east() {
    assert_eq!(
        mapping(NodeDrawType::Normal).to_safe_cube(),
        "[inventorycube{block-grass_block_top.png{block-n.png{block-e.png"
    );
}

#[test]
fn media_roots() {
    assert_eq!(absolute_root(true, true), MediaRoot::AssetModels);
    assert_eq!(absolute_root(false, true), MediaRoot::TexturePack);
    assert_eq!(absolute_root(false, false), MediaRoot::AssetTextures);
}

#[test]
fn best_variant_picks_most_specific() {
    let keys = vec![s(""), s("facing=north"), s("facing=north,half=top"), s("half=bottom")];
    assert_eq!(best_variant(&keys, "facing=north,half=top,waterlogged=false"), Some(2));
    assert_eq!(best_variant(&keys, "facing=north,half=bottom"), Some(3));
    assert_eq!(best_variant(&keys, "facing=south"), Some(0));
}

#[test]
fn best_variant_ties_take_last_and_falls_back() {
    let keys = vec![s("a=1"), s("b=2")];
    assert_eq!(best_variant(&keys, "a=1,b=2"), Some(1));
    assert_eq!(best_variant(&keys, "c=3"), Some(0));
    assert_eq!(best_variant(&Vec::new(), "a=1"), None);
    assert_eq!(best_variant(&vec![s(",,a=1,")], "a=1"), Some(0));
}

#[test]
fn inventory_images() {
    let m = mapping(NodeDrawType::Normal);
    let apple = LuantiTexture::from_string("./item/apple.png");
    assert_eq!(bridgetest::textures::inventory_image(Some(&apple), &m), "item-apple.png");
    assert_eq!(
        bridgetest::textures::inventory_image(None, &m),
        "[inventorycube{block-grass_block_top.png{block-n.png{block-e.png"
    );
}

const PACK: &str = "/home/u/.local/share/bridgetest/textures/";
const MODELS: &str = "/home/u/.local/share/bridgetest/bridgetest_assets/models/";
const ASSETS: &str = "/home/u/.local/share/bridgetest/bridgetest_assets/textures/";

#[test]
fn absolute_paths_become_relative_to_their_root() {
    let t = LuantiTexture::from_absolute(
        "/home/u/.local/share/bridgetest/textures/block/stone.png",
        false,
        PACK,
        MODELS,
        ASSETS,
    )
    .unwrap();
    assert_eq!(t.get_relative(), "block/stone.png");
    assert_eq!(t.to_luanti_safe(), "block-stone.png");
    let t = LuantiTexture::from_absolute(
        "/home/u/.local/share/bridgetest/bridgetest_assets/textures/entity/cow.png",
        false,
        PACK,
        MODELS,
        ASSETS,
    )
    .unwrap();
    assert_eq!(t.get_relative(), "entity/cow.png");
    let m = LuantiTexture::from_absolute(
        "/home/u/.local/share/bridgetest/bridgetest_assets/models/cow.b3d",
        true,
        PACK,
        MODELS,
        ASSETS,
    )
    .unwrap();
    assert_eq!(m.get_relative(), "cow.b3d");
}

#[test]
fn absolute_path_outside_its_root_is_refused() {
    assert!(LuantiTexture::from_absolute("/tmp/stone.png", false, PACK, MODELS, ASSETS).is_none());
    assert!(LuantiTexture::from_absolute(
        "/home/u/.local/share/bridgetest/textures/cow.b3d",
        true,
        PACK,
        MODELS,
        ASSETS
    )
    .is_none());
}

#[test]
fn safe_name_to_path_and_back() {
    let t = LuantiTexture::from_luanti_safe("block-stone.png");
    assert_eq!(t.get_relative(), "./block/stone.png");
    assert_eq!(t.to_luanti_safe(), "block-stone.png");
    let m = LuantiTexture::from_luanti_safe("entity-cow-cow.b3d");
    assert_eq!(m.to_luanti_safe(), "entity-cow-cow.b3d");
}

#[test]
fn absolute_path_round_trip() {
    let t = LuantiTexture::from_string("block/stone.png");
    for (model_mode, in_pack) in [(false, true), (false, false), (true, false), (true, true)] {
        let a = t.get_absolute(model_mode, in_pack, PACK, MODELS, ASSETS);
        let back = LuantiTexture::from_absolute(&a, model_mode, PACK, MODELS, ASSETS).unwrap();
        assert_eq!(back.get_relative(), "block/stone.png");
    }
    assert_eq!(
        t.get_absolute(false, true, PACK, MODELS, ASSETS),
        "/home/u/.local/share/bridgetest/textures/block/stone.png"
    );
    assert_eq!(
        t.get_absolute(false, false, PACK, MODELS, ASSETS),
        "/home/u/.local/share/bridgetest/bridgetest_assets/textures/block/stone.png"
    );
}
