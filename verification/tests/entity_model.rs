use bridgetest::entity_model::{
    compose_slot, get_entity_model, model_suffixes, modifier_key, raw_int_variant_name, visual_str,
    EntityInfo, ExtraData, RawVariantKind, VisualKind,
};

fn s(v: &str) -> String {
    String::from(v)
}

fn slots(v: &[&[&str]]) -> Option<Vec<Vec<String>>> {
    Some(v.iter().map(|slot| slot.iter().map(|x| s(x)).collect()).collect())
}

#[test]
fn raw_variants() {
    assert_eq!(raw_int_variant_name(RawVariantKind::Rabbit, 99).as_deref(), Some("caerbannog"));
    assert_eq!(raw_int_variant_name(RawVariantKind::Rabbit, 0), None);
    assert_eq!(raw_int_variant_name(RawVariantKind::Llama, 0).as_deref(), Some("creamy"));
    assert_eq!(raw_int_variant_name(RawVariantKind::Horse, 0x0304).as_deref(), Some("black"));
    assert_eq!(raw_int_variant_name(RawVariantKind::Horse, 3), None);
    assert_eq!(raw_int_variant_name(RawVariantKind::TropicalFish, 0x01020301).as_deref(), Some("alternate"));
    assert_eq!(raw_int_variant_name(RawVariantKind::Axolotl, 1), None);
    assert_eq!(raw_int_variant_name(RawVariantKind::Pufferfish, 2).as_deref(), Some("big"));
}

#[test]
fn slot_composition() {
    assert_eq!(compose_slot(s(""), &vec![s("base.png"), s("eyes.png")]), "base.png^eyes.png");
    assert_eq!(compose_slot(s("old.png"), &vec![s(""), s("collar.png")]), "old.png^collar.png");
    assert_eq!(compose_slot(s("old.png"), &vec![s("new.png")]), "new.png");
    assert_eq!(compose_slot(s(""), &vec![s(""), s("a.png"), s("b.png")]), "a.png^b.png");
    assert_eq!(compose_slot(s("keep.png"), &vec![]), "keep.png");
}

#[test]
fn visual_names() {
    assert_eq!(visual_str(VisualKind::Texture), "sprite");
    assert_eq!(visual_str(VisualKind::Block), "cube");
    assert_eq!(visual_str(VisualKind::Model), "mesh");
}

#[test]
fn suffixes_and_keys() {
    let e = ExtraData { baby: true, variant: Some(s("snow")) };
    assert_eq!(model_suffixes(&e), vec![s("baby"), s("snow")]);
    assert!(model_suffixes(&ExtraData { baby: false, variant: None }).is_empty());
    assert_eq!(modifier_key("minecraft:fox", "snow"), "minecraft:fox+snow");
}

#[test]
fn model_from_base_and_variants() {
    let base = EntityInfo {
        visual: Some(VisualKind::Model),
        model: Some(s("fox.b3d")),
        textures: slots(&[&["fox.png", "eyes.png"], &["tail.png"]]),
        size: Some(1u8),
    };
    let baby = EntityInfo { visual: None, model: Some(s("fox_baby.b3d")), textures: None, size: Some(2u8) };
    let snow = EntityInfo {
        visual: None,
        model: None,
        textures: slots(&[&["snow_fox.png"], &["", "frost.png"], &["ignored.png"]]),
        size: None,
    };
    let m = get_entity_model(false, &base, &vec![baby, snow], None, 9u8).unwrap();
    assert_eq!(m.visual, VisualKind::Model);
    assert_eq!(m.mesh, "fox_baby.b3d");
    assert_eq!(m.textures, vec![s("snow_fox.png"), s("tail.png^frost.png")]);
    assert_eq!(m.size, 2);
}

#[test]
fn model_edge_cases() {
    let no_visual: EntityInfo<u8> = EntityInfo { visual: None, model: None, textures: slots(&[&["a.png"]]), size: None };
    assert!(get_entity_model(false, &no_visual, &vec![], None, 0).is_none());
    let model_without_mesh: EntityInfo<u8> =
        EntityInfo { visual: Some(VisualKind::Model), model: None, textures: slots(&[&["a.png"]]), size: None };
    assert!(get_entity_model(false, &model_without_mesh, &vec![], None, 0).is_none());
    let sprite: EntityInfo<u8> =
        EntityInfo { visual: Some(VisualKind::Texture), model: Some(s("x.b3d")), textures: slots(&[&["a.png"]]), size: None };
    let m = get_entity_model(false, &sprite, &vec![], None, 7).unwrap();
    assert_eq!(m.mesh, "");
    assert_eq!(m.size, 7);
    let item = get_entity_model(true, &sprite, &vec![], Some(s("apple.png")), 7).unwrap();
    assert_eq!(item.textures, vec![s("apple.png")]);
    assert_eq!(item.mesh, "");
    assert_eq!(item.visual, VisualKind::Texture);
}
