use bridgetest::recipes::{convert_recipe, update_recipes, CraftingStation, RecipeData};

fn item(name: &str, count: i8) -> Option<(String, i8)> {
    Some((String::from(name), count))
}

#[test]
fn shapeless_recipes() {
    let small = RecipeData::CraftingShapeless {
        ingredients: vec![vec![item("minecraft:oak_log", 1), None], vec![item("minecraft:stick", 1)]],
        result: item("minecraft:oak_planks", 4),
    };
    let r = convert_recipe(&small).unwrap();
    assert_eq!(r.stations, vec![CraftingStation::CraftingTable, CraftingStation::Inventory]);
    assert_eq!(
        r.ingredients,
        vec![vec![(String::from("minecraft:oak_log"), 1)], vec![(String::from("minecraft:stick"), 1)]]
    );
    assert_eq!(r.result, (String::from("minecraft:oak_planks"), 4));
    assert_eq!(r.shaped, None);
    let big = RecipeData::CraftingShapeless { ingredients: vec![vec![item("a", 1)]; 5], result: item("b", 1) };
    assert_eq!(convert_recipe(&big).unwrap().stations, vec![CraftingStation::CraftingTable]);
    let empty = RecipeData::CraftingShapeless { ingredients: vec![], result: None };
    assert!(convert_recipe(&empty).is_none());
}

#[test]
fn shaped_recipes_keep_empty_cells() {
    let r = RecipeData::CraftingShaped {
        width: 3,
        height: 1,
        ingredients: vec![vec![item("a", 1)], vec![None], vec![item("a", 1)]],
        result: item("c", 2),
    };
    let c = convert_recipe(&r).unwrap();
    assert_eq!(c.stations, vec![CraftingStation::CraftingTable]);
    assert_eq!(c.ingredients[1], vec![(String::new(), 0)]);
    assert_eq!(c.shaped, Some((3, 1)));
    let small = RecipeData::CraftingShaped { width: 2, height: 2, ingredients: vec![], result: None };
    let c = convert_recipe(&small).unwrap();
    assert_eq!(c.stations, vec![CraftingStation::CraftingTable, CraftingStation::Inventory]);
    assert_eq!(c.result, (String::new(), 0));
}

#[test]
fn cooking_and_cutting() {
    let r = RecipeData::Smelting { ingredient: vec![item("ore", 1), None], result: item("ingot", 1) };
    let c = convert_recipe(&r).unwrap();
    assert_eq!(c.stations, vec![CraftingStation::Furnace]);
    assert_eq!(c.ingredients, vec![vec![(String::from("ore"), 1)]]);
    let r = RecipeData::Stonecutting { ingredient: vec![item("stone", 1)], result: item("slab", 2) };
    assert_eq!(convert_recipe(&r).unwrap().stations, vec![CraftingStation::StoneCutter]);
    let r = RecipeData::CampfireCooking { ingredient: vec![], result: item("x", 1) };
    assert_eq!(convert_recipe(&r).unwrap().stations, vec![CraftingStation::Campfire]);
    assert!(convert_recipe(&RecipeData::Other).is_none());
}

#[test]
fn recipe_lists_drop_unsupported() {
    let all = vec![
        RecipeData::Other,
        RecipeData::Blasting { ingredient: vec![item("ore", 1)], result: item("ingot", 1) },
        RecipeData::CraftingShapeless { ingredients: vec![], result: None },
        RecipeData::Smoking { ingredient: vec![item("beef", 1)], result: item("steak", 1) },
    ];
    let r = update_recipes(&all);
    assert_eq!(r.len(), 2);
    assert_eq!(r[0].stations, vec![CraftingStation::BlastFurnace]);
    assert_eq!(r[1].stations, vec![CraftingStation::Smoker]);
}
