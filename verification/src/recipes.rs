//! Crafting recipes as the server announces them, converted to what the
//! client's crafting needs: where a recipe can be made, its ingredient
//! slots and its result.
use vstd::prelude::*;
use crate::text::owned;

verus! {

/// Where a recipe can be made.
#[derive(Clone, Copy, Debug, PartialEq, Eq, Structural)]
pub enum CraftingStation {
    CraftingTable,
    /// The 2x2 grid of the player's inventory.
    Inventory,
    StoneCutter,
    Furnace,
    BlastFurnace,
    Smoker,
    Campfire,
}

/// An item name and count; `None` for an empty slot.
pub type Slot = Option<(String, i8)>;

/// A recipe as the server announces it.
#[derive(Debug)]
pub enum RecipeData {
    /// Each ingredient slot lists the items allowed in it.
    CraftingShapeless { ingredients: Vec<Vec<Slot>>, result: Slot },
    CraftingShaped { width: u32, height: u32, ingredients: Vec<Vec<Slot>>, result: Slot },
    Stonecutting { ingredient: Vec<Slot>, result: Slot },
    Smelting { ingredient: Vec<Slot>, result: Slot },
    Blasting { ingredient: Vec<Slot>, result: Slot },
    Smoking { ingredient: Vec<Slot>, result: Slot },
    CampfireCooking { ingredient: Vec<Slot>, result: Slot },
    /// A special recipe, which is not supported.
    Other,
}

/// A recipe ready for the client.
#[derive(Debug)]
pub struct ServerRecipe {
    pub stations: Vec<CraftingStation>,
    /// Per ingredient slot, the allowed (item, count) pairs.
    pub ingredients: Vec<Vec<(String, i8)>>,
    pub result: (String, i8),
    /// Width and height of a shaped recipe's pattern.
    pub shaped: Option<(u8, u8)>,
}

/// An item as plain values.
pub open spec fn item_view(x: (String, i8)) -> (Seq<char>, i8) {
    (x.0@, x.1)
}

/// The item of a result slot; an empty result is ("", 0).
pub open spec fn result_of(s: Slot) -> (Seq<char>, i8) {
    match s {
        Some(x) => (x.0@, x.1),
        None => (Seq::empty(), 0),
    }
}

/// The items allowed in a slot, empty entries left out.
pub open spec fn present_items(allowed: Seq<Slot>) -> Seq<(Seq<char>, i8)>
    decreases allowed.len(),
{
    if allowed.len() == 0 {
        Seq::empty()
    } else {
        let rest = present_items(allowed.drop_last());
        match allowed.last() {
            Some(x) => rest.push((x.0@, x.1)),
            None => rest,
        }
    }
}

/// The items allowed in a slot of a shaped pattern, an empty entry kept
/// as ("", 0).
pub open spec fn pattern_items(allowed: Seq<Slot>) -> Seq<(Seq<char>, i8)> {
    allowed.map_values(|s: Slot| result_of(s))
}

/// A converted recipe as plain values: stations, ingredient slots,
/// result and pattern size.
pub open spec fn recipe_view(r: ServerRecipe) -> (Seq<CraftingStation>, Seq<Seq<(Seq<char>, i8)>>, (Seq<char>, i8), Option<(u8, u8)>) {
    (r.stations@, slots_view(r.ingredients@), item_view(r.result), r.shaped)
}

/// The ingredient slots of a cooking or cutting recipe: one slot.
pub open spec fn single_slot(ingredient: Seq<Slot>) -> Seq<Seq<(Seq<char>, i8)>> {
    seq![present_items(ingredient)]
}

/// What a server recipe becomes: a shapeless recipe with an empty result
/// is dropped; crafting recipes can always be made on a crafting table and
/// also in the inventory grid when they fit it (at most four ingredients,
/// or a pattern of at most 2x2); cutting and cooking recipes have one
/// station and one ingredient slot; special recipes are dropped.
pub open spec fn converted(r: RecipeData) -> Option<(Seq<CraftingStation>, Seq<Seq<(Seq<char>, i8)>>, (Seq<char>, i8), Option<(u8, u8)>)> {
    match r {
        RecipeData::CraftingShapeless { ingredients, result } => if result is None {
            None
        } else {
            Some((
                if ingredients@.len() <= 4 {
                    seq![CraftingStation::CraftingTable, CraftingStation::Inventory]
                } else {
                    seq![CraftingStation::CraftingTable]
                },
                ingredients@.map_values(|s: Vec<Slot>| present_items(s@)),
                result_of(result),
                None,
            ))
        },
        RecipeData::CraftingShaped { width, height, ingredients, result } => Some((
            if width <= 2 && height <= 2 {
                seq![CraftingStation::CraftingTable, CraftingStation::Inventory]
            } else {
                seq![CraftingStation::CraftingTable]
            },
            ingredients@.map_values(|s: Vec<Slot>| pattern_items(s@)),
            result_of(result),
            Some((width as u8, height as u8)),
        )),
        RecipeData::Stonecutting { ingredient, result } => Some(
            (seq![CraftingStation::StoneCutter], single_slot(ingredient@), result_of(result), None),
        ),
        RecipeData::Smelting { ingredient, result } => Some(
            (seq![CraftingStation::Furnace], single_slot(ingredient@), result_of(result), None),
        ),
        RecipeData::Blasting { ingredient, result } => Some(
            (seq![CraftingStation::BlastFurnace], single_slot(ingredient@), result_of(result), None),
        ),
        RecipeData::Smoking { ingredient, result } => Some(
            (seq![CraftingStation::Smoker], single_slot(ingredient@), result_of(result), None),
        ),
        RecipeData::CampfireCooking { ingredient, result } => Some(
            (seq![CraftingStation::Campfire], single_slot(ingredient@), result_of(result), None),
        ),
        RecipeData::Other => None,
    }
}

/// The inventory's 2x2 grid offers exactly the crafting recipes that fit
/// in it: a shapeless one of at most four ingredients, a shaped one whose
/// pattern is at most 2 wide and 2 high. The crafting table offers every
/// crafting recipe, and no other.
pub proof fn law_inventory_grid_offers_what_fits(r: RecipeData)
    ensures
        converted(r) matches Some(v) ==> {
            &&& v.0.contains(CraftingStation::Inventory) <==> match r {
                RecipeData::CraftingShapeless { ingredients, .. } => ingredients@.len() <= 4,
                RecipeData::CraftingShaped { width, height, .. } => width <= 2 && height <= 2,
                _ => false,
            }
            &&& (r is CraftingShapeless || r is CraftingShaped) <==> v.0.contains(CraftingStation::CraftingTable)
        },
{
    match r {
        RecipeData::CraftingShapeless { ingredients, result } => {
            let two = seq![CraftingStation::CraftingTable, CraftingStation::Inventory];
            let one = seq![CraftingStation::CraftingTable];
            assert(two[1] == CraftingStation::Inventory && two[0] == CraftingStation::CraftingTable);
            assert(one[0] == CraftingStation::CraftingTable);
            assert(!one.contains(CraftingStation::Inventory)) by {
                if one.contains(CraftingStation::Inventory) {
                    let i = choose|i: int| 0 <= i < one.len() && one[i] == CraftingStation::Inventory;
                }
            }
        },
        RecipeData::CraftingShaped { width, height, ingredients, result } => {
            let two = seq![CraftingStation::CraftingTable, CraftingStation::Inventory];
            let one = seq![CraftingStation::CraftingTable];
            assert(two[1] == CraftingStation::Inventory && two[0] == CraftingStation::CraftingTable);
            assert(one[0] == CraftingStation::CraftingTable);
            assert(!one.contains(CraftingStation::Inventory)) by {
                if one.contains(CraftingStation::Inventory) {
                    let i = choose|i: int| 0 <= i < one.len() && one[i] == CraftingStation::Inventory;
                }
            }
        },
        RecipeData::Stonecutting { .. } => {
            lemma_single_station(CraftingStation::StoneCutter);
        },
        RecipeData::Smelting { .. } => {
            lemma_single_station(CraftingStation::Furnace);
        },
        RecipeData::Blasting { .. } => {
            lemma_single_station(CraftingStation::BlastFurnace);
        },
        RecipeData::Smoking { .. } => {
            lemma_single_station(CraftingStation::Smoker);
        },
        RecipeData::CampfireCooking { .. } => {
            lemma_single_station(CraftingStation::Campfire);
        },
        RecipeData::Other => {},
    }
}

proof fn lemma_single_station(c: CraftingStation)
    requires
        c != CraftingStation::Inventory,
        c != CraftingStation::CraftingTable,
    ensures
        !seq![c].contains(CraftingStation::Inventory),
        !seq![c].contains(CraftingStation::CraftingTable),
{
    let one = seq![c];
    if one.contains(CraftingStation::Inventory) {
        let i = choose|i: int| 0 <= i < one.len() && one[i] == CraftingStation::Inventory;
        assert(one[i] == c);
    }
    if one.contains(CraftingStation::CraftingTable) {
        let i = choose|i: int| 0 <= i < one.len() && one[i] == CraftingStation::CraftingTable;
        assert(one[i] == c);
    }
}

fn copy_item(x: &(String, i8)) -> (r: (String, i8))
    ensures
        item_view(r) == item_view(*x),
{
    (owned(x.0.as_str()), x.1)
}

fn result_item(s: &Slot) -> (r: (String, i8))
    ensures
        item_view(r) == result_of(*s),
{
    match s {
        Some(x) => copy_item(x),
        None => (String::new(), 0),
    }
}

/// The item views of a list of items.
pub open spec fn items_view(v: Seq<(String, i8)>) -> Seq<(Seq<char>, i8)> {
    v.map_values(|x: (String, i8)| item_view(x))
}

fn present_slot(allowed: &Vec<Slot>) -> (r: Vec<(String, i8)>)
    ensures
        items_view(r@) == present_items(allowed@),
{
    let mut r: Vec<(String, i8)> = Vec::new();
    let mut i: usize = 0;
    while i < allowed.len()
        invariant
            i <= allowed@.len(),
            items_view(r@) == present_items(allowed@.take(i as int)),
        decreases allowed.len() - i,
    {
        assert(allowed@.take(i + 1).drop_last() =~= allowed@.take(i as int));
        let ghost before = items_view(r@);
        match &allowed[i] {
            Some(x) => {
                r.push(copy_item(x));
                assert(items_view(r@) =~= before.push((x.0@, x.1)));
            },
            None => {},
        }
        i += 1;
    }
    assert(allowed@.take(i as int) =~= allowed@);
    r
}

fn pattern_slot(allowed: &Vec<Slot>) -> (r: Vec<(String, i8)>)
    ensures
        items_view(r@) == pattern_items(allowed@),
{
    let mut r: Vec<(String, i8)> = Vec::new();
    let mut i: usize = 0;
    while i < allowed.len()
        invariant
            i <= allowed@.len(),
            items_view(r@) == pattern_items(allowed@.take(i as int)),
        decreases allowed.len() - i,
    {
        let ghost before = items_view(r@);
        let x = result_item(&allowed[i]);
        let ghost xv = item_view(x);
        r.push(x);
        assert(items_view(r@) =~= before.push(xv));
        assert(pattern_items(allowed@.take(i + 1)) =~= pattern_items(allowed@.take(i as int)).push(
            result_of(allowed@[i as int]),
        ));
        i += 1;
    }
    assert(allowed@.take(i as int) =~= allowed@);
    r
}

/// The ingredient slots of a list of slots, as plain values.
pub open spec fn slots_view(v: Seq<Vec<(String, i8)>>) -> Seq<Seq<(Seq<char>, i8)>> {
    v.map_values(|s: Vec<(String, i8)>| items_view(s@))
}

fn crafting_slots(ingredients: &Vec<Vec<Slot>>, shaped: bool) -> (r: Vec<Vec<(String, i8)>>)
    ensures
        shaped ==> slots_view(r@) == ingredients@.map_values(|s: Vec<Slot>| pattern_items(s@)),
        !shaped ==> slots_view(r@) == ingredients@.map_values(|s: Vec<Slot>| present_items(s@)),
{
    let mut r: Vec<Vec<(String, i8)>> = Vec::new();
    let mut i: usize = 0;
    while i < ingredients.len()
        invariant
            i <= ingredients@.len(),
            shaped ==> slots_view(r@) == ingredients@.take(i as int).map_values(
                |s: Vec<Slot>| pattern_items(s@),
            ),
            !shaped ==> slots_view(r@) == ingredients@.take(i as int).map_values(
                |s: Vec<Slot>| present_items(s@),
            ),
        decreases ingredients.len() - i,
    {
        let ghost before = slots_view(r@);
        let slot = if shaped {
            pattern_slot(&ingredients[i])
        } else {
            present_slot(&ingredients[i])
        };
        let ghost sv = items_view(slot@);
        r.push(slot);
        assert(slots_view(r@) =~= before.push(sv));
        i += 1;
        assert(shaped ==> slots_view(r@) =~= ingredients@.take(i as int).map_values(
            |s: Vec<Slot>| pattern_items(s@),
        ));
        assert(!shaped ==> slots_view(r@) =~= ingredients@.take(i as int).map_values(
            |s: Vec<Slot>| present_items(s@),
        ));
    }
    assert(ingredients@.take(i as int) =~= ingredients@);
    r
}

} // verus!

verus! {

fn one_station(s: CraftingStation) -> (r: Vec<CraftingStation>)
    ensures
        r@ == seq![s],
{
    let mut r = Vec::new();
    r.push(s);
    r
}

fn crafting_stations(fits_inventory: bool) -> (r: Vec<CraftingStation>)
    ensures
        r@ == if fits_inventory {
            seq![CraftingStation::CraftingTable, CraftingStation::Inventory]
        } else {
            seq![CraftingStation::CraftingTable]
        },
{
    let mut r = Vec::new();
    r.push(CraftingStation::CraftingTable);
    if fits_inventory {
        r.push(CraftingStation::Inventory);
    }
    r
}

fn single(station: CraftingStation, ingredient: &Vec<Slot>, result: &Slot) -> (r: ServerRecipe)
    ensures
        recipe_view(r) == (seq![station], single_slot(ingredient@), result_of(*result), None::<(u8, u8)>),
{
    let slot = present_slot(ingredient);
    let ghost sv = items_view(slot@);
    let mut ingredients: Vec<Vec<(String, i8)>> = Vec::new();
    ingredients.push(slot);
    assert(slots_view(ingredients@) =~= seq![sv]);
    ServerRecipe { stations: one_station(station), ingredients, result: result_item(result), shaped: None }
}

/// Converts one server recipe (see `converted`).
pub fn convert_recipe(recipe: &RecipeData) -> (r: Option<ServerRecipe>)
    ensures
        match converted(*recipe) {
            Some(v) => r matches Some(x) && recipe_view(x) == v,
            None => r is None,
        },
{
    match recipe {
        RecipeData::CraftingShapeless { ingredients, result } => {
            if result.is_none() {
                return None;
            }
            Some(
                ServerRecipe {
                    stations: crafting_stations(ingredients.len() <= 4),
                    ingredients: crafting_slots(ingredients, false),
                    result: result_item(result),
                    shaped: None,
                },
            )
        },
        RecipeData::CraftingShaped { width, height, ingredients, result } => Some(
            ServerRecipe {
                stations: crafting_stations(*width <= 2 && *height <= 2),
                ingredients: crafting_slots(ingredients, true),
                result: result_item(result),
                shaped: Some((*width as u8, *height as u8)),
            },
        ),
        RecipeData::Stonecutting { ingredient, result } => Some(
            single(CraftingStation::StoneCutter, ingredient, result),
        ),
        RecipeData::Smelting { ingredient, result } => Some(
            single(CraftingStation::Furnace, ingredient, result),
        ),
        RecipeData::Blasting { ingredient, result } => Some(
            single(CraftingStation::BlastFurnace, ingredient, result),
        ),
        RecipeData::Smoking { ingredient, result } => Some(single(CraftingStation::Smoker, ingredient, result)),
        RecipeData::CampfireCooking { ingredient, result } => Some(
            single(CraftingStation::Campfire, ingredient, result),
        ),
        RecipeData::Other => None,
    }
}

/// A converted recipe as plain values.
pub type RecipeView = (Seq<CraftingStation>, Seq<Seq<(Seq<char>, i8)>>, (Seq<char>, i8), Option<(u8, u8)>);

/// The plain values of each converted recipe.
pub open spec fn recipe_views() -> spec_fn(ServerRecipe) -> RecipeView {
    |x: ServerRecipe| recipe_view(x)
}

/// What each announced recipe becomes.
pub open spec fn conversions() -> spec_fn(RecipeData) -> Option<RecipeView> {
    |d: RecipeData| converted(d)
}

/// Keeps the recipes that are not dropped.
pub open spec fn kept() -> spec_fn(Option<RecipeView>) -> bool {
    |c: Option<RecipeView>| c is Some
}

/// The converted recipe of a kept one.
pub open spec fn unwrapped() -> spec_fn(Option<RecipeView>) -> RecipeView {
    |c: Option<RecipeView>| c->0
}

/// Converts all announced recipes, in order, leaving out those that are
/// dropped.
pub fn update_recipes(recipes: &Vec<RecipeData>) -> (r: Vec<ServerRecipe>)
    ensures
        r@.map_values(recipe_views()) == recipes@.map_values(conversions()).filter(kept()).map_values(
            unwrapped(),
        ),
{
    let mut r: Vec<ServerRecipe> = Vec::new();
    let mut i: usize = 0;
    while i < recipes.len()
        invariant
            i <= recipes@.len(),
            r@.map_values(recipe_views()) == recipes@.take(i as int).map_values(conversions()).filter(
                kept(),
            ).map_values(unwrapped()),
        decreases recipes.len() - i,
    {
        let ghost t = recipes@.take(i + 1).map_values(conversions());
        proof {
            reveal(Seq::filter);
            assert(t.drop_last() =~= recipes@.take(i as int).map_values(conversions()));
            assert(t.last() == converted(recipes@[i as int]));
        }
        let ghost before = r@.map_values(recipe_views());
        match convert_recipe(&recipes[i]) {
            Some(x) => {
                let ghost xv = recipe_view(x);
                r.push(x);
                assert(r@.map_values(recipe_views()) =~= before.push(xv));
            },
            None => {},
        }
        i += 1;
    }
    assert(recipes@.take(i as int) =~= recipes@);
    r
}

} // verus!
