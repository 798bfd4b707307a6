//! Open containers: which one is open, its server-sent properties, and
//! what the client's form submissions ask the server to do.
use vstd::prelude::*;
use std::collections::HashMap;
use crate::nodedef::contains_id;
use crate::text::{owned, str_eq, strip_prefix, parse_u32, parsed_u32, contains_str, decimal, digits_value, all_digits, unsigned_part, is_digit, digit_char};

verus! {

broadcast use vstd::std_specs::hash::group_hash_axioms;

/// Name of the client form that shows the open container.
pub const CONTAINER_FORM_NAME: &'static str = "current-container-form";

/// Number of effects a beacon offers.
pub const BEACON_EFFECT_COUNT: usize = 6;

/// Kinds of container screens.
#[derive(Clone, Copy, Debug, PartialEq, Eq, Structural)]
pub enum MenuKind {
    Generic9x1,
    Generic9x2,
    Generic9x3,
    Generic9x4,
    Generic9x5,
    Generic9x6,
    Generic3x3,
    Crafter3x3,
    Anvil,
    Beacon,
    BlastFurnace,
    BrewingStand,
    Crafting,
    Enchantment,
    Furnace,
    Grindstone,
    Hopper,
    Lectern,
    Loom,
    Merchant,
    ShulkerBox,
    Smithing,
    Smoker,
    CartographyTable,
    Stonecutter,
}

/// The one open container.
#[derive(Debug)]
pub struct ContainerState {
    pub id: i32,
    pub kind: MenuKind,
    pub title: String,
    /// Values of the container's properties by id (fuel, cook time, ...).
    pub properties: HashMap<u16, u16>,
    /// Progress bar lengths last shown, to skip invisible changes.
    pub last_shown_progress: Vec<u16>,
    /// Which enchantment options were last shown as affordable.
    pub last_shown_affordable: [bool; 3],
    /// Item id in an open stonecutter's input slot.
    pub stonecutter_input: Option<u32>,
    /// Patterns selectable on an open loom.
    pub loom_patterns: Vec<String>,
}

impl ContainerState {
    /// A freshly opened container with nothing known about it yet.
    pub fn new(id: i32, kind: MenuKind, title: String) -> (r: ContainerState)
        ensures
            r.id == id,
            r.kind == kind,
            r.title == title,
            r.properties@ == Map::<u16, u16>::empty(),
            r.last_shown_progress@ == Seq::<u16>::empty(),
            r.last_shown_affordable@ == seq![false, false, false],
            r.stonecutter_input is None,
            r.loom_patterns@ == Seq::<String>::empty(),
    {
        ContainerState {
            id,
            kind,
            title,
            properties: HashMap::new(),
            last_shown_progress: Vec::new(),
            last_shown_affordable: [false; 3],
            stonecutter_input: None,
            loom_patterns: Vec::new(),
        }
    }
}

impl ContainerState {
    /// Records a property value the server sent.
    pub fn set_property(&mut self, id: u16, value: u16)
        ensures
            final(self).properties@ == old(self).properties@.insert(id, value),
            final(self).id == old(self).id,
            final(self).kind == old(self).kind,
            final(self).last_shown_progress == old(self).last_shown_progress,
    {
        self.properties.insert(id, value);
    }

    /// Remembers the progress bar lengths about to be drawn; returns
    /// whether they differ from those last shown (only then the form needs
    /// redrawing).
    pub fn progress_changed(&mut self, progress: Vec<u16>) -> (r: bool)
        ensures
            r == (progress@ != old(self).last_shown_progress@),
            final(self).last_shown_progress@ == progress@,
            final(self).properties@ == old(self).properties@,
            final(self).id == old(self).id,
            final(self).kind == old(self).kind,
    {
        let mut same = progress.len() == self.last_shown_progress.len();
        let mut i: usize = 0;
        while same && i < progress.len()
            invariant
                i <= progress@.len(),
                same ==> progress@.len() == self.last_shown_progress@.len(),
                same ==> forall|k: int| 0 <= k < i ==> progress@[k] == self.last_shown_progress@[k],
                !same ==> progress@ != self.last_shown_progress@,
            decreases progress.len() - i + if same { 1int } else { 0int },
        {
            if progress[i] != self.last_shown_progress[i] {
                same = false;
            } else {
                i += 1;
            }
        }
        if same {
            assert(progress@ =~= self.last_shown_progress@);
        }
        self.last_shown_progress = progress;
        !same
    }
}

/// The open container if it is the one `id` names: packets about
/// another (or a closed) container are stale and must be ignored.
pub fn open_container(container: &Option<ContainerState>, id: i32) -> (r: Option<&ContainerState>)
    ensures
        match container {
            Some(c) => if c.id == id {
                r == Some(c)
            } else {
                r is None
            },
            None => r is None,
        },
{
    match container {
        Some(c) => if c.id == id {
            Some(c)
        } else {
            None
        },
        None => None,
    }
}

/// A property's value, 0 if the server never sent it.
pub fn property(properties: &HashMap<u16, u16>, id: u16) -> (r: u16)
    ensures
        r == if properties@.contains_key(id) {
            properties@[id]
        } else {
            0
        },
{
    match properties.get(&id) {
        Some(v) => *v,
        None => 0,
    }
}

/// Which of the three enchantment options the player can pay for: all in
/// creative mode, else option `i` needs more than `i` lapis and at least
/// its level cost (property `i`).
pub fn affordable_enchantments(
    creative: bool,
    level: u32,
    lapis: i32,
    properties: &HashMap<u16, u16>,
) -> (r: [bool; 3])
    ensures
        forall|i: int|
            0 <= i < 3 ==> #[trigger] r@[i] == (creative || (lapis > i && level >= (if properties@.contains_key(
                i as u16,
            ) {
                properties@[i as u16]
            } else {
                0
            }))),
{
    if creative {
        return [true; 3];
    }
    let mut r = [false; 3];
    let mut i: u16 = 0;
    while i < 3
        invariant
            i <= 3,
            !creative,
            r@.len() == 3,
            forall|k: int|
                0 <= k < i ==> #[trigger] r@[k] == (lapis > k && level >= (if properties@.contains_key(
                    k as u16,
                ) {
                    properties@[k as u16]
                } else {
                    0
                })),
        decreases 3 - i,
    {
        let required = property(properties, i);
        r[i as usize] = lapis > i as i32 && level >= required as u32;
        i += 1;
    }
    r
}

/// The enchantment table's level costs (properties 0..=2) and hints
/// (properties 4..=9), which decide what the form shows.
pub fn enchantment_display(properties: &HashMap<u16, u16>) -> (r: Vec<u16>)
    ensures
        r@.len() == 9,
        forall|i: int|
            0 <= i < 9 ==> {
                let id = (if i < 3 { i } else { i + 1 }) as u16;
                #[trigger] r@[i] == if properties@.contains_key(id) {
                    properties@[id]
                } else {
                    0
                }
            },
{
    let mut r: Vec<u16> = Vec::new();
    let mut id: u16 = 0;
    while id <= 9
        invariant
            id <= 10,
            id != 3,
            r@.len() == if id < 3 { id as int } else { id - 1 },
            forall|i: int|
                0 <= i < r@.len() ==> {
                    let pid = (if i < 3 { i } else { i + 1 }) as u16;
                    #[trigger] r@[i] == if properties@.contains_key(pid) {
                        properties@[pid]
                    } else {
                        0
                    }
                },
        decreases 10 - id,
    {
        r.push(property(properties, id));
        id = if id == 2 { 4 } else { id + 1 };
    }
    r
}

/// The ingredient a stonecutter recipe accepts.
#[derive(Debug)]
pub enum StonecutterInput {
    /// Any of these item ids.
    Items(Vec<u32>),
    /// A named item tag, whose members are not known to the proxy.
    Tag,
}

/// One stonecutter recipe as the server announced it.
#[derive(Debug)]
pub struct StonecutterRecipe {
    pub input: StonecutterInput,
    /// Item string of the option's icon ("minecraft:stone_slab 2").
    pub display: String,
}

/// Whether a recipe takes `item` as its input; a recipe given by tag
/// takes nothing, as the tag's members are unknown.
pub open spec fn accepts(input: StonecutterInput, item: u32) -> bool {
    match input {
        StonecutterInput::Items(ids) => ids@.contains(item),
        StonecutterInput::Tag => false,
    }
}

pub open spec fn accepts_item(item: u32) -> spec_fn(StonecutterRecipe) -> bool {
    |r: StonecutterRecipe| accepts(r.input, item)
}

/// The recipes offered for the stonecutter's input: none while the input
/// slot is empty, else those accepting the input item, in the order the
/// server sent them (the server is answered with indices into this list).
pub fn matching_stonecutter_recipes(
    recipes: &Vec<StonecutterRecipe>,
    input: Option<u32>,
) -> (r: Vec<&StonecutterRecipe>)
    ensures
        match input {
            None => r@.len() == 0,
            Some(item) => r@.map_values(|x: &StonecutterRecipe| *x) == recipes@.filter(accepts_item(item)),
        },
{
    let item = match input {
        None => return Vec::new(),
        Some(item) => item,
    };
    let mut r: Vec<&StonecutterRecipe> = Vec::new();
    let mut i: usize = 0;
    while i < recipes.len()
        invariant
            i <= recipes@.len(),
            r@.map_values(|x: &StonecutterRecipe| *x) == recipes@.take(i as int).filter(accepts_item(item)),
        decreases recipes.len() - i,
    {
        proof {
            reveal(Seq::filter);
            assert(recipes@.take(i + 1).drop_last() =~= recipes@.take(i as int));
        }
        let recipe = &recipes[i];
        let takes = match &recipe.input {
            StonecutterInput::Items(ids) => contains_id(ids, item),
            StonecutterInput::Tag => false,
        };
        let ghost before = r@.map_values(|x: &StonecutterRecipe| *x);
        if takes {
            r.push(recipe);
            assert(r@.map_values(|x: &StonecutterRecipe| *x) =~= before.push(recipes@[i as int]));
        }
        i += 1;
    }
    assert(recipes@.take(i as int) =~= recipes@);
    r
}

/// The banner patterns a loom offers: those needing no pattern item, and
/// those each pattern item (by item name) unlocks.
#[derive(Debug)]
pub struct BannerPatterns {
    pub no_item_required: Vec<String>,
    pub pattern_items: Vec<(String, Vec<String>)>,
}

pub open spec fn string_views(v: Seq<String>) -> Seq<Seq<char>> {
    v.map_values(|s: String| s@)
}

/// The patterns unlocked by the item named `key`: those of the last entry
/// with that name (a later entry replaces an earlier one), none if there is
/// no such entry.
pub open spec fn patterns_for(entries: Seq<(String, Vec<String>)>, key: Seq<char>) -> Seq<Seq<char>>
    decreases entries.len(),
{
    if entries.len() == 0 {
        Seq::empty()
    } else if entries.last().0@ == key {
        string_views(entries.last().1@)
    } else {
        patterns_for(entries.drop_last(), key)
    }
}

/// What a loom offers for its inputs.
pub open spec fn loom_patterns_of(
    data: BannerPatterns,
    has_banner: bool,
    has_dye: bool,
    pattern_item: Option<Seq<char>>,
) -> Seq<Seq<char>> {
    if !has_banner || !has_dye {
        Seq::empty()
    } else {
        match pattern_item {
            None => string_views(data.no_item_required@),
            Some(name) => patterns_for(data.pattern_items@, name),
        }
    }
}

fn copy_strings(v: &Vec<String>) -> (r: Vec<String>)
    ensures
        string_views(r@) == string_views(v@),
{
    let mut r: Vec<String> = Vec::new();
    let mut i: usize = 0;
    while i < v.len()
        invariant
            i <= v@.len(),
            string_views(r@) == string_views(v@.take(i as int)),
        decreases v.len() - i,
    {
        let ghost before = r@;
        let c = owned(v[i].as_str());
        r.push(c);
        assert(r@ =~= before.push(c));
        assert(v@.take(i + 1) =~= v@.take(i as int).push(v@[i as int]));
        assert(string_views(r@) =~= string_views(before).push(v@[i as int]@));
        assert(string_views(v@.take(i + 1)) =~= string_views(v@.take(i as int)).push(v@[i as int]@));
        i += 1;
    }
    assert(v@.take(i as int) =~= v@);
    r
}

/// The banner patterns selectable on a loom: none unless a banner and a
/// dye are in; without a pattern item those that need none; with one,
/// those it unlocks (none for an item the data does not list). The client
/// answers with an index into this list.
pub fn selectable_loom_patterns(
    data: &BannerPatterns,
    has_banner: bool,
    has_dye: bool,
    pattern_item: Option<&str>,
) -> (r: Vec<String>)
    ensures
        string_views(r@) == loom_patterns_of(
            *data,
            has_banner,
            has_dye,
            match pattern_item {
                Some(n) => Some(n@),
                None => None,
            },
        ),
{
    if !has_banner || !has_dye {
        return Vec::new();
    }
    match pattern_item {
        None => copy_strings(&data.no_item_required),
        Some(name) => {
            let entries = &data.pattern_items;
            let mut i: usize = entries.len();
            assert(entries@.take(i as int) =~= entries@);
            while i > 0
                invariant
                    has_banner && has_dye,
                    pattern_item == Some(name),
                    entries@ == data.pattern_items@,
                    i <= entries@.len(),
                    patterns_for(entries@, name@) == patterns_for(entries@.take(i as int), name@),
                decreases i,
            {
                proof {
                    assert(entries@.take(i as int).drop_last() =~= entries@.take(i - 1));
                }
                assert(entries@.take(i as int).last() == entries@[i - 1]);
                if str_eq(entries[i - 1].0.as_str(), name) {
                    assert(patterns_for(entries@.take(i as int), name@) == string_views(
                        entries@[i - 1].1@,
                    ));
                    return copy_strings(&entries[i - 1].1);
                }
                i -= 1;
            }
            Vec::new()
        },
    }
}

/// Whether two string lists hold the same strings in the same order.
pub fn strings_eq(a: &Vec<String>, b: &Vec<String>) -> (r: bool)
    ensures
        r == (string_views(a@) == string_views(b@)),
{
    if a.len() != b.len() {
        proof {
            assert(string_views(a@).len() != string_views(b@).len());
        }
        return false;
    }
    let mut i: usize = 0;
    while i < a.len()
        invariant
            a@.len() == b@.len(),
            i <= a@.len(),
            forall|k: int| 0 <= k < i ==> a@[k]@ == b@[k]@,
        decreases a.len() - i,
    {
        if !str_eq(a[i].as_str(), b[i].as_str()) {
            proof {
                assert(string_views(a@)[i as int] != string_views(b@)[i as int]);
            }
            return false;
        }
        i += 1;
    }
    assert(string_views(a@) =~= string_views(b@));
    true
}

impl ContainerState {
    /// Takes the stonecutter input and loom patterns derived from the
    /// container's slots; returns whether the form must be shown again,
    /// which is when either changed and the container is a stonecutter or
    /// a loom (their options depend on them).
    pub fn update_options(&mut self, stonecutter_input: Option<u32>, loom_patterns: Vec<String>) -> (r: bool)
        ensures
            final(self).stonecutter_input == stonecutter_input,
            string_views(final(self).loom_patterns@) == string_views(loom_patterns@),
            r == ((stonecutter_input != old(self).stonecutter_input || string_views(loom_patterns@)
                != string_views(old(self).loom_patterns@)) && (old(self).kind == MenuKind::Stonecutter
                || old(self).kind == MenuKind::Loom)),
            final(self).id == old(self).id,
            final(self).kind == old(self).kind,
            final(self).properties@ == old(self).properties@,
            final(self).last_shown_progress@ == old(self).last_shown_progress@,
            final(self).last_shown_affordable == old(self).last_shown_affordable,
    {
        let same = match (stonecutter_input, self.stonecutter_input) {
            (Some(a), Some(b)) => a == b,
            (None, None) => true,
            _ => false,
        } && strings_eq(&loom_patterns, &self.loom_patterns);
        if same {
            return false;
        }
        self.stonecutter_input = stonecutter_input;
        self.loom_patterns = loom_patterns;
        match self.kind {
            MenuKind::Stonecutter | MenuKind::Loom => true,
            _ => false,
        }
    }

    /// Takes which enchantment options the player can now pay for; returns
    /// whether the form must be shown again, which is when the container
    /// is an enchanting table and they differ from those last shown.
    pub fn update_affordable(&mut self, affordable: [bool; 3]) -> (r: bool)
        ensures
            r == (old(self).kind == MenuKind::Enchantment && affordable@ != old(
                self,
            ).last_shown_affordable@),
            final(self).last_shown_affordable@ == if r {
                affordable@
            } else {
                old(self).last_shown_affordable@
            },
            final(self).id == old(self).id,
            final(self).kind == old(self).kind,
            final(self).properties@ == old(self).properties@,
            final(self).last_shown_progress@ == old(self).last_shown_progress@,
            final(self).stonecutter_input == old(self).stonecutter_input,
            final(self).loom_patterns@ == old(self).loom_patterns@,
    {
        if self.kind != MenuKind::Enchantment {
            return false;
        }
        let same = affordable[0] == self.last_shown_affordable[0] && affordable[1]
            == self.last_shown_affordable[1] && affordable[2] == self.last_shown_affordable[2];
        if same {
            assert(affordable@ =~= self.last_shown_affordable@);
            return false;
        }
        self.last_shown_affordable = affordable;
        true
    }
}

/// What a field of a submitted container form asks for.
#[derive(Clone, Copy, Debug, PartialEq, Eq, Structural)]
pub enum FormAction {
    /// Close the container.
    Close,
    /// Pick a merchant's trade offer.
    SelectTrade(u32),
    /// Press a container button (enchantment option, stonecutter recipe,
    /// loom pattern) of the open container.
    ClickButton(i32, u32),
    /// Choose the beacon effect with this index.
    SetBeacon(usize),
}

/// `name` starts with `prefix` and the rest parses as a number.
pub open spec fn prefixed_number(name: Seq<char>, prefix: Seq<char>) -> Option<u32> {
    if prefix.len() <= name.len() && name.subrange(0, prefix.len() as int) == prefix {
        parsed_u32(name.subrange(prefix.len() as int, name.len() as int))
    } else {
        None
    }
}

/// The number after the first of "enchant_", "stonecut_", "loom_" that
/// `name` starts with.
pub open spec fn button_number(name: Seq<char>) -> Option<u32> {
    let starts = |p: Seq<char>| p.len() <= name.len() && name.subrange(0, p.len() as int) == p;
    if starts("enchant_"@) {
        prefixed_number(name, "enchant_"@)
    } else if starts("stonecut_"@) {
        prefixed_number(name, "stonecut_"@)
    } else {
        prefixed_number(name, "loom_"@)
    }
}

/// What one form field asks for, given the id of the open container.
pub open spec fn field_action(name: Seq<char>, open_id: Option<i32>) -> Option<FormAction> {
    if prefixed_number(name, "trade_"@) is Some {
        Some(FormAction::SelectTrade(prefixed_number(name, "trade_"@)->0))
    } else if button_number(name) is Some && open_id is Some {
        Some(FormAction::ClickButton(open_id->0, button_number(name)->0))
    } else if prefixed_number(name, "beacon_"@) is Some && prefixed_number(name, "beacon_"@)->0 < 6 {
        Some(FormAction::SetBeacon(prefixed_number(name, "beacon_"@)->0 as usize))
    } else {
        None
    }
}

fn number_after(name: &str, prefix: &str) -> (r: Option<u32>)
    ensures
        r == prefixed_number(name@, prefix@),
{
    match strip_prefix(name, prefix) {
        Some(rest) => parse_u32(rest),
        None => None,
    }
}

/// The action of one form field (see `field_action`).
pub fn form_field_action(name: &str, open_id: Option<i32>) -> (r: Option<FormAction>)
    ensures
        r == field_action(name@, open_id),
{
    let trade = number_after(name, "trade_");
    if let Some(index) = trade {
        return Some(FormAction::SelectTrade(index));
    }
    let button = match strip_prefix(name, "enchant_") {
        Some(rest) => parse_u32(rest),
        None => match strip_prefix(name, "stonecut_") {
            Some(rest) => parse_u32(rest),
            None => number_after(name, "loom_"),
        },
    };
    if let (Some(id), Some(b)) = (open_id, button) {
        return Some(FormAction::ClickButton(id, b));
    }
    match number_after(name, "beacon_") {
        Some(index) => if index < 6 {
            Some(FormAction::SetBeacon(index as usize))
        } else {
            None
        },
        None => None,
    }
}

/// Keeps the fields that ask for something.
pub open spec fn has_action() -> spec_fn(Option<FormAction>) -> bool {
    |a: Option<FormAction>| a is Some
}

/// The action a field asks for.
pub open spec fn the_action() -> spec_fn(Option<FormAction>) -> FormAction {
    |a: Option<FormAction>| a->0
}

/// The action of each field, given the open container.
pub open spec fn field_actions(open_id: Option<i32>) -> spec_fn(Seq<char>) -> Option<FormAction> {
    |f: Seq<char>| field_action(f, open_id)
}

/// The actions a submitted form asks for, given the form's name, the
/// names of its fields in order and the id of the open container (if
/// any): nothing for another form; only closing if a field is "quit";
/// else each field's action in order.
pub fn handle_form_fields(form_name: &str, fields: &Vec<String>, open_id: Option<i32>) -> (r: Vec<
    FormAction,
>)
    ensures
        form_name@ != CONTAINER_FORM_NAME@ ==> r@ == Seq::<FormAction>::empty(),
        form_name@ == CONTAINER_FORM_NAME@ && fields.deep_view().contains("quit"@) ==> r@ == seq![
            FormAction::Close,
        ],
        form_name@ == CONTAINER_FORM_NAME@ && !fields.deep_view().contains("quit"@) ==> r@
            == fields.deep_view().map_values(field_actions(open_id)).filter(has_action()).map_values(
            the_action(),
        ),
{
    let mut r: Vec<FormAction> = Vec::new();
    if !str_eq(form_name, CONTAINER_FORM_NAME) {
        return r;
    }
    if contains_str(fields, "quit") {
        r.push(FormAction::Close);
        return r;
    }
    let ghost fv = fields.deep_view();
    let ghost acts = fv.map_values(field_actions(open_id));
    let ghost some = has_action();
    let ghost unwrap = the_action();
    let mut i: usize = 0;
    while i < fields.len()
        invariant
            i <= fields@.len(),
            fv == fields.deep_view(),
            acts == fv.map_values(field_actions(open_id)),
            some == has_action(),
            unwrap == the_action(),
            r@ == acts.take(i as int).filter(some).map_values(unwrap),
        decreases fields.len() - i,
    {
        proof {
            reveal(Seq::filter);
            assert(acts.take(i + 1).drop_last() =~= acts.take(i as int));
        }
        let a = form_field_action(fields[i].as_str(), open_id);
        assert(a == acts[i as int]);
        let ghost before = r@;
        let ghost t = acts.take(i + 1);
        assert(t.last() == a);
        assert(t.filter(some) == if some(t.last()) {
            t.drop_last().filter(some).push(t.last())
        } else {
            t.drop_last().filter(some)
        });
        if let Some(act) = a {
            r.push(act);
            assert(r@ =~= acts.take(i + 1).filter(some).map_values(unwrap));
        } else {
            assert(r@ =~= acts.take(i + 1).filter(some).map_values(unwrap));
        }
        i += 1;
    }
    assert(acts.take(fields@.len() as int) =~= acts);
    r
}

} // verus!

verus! {

proof fn lemma_digit_char_value(k: int)
    requires
        0 <= k < 10,
    ensures
        (digit_char(k) as int) - ('0' as int) == k,
        is_digit(digit_char(k)),
        digit_char(k) != '+',
{
}

proof fn lemma_decimal_digits(n: nat)
    ensures
        decimal(n).len() > 0,
        all_digits(decimal(n)),
        digits_value(decimal(n)) == n,
        decimal(n)[0] != '+',
    decreases n,
{
    lemma_digit_char_value((n % 10) as int);
    if n >= 10 {
        lemma_decimal_digits(n / 10);
        let d = decimal(n);
        assert(d.last() == digit_char((n % 10) as int));
        assert(d.drop_last() =~= decimal(n / 10));
        assert(forall|i: int| 0 <= i < d.len() - 1 ==> d[i] == decimal(n / 10)[i]);
        assert(digits_value(d) == digits_value(d.drop_last()) * 10 + ((d.last() as int) - ('0' as int)) as nat);
        assert(n == (n / 10) * 10 + n % 10);
    } else {
        let d = decimal(n);
        assert(d.drop_last() =~= Seq::<char>::empty());
        assert(digits_value(d.drop_last()) == 0);
        assert(n % 10 == n);
    }
}

/// A form button named by a prefix and a number written in decimal (as
/// the container forms name their buttons, "trade_3") is read back as
/// that number, so a click selects the option that was drawn.
pub proof fn law_button_names_read_back(prefix: Seq<char>, n: u32, name: Seq<char>)
    requires
        name == prefix + decimal(n as nat),
    ensures
        prefixed_number(name, prefix) == Some(n),
{
    lemma_decimal_digits(n as nat);
    assert(name.subrange(0, prefix.len() as int) =~= prefix);
    assert(name.subrange(prefix.len() as int, name.len() as int) =~= decimal(n as nat));
    assert(unsigned_part(decimal(n as nat)) == decimal(n as nat));
}

/// The trade button of offer `n` selects offer `n`.
pub proof fn law_trade_button_selects_offer(n: u32, open_id: Option<i32>)
    ensures
        field_action("trade_"@ + decimal(n as nat), open_id) == Some(FormAction::SelectTrade(n)),
{
    law_button_names_read_back("trade_"@, n, "trade_"@ + decimal(n as nat));
}

} // verus!
