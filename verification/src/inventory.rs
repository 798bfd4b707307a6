//! Inventory slots: the client's (list, index) slots as Minecraft
//! menu slots, and the clicks that carry out the client's moves.
use vstd::prelude::*;
use crate::text::{owned, str_eq, contains_str};

verus! {

/// A player inventory list and slot the Minecraft player menu has: armor
/// and craft shifted, offhand and the craft result fixed, and main (at
/// most 36 slots) with its hotbar row first.
pub open spec fn valid_inv_slot(list: Seq<char>, i: int) -> bool {
    if list == "armor"@ {
        i + 5 <= u16::MAX
    } else if list == "craft"@ {
        i + 1 <= u16::MAX
    } else if list == "craftpreview"@ || list == "offhand"@ {
        true
    } else if list == "main"@ {
        i <= 35
    } else {
        false
    }
}

/// The Minecraft player-menu slot of a client list and index.
pub open spec fn inv_index(list: Seq<char>, i: int) -> int {
    if list == "armor"@ {
        i + 5
    } else if list == "craft"@ {
        i + 1
    } else if list == "craftpreview"@ {
        0
    } else if list == "offhand"@ {
        45
    } else if i <= 8 {
        i + 36
    } else {
        i
    }
}

proof fn lemma_list_names()
    ensures
        "armor"@ != "craft"@,
        "armor"@ != "craftpreview"@,
        "armor"@ != "offhand"@,
        "armor"@ != "main"@,
        "armor"@ != "container"@,
        "craft"@ != "craftpreview"@,
        "craft"@ != "offhand"@,
        "craft"@ != "main"@,
        "craft"@ != "container"@,
        "craftpreview"@ != "offhand"@,
        "craftpreview"@ != "main"@,
        "craftpreview"@ != "container"@,
        "offhand"@ != "main"@,
        "offhand"@ != "container"@,
        "main"@ != "container"@,
{
    reveal_strlit("armor");
    reveal_strlit("craft");
    reveal_strlit("craftpreview");
    reveal_strlit("offhand");
    reveal_strlit("main");
    reveal_strlit("container");
    assert("armor"@[0] != "craft"@[0]);
    assert("armor"@.len() == 5 && "craft"@.len() == 5 && "craftpreview"@.len() == 12);
    assert("offhand"@.len() == 7 && "main"@.len() == 4 && "container"@.len() == 9);
}

/// The Minecraft player-menu slot of a client inventory slot (see
/// `inv_index`).
pub fn to_inv_index(mt_index: u16, mt_list: &str) -> (r: u16)
    requires
        valid_inv_slot(mt_list@, mt_index as int),
    ensures
        r == inv_index(mt_list@, mt_index as int),
{
    proof {
        lemma_list_names();
    }
    if str_eq(mt_list, "armor") {
        mt_index + 5
    } else if str_eq(mt_list, "craft") {
        mt_index + 1
    } else if str_eq(mt_list, "craftpreview") {
        0
    } else if str_eq(mt_list, "offhand") {
        45
    } else if mt_index <= 8 {
        mt_index + 36
    } else {
        mt_index
    }
}

/// The same mapping written out row by row for the main list: the hotbar
/// row (0..=8) moves behind the other three rows, which keep their slots.
pub fn get_adjusted_index(mt_index: u16, mt_list: &str) -> (r: u16)
    requires
        mt_list@ == "armor"@ ==> mt_index + 5 <= u16::MAX,
        mt_list@ == "craft"@ ==> mt_index + 1 <= u16::MAX,
        mt_list@ == "armor"@ || mt_list@ == "craft"@ || mt_list@ == "craftpreview"@ || mt_list@ == "offhand"@
            || mt_list@ == "main"@,
    ensures
        r == (if mt_list@ == "main"@ && mt_index > 35 {
            mt_index as int
        } else {
            inv_index(mt_list@, mt_index as int)
        }),
{
    proof {
        lemma_list_names();
    }
    if str_eq(mt_list, "armor") {
        mt_index + 5
    } else if str_eq(mt_list, "craft") {
        mt_index + 1
    } else if str_eq(mt_list, "craftpreview") {
        0
    } else if str_eq(mt_list, "offhand") {
        45
    } else if mt_index <= 8 {
        (mt_index % 36) + 36
    } else if mt_index <= 17 {
        ((mt_index - 9) % 36) + 9
    } else if mt_index <= 26 {
        mt_index % 36
    } else {
        mt_index
    }
}

/// The slot of the open menu a client (list, index) stands for: container
/// slots as they are, main slots shifted from the player-menu layout to
/// where the menu's player slots begin (`offset`), the player-only lists
/// as in the player menu.
pub open spec fn menu_slot(list: Seq<char>, index: int, offset: int) -> int {
    if list == "container"@ {
        index
    } else if list == "main"@ {
        inv_index(list, index) - 9 + offset
    } else {
        inv_index(list, index)
    }
}

/// The menu slot of a client slot (see `menu_slot`).
pub fn shift_to_menu(list: &str, index: u16, offset: u16) -> (r: u16)
    requires
        list@ == "container"@ || valid_inv_slot(list@, index as int),
        list@ == "main"@ ==> inv_index(list@, index as int) - 9 + offset <= u16::MAX,
    ensures
        r == menu_slot(list@, index as int, offset as int),
{
    proof {
        lemma_list_names();
    }
    if str_eq(list, "container") {
        return index;
    }
    let raw = to_inv_index(index, list);
    if str_eq(list, "main") {
        (raw - 9) + offset
    } else {
        raw
    }
}

/// One click on a menu slot.
#[derive(Clone, Copy, Debug, PartialEq, Eq, Structural)]
pub enum Click {
    /// Throw the whole stack.
    ThrowAll(u16),
    /// Throw one item.
    ThrowOne(u16),
    /// Left click: pick up or put down the whole stack.
    PickupLeft(u16),
    /// Right click: put down one item.
    PickupRight(u16),
    /// Shift click: move the stack to the other side.
    QuickMove(u16),
}

/// The clicks that drop `count` items of a slot holding `slot_count`:
/// the whole stack at once if that is all of it, else one by one.
pub fn drop_clicks(slot_index: u16, slot_count: i32, count: u16) -> (r: Vec<Click>)
    ensures
        slot_count <= count ==> r@ == seq![Click::ThrowAll(slot_index)],
        slot_count > count ==> r@ == Seq::new(count as nat, |i: int| Click::ThrowOne(slot_index)),
{
    let mut r: Vec<Click> = Vec::new();
    if slot_count <= count as i32 {
        r.push(Click::ThrowAll(slot_index));
    } else {
        let mut i: u16 = 0;
        while i < count
            invariant
                i <= count,
                r@ == Seq::new(i as nat, |k: int| Click::ThrowOne(slot_index)),
            decreases count - i,
        {
            r.push(Click::ThrowOne(slot_index));
            i += 1;
            assert(r@ =~= Seq::new(i as nat, |k: int| Click::ThrowOne(slot_index)));
        }
    }
    r
}

/// The clicks that move `count` of the `src_count` items from one slot
/// to another: pick the stack up, then put it all down, or put down one
/// item per click and return the rest.
pub fn move_clicks(index_from: u16, index_to: u16, count: u16, src_count: u16) -> (r: Vec<Click>)
    ensures
        count >= src_count ==> r@ == seq![Click::PickupLeft(index_from), Click::PickupLeft(index_to)],
        count < src_count ==> r@ == seq![Click::PickupLeft(index_from)] + Seq::new(
            count as nat,
            |i: int| Click::PickupRight(index_to),
        ) + seq![Click::PickupLeft(index_from)],
{
    let mut r: Vec<Click> = Vec::new();
    r.push(Click::PickupLeft(index_from));
    if count >= src_count {
        r.push(Click::PickupLeft(index_to));
    } else {
        let mut i: u16 = 0;
        while i < count
            invariant
                i <= count,
                r@ == seq![Click::PickupLeft(index_from)] + Seq::new(
                    i as nat,
                    |k: int| Click::PickupRight(index_to),
                ),
            decreases count - i,
        {
            r.push(Click::PickupRight(index_to));
            i += 1;
            assert(r@ =~= seq![Click::PickupLeft(index_from)] + Seq::new(
                i as nat,
                |k: int| Click::PickupRight(index_to),
            ));
        }
        r.push(Click::PickupLeft(index_from));
    }
    r
}

/// The clicks that craft `count` times: shift-click the result slot.
pub fn craft_clicks(count: u16) -> (r: Vec<Click>)
    ensures
        r@ == Seq::new(count as nat, |i: int| Click::QuickMove(0)),
{
    let mut r: Vec<Click> = Vec::new();
    let mut i: u16 = 0;
    while i < count
        invariant
            i <= count,
            r@ == Seq::new(i as nat, |k: int| Click::QuickMove(0)),
        decreases count - i,
    {
        r.push(Click::QuickMove(0));
        i += 1;
        assert(r@ =~= Seq::new(i as nat, |k: int| Click::QuickMove(0)));
    }
    r
}

/// How many items a move takes: none from an empty slot, else at most
/// what the slot holds.
pub fn move_count(requested: u16, src_count: u16) -> (r: Option<u16>)
    ensures
        src_count == 0 ==> r is None,
        src_count > 0 ==> r == Some(if requested < src_count { requested } else { src_count }),
{
    if src_count == 0 {
        None
    } else if requested < src_count {
        Some(requested)
    } else {
        Some(src_count)
    }
}

/// The inventory lists the client shows, in the order updates list them.
pub open spec fn all_inv_fields() -> Seq<Seq<char>> {
    seq!["main"@, "armor"@, "offhand"@, "craft"@, "craftpreview"@, "container"@]
}

/// Keeps the names not among `changed`.
pub open spec fn not_in(changed: Seq<Seq<char>>) -> spec_fn(Seq<char>) -> bool {
    |f: Seq<char>| !changed.contains(f)
}

/// The lists an inventory update did not change, which the client must be
/// told to keep (else it drops them), in `all_inv_fields` order.
pub fn unchanged_fields(changed: &Vec<String>) -> (r: Vec<String>)
    ensures
        r.deep_view() == all_inv_fields().filter(not_in(changed.deep_view())),
{
    let names = ["main", "armor", "offhand", "craft", "craftpreview", "container"];
    let mut r: Vec<String> = Vec::new();
    let mut i: usize = 0;
    while i < 6
        invariant
            i <= 6,
            forall|k: int| 0 <= k < 6 ==> (#[trigger] names@[k])@ == all_inv_fields()[k],
            r.deep_view() == all_inv_fields().take(i as int).filter(not_in(changed.deep_view())),
        decreases 6 - i,
    {
        let ghost before = r.deep_view();
        assert(all_inv_fields().take(i + 1).drop_last() =~= all_inv_fields().take(i as int));
        assert(all_inv_fields().take(i + 1).last() == all_inv_fields()[i as int]);
        let ghost x = all_inv_fields()[i as int];
        let ghost t = all_inv_fields().take(i + 1);
        proof {
            reveal(Seq::filter);
        }
        assert(t.filter(not_in(changed.deep_view())) == if not_in(changed.deep_view())(t.last()) {
            t.drop_last().filter(not_in(changed.deep_view())).push(t.last())
        } else {
            t.drop_last().filter(not_in(changed.deep_view()))
        });
        if !contains_str(changed, names[i]) {
            r.push(owned(names[i]));
            assert(r.deep_view() =~= before.push(x));
        }
        i += 1;
    }
    assert(all_inv_fields().take(6) =~= all_inv_fields());
    r
}

/// Whether a submitted form asks to close it (a field named "quit").
pub fn wants_close(field_names: &Vec<String>) -> (r: bool)
    ensures
        r == field_names.deep_view().contains("quit"@),
{
    contains_str(field_names, "quit")
}

} // verus!

verus! {

/// The slots the player inventory lists really have: four armor and four
/// craft slots, the craft result, the offhand, and 36 main slots.
pub open spec fn real_inv_slot(list: Seq<char>, i: int) -> bool {
    &&& 0 <= i
    &&& if list == "armor"@ || list == "craft"@ {
        i < 4
    } else if list == "craftpreview"@ || list == "offhand"@ {
        i == 0
    } else {
        list == "main"@ && i < 36
    }
}

/// The Minecraft player menu, slot by slot: 0 is the craft result, 1 to
/// 4 the 2x2 craft grid in the client's order, 5 to 8 the armor, 9 to 35
/// the storage rows (client main slots 9 to 35, unchanged), 36 to 44 the
/// hotbar (client main slots 0 to 8) and 45 the offhand.
pub proof fn law_player_menu_layout(k: int)
    ensures
        inv_index("craftpreview"@, k) == 0,
        inv_index("offhand"@, k) == 45,
        0 <= k < 4 ==> inv_index("craft"@, k) == 1 + k,
        0 <= k < 4 ==> inv_index("armor"@, k) == 5 + k,
        0 <= k < 9 ==> inv_index("main"@, k) == 36 + k,
        9 <= k < 36 ==> inv_index("main"@, k) == k,
{
    lemma_list_names();
}

/// Distinct slots of the client's inventory lists are distinct slots of
/// the player menu, so a move never takes from or puts into the wrong
/// slot.
pub proof fn law_inv_index_injective(l1: Seq<char>, i1: int, l2: Seq<char>, i2: int)
    requires
        real_inv_slot(l1, i1),
        real_inv_slot(l2, i2),
        inv_index(l1, i1) == inv_index(l2, i2),
    ensures
        l1 == l2 && i1 == i2,
{
    lemma_list_names();
}

} // verus!

verus! {

/// The main list as the client shows it: the server's player-slot order
/// (three storage rows, then the hotbar) rotated right by 9 so that the
/// hotbar comes first.
pub fn rotate_main<T>(items: Vec<T>) -> (r: Vec<T>)
    requires
        items@.len() >= 9,
    ensures
        r@ == items@.subrange(items@.len() - 9, items@.len() as int) + items@.subrange(
            0,
            items@.len() - 9,
        ),
{
    let mut items = items;
    let at = items.len() - 9;
    let mut tail = items.split_off(at);
    tail.append(&mut items);
    tail
}

/// What the client shows in main slot `i` is the player-menu slot that a
/// click on main slot `i` is sent to: the rotation and `to_inv_index`
/// agree on every one of the 36 slots.
pub proof fn law_rotated_main_matches_slots<T>(server_main: Seq<T>, i: int)
    requires
        server_main.len() == 36,
        0 <= i < 36,
    ensures
        (server_main.subrange(27, 36) + server_main.subrange(0, 27))[i] == server_main[inv_index(
            "main"@,
            i,
        ) - 9],
{
    lemma_list_names();
}

/// What the proxy holds open of the player's inventory.
#[derive(Clone, Copy, Debug, PartialEq, Eq, Structural)]
pub struct InventoryState {
    /// The container the player has open, by its server id.
    pub container_id: Option<i32>,
    /// Whether the player's own inventory is held open (its crafting grid
    /// stays usable between clicks).
    pub holds_inventory: bool,
}

impl InventoryState {
    /// Nothing open.
    pub fn new() -> (r: InventoryState)
        ensures
            r.container_id is None,
            !r.holds_inventory,
    {
        InventoryState { container_id: None, holds_inventory: false }
    }
}

/// Lets go of everything open: the held inventory is dropped and the open
/// container forgotten. Returns the container the server must be told to
/// close, if one was open. The client sends no packet when it closes a
/// container, so this runs on every position update too.
pub fn close_open_container(inventory_state: &mut InventoryState) -> (closed: Option<i32>)
    ensures
        closed == old(inventory_state).container_id,
        final(inventory_state).container_id is None,
        !final(inventory_state).holds_inventory,
{
    let closed = inventory_state.container_id;
    inventory_state.container_id = None;
    inventory_state.holds_inventory = false;
    closed
}

} // verus!
