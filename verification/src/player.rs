//! The player's HUD, input and identity: health, food and air bars,
//! status-effect icons, movement keys, and user names.
use vstd::prelude::*;
use crate::text::{push_char, push_str, push_decimal, decimal, digit, digit_char, owned, str_eq, contains_str};
use crate::world::mirror_block_pos;
use rand::RngExt;

verus! {

/// Heart style of the health bar.
#[derive(Clone, Copy, Debug, PartialEq, Eq, Structural)]
pub enum HeartDisplay {
    Absorb,
    Frozen,
    Normal,
    Poison,
    Wither,
    HardcoreAbsorb,
    HardcoreFrozen,
    HardcoreNormal,
    HardcorePoison,
    HardcoreWither,
    Vehicle,
    /// Keep the current heart texture.
    NoChange,
}

/// Style of the food bar.
#[derive(Clone, Copy, Debug, PartialEq, Eq, Structural)]
pub enum FoodDisplay {
    Normal,
    Hunger,
    /// Keep the current food texture.
    NoChange,
}

/// The heart texture of a style; empty for `NoChange`.
pub open spec fn heart_texture_of(mode: HeartDisplay) -> Seq<char> {
    match mode {
        HeartDisplay::Absorb => "gui-sprites-hud-heart-absorbing_full.png"@,
        HeartDisplay::Frozen => "gui-sprites-hud-heart-frozen_full.png"@,
        HeartDisplay::Normal => "gui-sprites-hud-heart-full.png"@,
        HeartDisplay::Poison => "gui-sprites-hud-heart-poisoned_full.png"@,
        HeartDisplay::Wither => "gui-sprites-hud-heart-withered_full.png"@,
        HeartDisplay::HardcoreAbsorb => "gui-sprites-hud-heart-absorbing_hardcore_full.png"@,
        HeartDisplay::HardcoreFrozen => "gui-sprites-hud-heart-frozen_hardcore_full.png"@,
        HeartDisplay::HardcoreNormal => "gui-sprites-hud-heart-hardcore_full.png"@,
        HeartDisplay::HardcorePoison => "gui-sprites-hud-heart-poisoned_hardcore_full.png"@,
        HeartDisplay::HardcoreWither => "gui-sprites-hud-heart-withered_hardcore_full.png"@,
        HeartDisplay::Vehicle => "gui-sprites-hud-heart-vehicle_full.png"@,
        HeartDisplay::NoChange => Seq::empty(),
    }
}

/// The food texture of a style; empty for `NoChange`.
pub open spec fn food_texture_of(mode: FoodDisplay) -> Seq<char> {
    match mode {
        FoodDisplay::Normal => "gui-sprites-hud-food_full.png"@,
        FoodDisplay::Hunger => "gui-sprites-hud-food_full_hunger.png"@,
        FoodDisplay::NoChange => Seq::empty(),
    }
}

fn heart_texture(mode: HeartDisplay) -> (r: &'static str)
    ensures
        mode != HeartDisplay::NoChange ==> r@ == heart_texture_of(mode),
{
    match mode {
        HeartDisplay::Absorb => "gui-sprites-hud-heart-absorbing_full.png",
        HeartDisplay::Frozen => "gui-sprites-hud-heart-frozen_full.png",
        HeartDisplay::Normal => "gui-sprites-hud-heart-full.png",
        HeartDisplay::Poison => "gui-sprites-hud-heart-poisoned_full.png",
        HeartDisplay::Wither => "gui-sprites-hud-heart-withered_full.png",
        HeartDisplay::HardcoreAbsorb => "gui-sprites-hud-heart-absorbing_hardcore_full.png",
        HeartDisplay::HardcoreFrozen => "gui-sprites-hud-heart-frozen_hardcore_full.png",
        HeartDisplay::HardcoreNormal => "gui-sprites-hud-heart-hardcore_full.png",
        HeartDisplay::HardcorePoison => "gui-sprites-hud-heart-poisoned_hardcore_full.png",
        HeartDisplay::HardcoreWither => "gui-sprites-hud-heart-withered_hardcore_full.png",
        HeartDisplay::Vehicle => "gui-sprites-hud-heart-vehicle_full.png",
        HeartDisplay::NoChange => "",
    }
}

fn food_texture(mode: FoodDisplay) -> (r: &'static str)
    ensures
        mode != FoodDisplay::NoChange ==> r@ == food_texture_of(mode),
{
    match mode {
        FoodDisplay::Normal => "gui-sprites-hud-food_full.png",
        FoodDisplay::Hunger => "gui-sprites-hud-food_full_hunger.png",
        FoodDisplay::NoChange => "",
    }
}

/// A change to a HUD bar: a new texture, a new number, either or both.
#[derive(Clone, Debug)]
pub struct BarUpdate {
    pub texture: Option<String>,
    pub number: Option<u32>,
}

/// The health bar change for a style and a health of `num` half hearts:
/// the style's texture unless it is `NoChange`, the number only from 0 to
/// 20 (above 20 the hearts are left as they are).
pub fn edit_healthbar(mode: HeartDisplay, num: u32) -> (r: BarUpdate)
    ensures
        mode == HeartDisplay::NoChange ==> r.texture is None,
        mode != HeartDisplay::NoChange ==> (r.texture matches Some(t) && t@ == heart_texture_of(mode)),
        r.number == if num <= 20 {
            Some(num)
        } else {
            None
        },
{
    let texture = if mode != HeartDisplay::NoChange {
        Some(owned(heart_texture(mode)))
    } else {
        None
    };
    BarUpdate { texture, number: if num <= 20 { Some(num) } else { None } }
}

/// The food bar change for a style and a food level of `num`: the
/// style's texture unless it is `NoChange`, the number only up to 20.
pub fn edit_foodbar(mode: FoodDisplay, num: u32) -> (r: BarUpdate)
    ensures
        mode == FoodDisplay::NoChange ==> r.texture is None,
        mode != FoodDisplay::NoChange ==> (r.texture matches Some(t) && t@ == food_texture_of(mode)),
        r.number == if num < 21 {
            Some(num)
        } else {
            None
        },
{
    let texture = if mode != FoodDisplay::NoChange {
        Some(owned(food_texture(mode)))
    } else {
        None
    };
    BarUpdate { texture, number: if num < 21 { Some(num) } else { None } }
}

/// The air bar for `num` half bubbles after `prev_num`: the shown number
/// rounded down to whole bubbles, and the item count (rounded up) only
/// when it differs from the previous one.
pub fn edit_airbar(num: u32, prev_num: u32) -> (r: (u32, Option<u32>))
    requires
        num < u32::MAX,
        prev_num < u32::MAX,
    ensures
        r.0 == num - num % 2,
        r.1 == if num + num % 2 != prev_num + prev_num % 2 {
            Some((num + num % 2) as u32)
        } else {
            None
        },
{
    let number = num - (num % 2);
    let item = num + (num % 2);
    let p_item = prev_num + (prev_num % 2);
    if item != p_item {
        (number, Some(item))
    } else {
        (number, None)
    }
}

/// The health the client is sent: the new health, and a damage flash when
/// it dropped below the last health sent. Returns (health, flash).
pub fn health_update(last_known_health: u16, new_health: u16) -> (r: (u16, Option<bool>))
    ensures
        r.0 == new_health,
        r.1 == if last_known_health > new_health {
            Some(true)
        } else {
            None
        },
{
    let damage_effect = if last_known_health > new_health {
        Some(true)
    } else {
        None
    };
    (new_health, damage_effect)
}

/// The names random user names are made from.
pub open spec fn hs_name_of(i: int) -> Seq<char> {
    if i == 0 {
        "Aradia_Megido"@
    } else if i == 1 {
        "Tavros_Nitram"@
    } else if i == 2 {
        "Sollux_Captor"@
    } else if i == 3 {
        "Karkat_Vantas"@
    } else if i == 4 {
        "Nepeta_Leijon"@
    } else if i == 5 {
        "Kanaya_Maryam"@
    } else if i == 6 {
        "Terezi_Pyrope"@
    } else if i == 7 {
        "Vriska_Serket"@
    } else if i == 8 {
        "Equius_Zahhak"@
    } else if i == 9 {
        "Gamzee_Makara"@
    } else if i == 10 {
        "Eridan_Ampora"@
    } else if i == 11 {
        "Feferi_Peixes"@
    } else if i == 12 {
        "John_Egbert"@
    } else if i == 13 {
        "Rose_Lalonde"@
    } else if i == 14 {
        "Dave_Strider"@
    } else if i == 15 {
        "Jade_Harley"@
    } else if i == 16 {
        "Jane_Egbert"@
    } else if i == 17 {
        "Roxy_Lalonde"@
    } else if i == 18 {
        "Jake_Harley"@
    } else if i == 19 {
        "Dad_Egbert"@
    } else if i == 20 {
        "Jane_Crocker"@
    } else if i == 21 {
        "Dirk_Strider"@
    } else if i == 22 {
        "Jake_English"@
    } else if i == 23 {
        "Dad_Crocker"@
    } else if i == 24 {
        "John_Crocker"@
    } else {
        "Jade_English"@
    }
}

/// The `i`-th of the 26 names random user names are made from.
pub fn hs_name(i: usize) -> (r: &'static str)
    requires
        i < 26,
    ensures
        r@ == hs_name_of(i as int),
{
    match i {
        0 => "Aradia_Megido",
        1 => "Tavros_Nitram",
        2 => "Sollux_Captor",
        3 => "Karkat_Vantas",
        4 => "Nepeta_Leijon",
        5 => "Kanaya_Maryam",
        6 => "Terezi_Pyrope",
        7 => "Vriska_Serket",
        8 => "Equius_Zahhak",
        9 => "Gamzee_Makara",
        10 => "Eridan_Ampora",
        11 => "Feferi_Peixes",
        12 => "John_Egbert",
        13 => "Rose_Lalonde",
        14 => "Dave_Strider",
        15 => "Jade_Harley",
        16 => "Jane_Egbert",
        17 => "Roxy_Lalonde",
        18 => "Jake_Harley",
        19 => "Dad_Egbert",
        20 => "Jane_Crocker",
        21 => "Dirk_Strider",
        22 => "Jake_English",
        23 => "Dad_Crocker",
        24 => "John_Crocker",
        _ => "Jade_English",
    }
}

/// `n` (below 1000) as three digits, zero-padded.
pub open spec fn three_digits(n: int) -> Seq<char> {
    seq![digit_char(n / 100), digit_char((n / 10) % 10), digit_char(n % 10)]
}

/// The user name made of name `i` and number `n`: the name followed by
/// the number as three digits.
pub fn username_from(i: usize, n: u32) -> (r: String)
    requires
        i < 26,
        n < 1000,
    ensures
        r@ == hs_name_of(i as int) + three_digits(n as int),
{
    let mut r = owned(hs_name(i));
    push_char(&mut r, digit((n / 100) as u64));
    push_char(&mut r, digit(((n / 10) % 10) as u64));
    push_char(&mut r, digit((n % 10) as u64));
    r
}

/// A uniformly random number below `bound` (`rand::rng().random_range`).
#[verifier::external_body]
fn random_below(bound: u32) -> (r: u32)
    requires
        bound > 0,
    ensures
        r < bound,
{
    rand::rng().random_range(0..bound)
}

/// Whether `s` is a name a random user name can come out as.
pub open spec fn is_random_username(s: Seq<char>) -> bool {
    exists|i: int, n: int| 0 <= i < 26 && 0 <= n < 1000 && s == hs_name_of(i) + three_digits(n)
}

/// A random user name: one of the 26 names and three random digits.
pub fn get_random_username() -> (r: String)
    ensures
        is_random_username(r@),
{
    let i = random_below(26);
    let n = random_below(1000);
    let r = username_from(i as usize, n);
    assert(r@ == hs_name_of(i as int) + three_digits(n as int));
    r
}

/// What to do with the user name a client logs in with.
#[derive(Clone, Copy, Debug, PartialEq, Eq, Structural)]
pub enum UsernameChoice {
    /// Use the name as given.
    AsGiven,
    /// "random" with random names allowed: make one up.
    Random,
    /// "random" while random names are off: use it literally.
    RandomRefused,
}

/// The literal name "random" asks for a random name, which is granted
/// only if random names are allowed and the server is not in online mode.
pub open spec fn spec_username_choice(requested: Seq<char>, allow_random: bool, online_mode: bool) -> UsernameChoice {
    if requested != "random"@ {
        UsernameChoice::AsGiven
    } else if allow_random && !online_mode {
        UsernameChoice::Random
    } else {
        UsernameChoice::RandomRefused
    }
}

/// How to treat the requested user name (see `spec_username_choice`).
pub fn username_choice(requested: &str, allow_random: bool, online_mode: bool) -> (r: UsernameChoice)
    ensures
        r == spec_username_choice(requested@, allow_random, online_mode),
{
    if !str_eq(requested, "random") {
        UsernameChoice::AsGiven
    } else if allow_random && !online_mode {
        UsernameChoice::Random
    } else {
        UsernameChoice::RandomRefused
    }
}

/// The user name to play under: a random one where `username_choice`
/// grants it, else the requested name.
pub fn player_name(requested: &str, allow_random: bool, online_mode: bool) -> (r: String)
    ensures
        spec_username_choice(requested@, allow_random, online_mode) == UsernameChoice::Random
            ==> is_random_username(r@),
        spec_username_choice(requested@, allow_random, online_mode) != UsernameChoice::Random ==> r@
            == requested@,
{
    if username_choice(requested, allow_random, online_mode) == UsernameChoice::Random {
        get_random_username()
    } else {
        owned(requested)
    }
}

} // verus!

verus! {

/// Directions the player can walk in.
#[derive(Clone, Copy, Debug, PartialEq, Eq, Structural)]
pub enum WalkDirection {
    Still,
    Forward,
    Backward,
    Left,
    Right,
    ForwardLeft,
    ForwardRight,
    BackwardLeft,
    BackwardRight,
}

/// Directions the player can sprint in.
#[derive(Clone, Copy, Debug, PartialEq, Eq, Structural)]
pub enum SprintDirection {
    Forward,
    ForwardLeft,
    ForwardRight,
}

/// How the player moves.
#[derive(Clone, Copy, Debug, PartialEq, Eq, Structural)]
pub enum Movement {
    Walk(WalkDirection),
    Sprint(SprintDirection),
}

/// The movement the client's key bits ask for (bit 0 up, 1 down, 2 left,
/// 3 right, 5 aux1): aux1 with forward sprints, else the keys walk; any
/// combination without a meaning stands still.
pub open spec fn movement_of_keys(keys: u32) -> Movement {
    let up = keys & 1;
    let down = (keys >> 1) & 1;
    let left = (keys >> 2) & 1;
    let right = (keys >> 3) & 1;
    let aux1 = keys & 32;
    if aux1 == 0 {
        if up == 1 && down == 0 && left == 1 && right == 0 {
            Movement::Walk(WalkDirection::ForwardLeft)
        } else if up == 1 && down == 0 && left == 0 && right == 1 {
            Movement::Walk(WalkDirection::ForwardRight)
        } else if up == 1 && down == 0 {
            Movement::Walk(WalkDirection::Forward)
        } else if up == 0 && down == 1 && left == 1 && right == 0 {
            Movement::Walk(WalkDirection::BackwardLeft)
        } else if up == 0 && down == 1 && left == 0 && right == 1 {
            Movement::Walk(WalkDirection::BackwardRight)
        } else if up == 0 && down == 1 {
            Movement::Walk(WalkDirection::Backward)
        } else if left == 1 && right == 0 {
            Movement::Walk(WalkDirection::Left)
        } else if left == 0 && right == 1 {
            Movement::Walk(WalkDirection::Right)
        } else {
            Movement::Walk(WalkDirection::Still)
        }
    } else if up == 1 && down == 0 && left == 1 && right == 0 {
        Movement::Sprint(SprintDirection::ForwardLeft)
    } else if up == 1 && down == 0 && left == 0 && right == 1 {
        Movement::Sprint(SprintDirection::ForwardRight)
    } else if up == 1 && down == 0 {
        Movement::Sprint(SprintDirection::Forward)
    } else {
        Movement::Walk(WalkDirection::Still)
    }
}

/// Forward (1), backward (-1) or neither (0) part of a movement.
pub open spec fn forward_part(m: Movement) -> int {
    match m {
        Movement::Walk(WalkDirection::Forward) | Movement::Walk(WalkDirection::ForwardLeft)
        | Movement::Walk(WalkDirection::ForwardRight) | Movement::Sprint(_) => 1,
        Movement::Walk(WalkDirection::Backward) | Movement::Walk(WalkDirection::BackwardLeft)
        | Movement::Walk(WalkDirection::BackwardRight) => -1,
        _ => 0,
    }
}

/// Right (1), left (-1) or neither (0) part of a movement.
pub open spec fn side_part(m: Movement) -> int {
    match m {
        Movement::Walk(WalkDirection::Right) | Movement::Walk(WalkDirection::ForwardRight)
        | Movement::Walk(WalkDirection::BackwardRight) | Movement::Sprint(SprintDirection::ForwardRight) => 1,
        Movement::Walk(WalkDirection::Left) | Movement::Walk(WalkDirection::ForwardLeft)
        | Movement::Walk(WalkDirection::BackwardLeft) | Movement::Sprint(SprintDirection::ForwardLeft) => -1,
        _ => 0,
    }
}

/// Each key moves the player its own way, and opposite keys cancel: the
/// forward part is up minus down, the sideways part right minus left.
/// With aux1 held the player sprints exactly when moving forward (with
/// the same sideways part), and stands still otherwise.
pub proof fn law_keys_add_up_to_movement(keys: u32)
    ensures
        ({
            let up = (keys & 1) as int;
            let down = ((keys >> 1) & 1) as int;
            let left = ((keys >> 2) & 1) as int;
            let right = ((keys >> 3) & 1) as int;
            let m = movement_of_keys(keys);
            &&& keys & 32 == 0 ==> (m is Walk && forward_part(m) == up - down && side_part(m) == right - left)
            &&& keys & 32 != 0 && up == 1 && down == 0 ==> (m is Sprint && side_part(m) == right - left)
            &&& keys & 32 != 0 && !(up == 1 && down == 0) ==> m == Movement::Walk(WalkDirection::Still)
        }),
{
    assert(keys & 1 <= 1 && (keys >> 1) & 1 <= 1 && (keys >> 2) & 1 <= 1 && (keys >> 3) & 1 <= 1)
        by (bit_vector);
}

/// The movement for a set of pressed keys (see `movement_of_keys`).
pub fn movement_for_keys(keys: u32) -> (r: Movement)
    ensures
        r == movement_of_keys(keys),
{
    let up = keys & 1;
    let down = (keys >> 1) & 1;
    let left = (keys >> 2) & 1;
    let right = (keys >> 3) & 1;
    let aux1 = keys & 32;
    if aux1 == 0 {
        if up == 1 && down == 0 && left == 1 && right == 0 {
            Movement::Walk(WalkDirection::ForwardLeft)
        } else if up == 1 && down == 0 && left == 0 && right == 1 {
            Movement::Walk(WalkDirection::ForwardRight)
        } else if up == 1 && down == 0 {
            Movement::Walk(WalkDirection::Forward)
        } else if up == 0 && down == 1 && left == 1 && right == 0 {
            Movement::Walk(WalkDirection::BackwardLeft)
        } else if up == 0 && down == 1 && left == 0 && right == 1 {
            Movement::Walk(WalkDirection::BackwardRight)
        } else if up == 0 && down == 1 {
            Movement::Walk(WalkDirection::Backward)
        } else if left == 1 && right == 0 {
            Movement::Walk(WalkDirection::Left)
        } else if left == 0 && right == 1 {
            Movement::Walk(WalkDirection::Right)
        } else {
            Movement::Walk(WalkDirection::Still)
        }
    } else if up == 1 && down == 0 && left == 1 && right == 0 {
        Movement::Sprint(SprintDirection::ForwardLeft)
    } else if up == 1 && down == 0 && left == 0 && right == 1 {
        Movement::Sprint(SprintDirection::ForwardRight)
    } else if up == 1 && down == 0 {
        Movement::Sprint(SprintDirection::Forward)
    } else {
        Movement::Walk(WalkDirection::Still)
    }
}

/// The part of the player's state that key presses drive.
#[derive(Clone, Copy, Debug, PartialEq, Eq, Structural)]
pub struct InputState {
    /// The key bits last acted on.
    pub keys_pressed: u32,
    pub is_sneaking: bool,
    /// The current dig press is breaking a block, so it must not attack.
    pub next_click_no_attack: bool,
    /// Dig was held at the previous position update.
    pub previous_dig_held: bool,
    /// The client moved since its position was last checked.
    pub has_moved_since_sync: bool,
}

/// What a position update asks of the server side.
#[derive(Clone, Copy, Debug, PartialEq, Eq, Structural)]
pub struct KeyActions {
    /// New movement, when the key bits changed.
    pub movement: Option<Movement>,
    pub jumping: bool,
    /// Attack whatever is under the crosshair.
    pub attack: bool,
}

/// Whether the keys move the player: anything but no direction key, aux1
/// held and no jump.
pub open spec fn keys_move(keys: u32) -> bool {
    !((keys & 0xf) == 0 && (keys & 32) == 32 && (keys & 16) == 0)
}

impl InputState {
    /// A fresh player: no keys, not sneaking, to be synced.
    pub fn new() -> (r: InputState)
        ensures
            r == (InputState {
                keys_pressed: 0,
                is_sneaking: false,
                next_click_no_attack: false,
                previous_dig_held: false,
                has_moved_since_sync: true,
            }),
    {
        InputState {
            keys_pressed: 0,
            is_sneaking: false,
            next_click_no_attack: false,
            previous_dig_held: false,
            has_moved_since_sync: true,
        }
    }

    /// Takes the key bits of a client position update: marks movement,
    /// re-decides the movement when the keys changed, follows jump (bit 4)
    /// and sneak (bit 6), and attacks on the rising edge of dig (bit 7)
    /// unless that press is breaking a block. Letting go of dig re-arms
    /// attacking.
    pub fn on_keys(&mut self, keys_pressed: u32) -> (r: KeyActions)
        ensures
            final(self).has_moved_since_sync == (old(self).has_moved_since_sync || keys_move(keys_pressed)),
            final(self).keys_pressed == keys_pressed,
            r.movement == if keys_pressed != old(self).keys_pressed {
                Some(movement_of_keys(keys_pressed))
            } else {
                None
            },
            r.jumping == ((keys_pressed & 16) != 0),
            final(self).is_sneaking == ((keys_pressed & 64) != 0),
            r.attack == (!old(self).next_click_no_attack && (keys_pressed & 128) != 0
                && !old(self).previous_dig_held),
            final(self).next_click_no_attack == (old(self).next_click_no_attack && (old(
                self,
            ).previous_dig_held || (keys_pressed & 128) != 0)),
            final(self).previous_dig_held == ((keys_pressed & 128) != 0),
    {
        let direction_keys = keys_pressed & 0xf;
        let aux1_pressed = keys_pressed & 32;
        let jump_pressed = (keys_pressed & 16) != 0;
        let sneak_pressed = (keys_pressed & 64) != 0;
        let dig_pressed = (keys_pressed & 128) != 0;
        if !(direction_keys == 0 && aux1_pressed == 32 && !jump_pressed) {
            self.has_moved_since_sync = true;
        }
        let mut movement = None;
        if keys_pressed != self.keys_pressed {
            movement = Some(movement_for_keys(keys_pressed));
            self.keys_pressed = keys_pressed;
        }
        if self.is_sneaking != sneak_pressed {
            self.is_sneaking = sneak_pressed;
        }
        let attack = !self.next_click_no_attack && dig_pressed && !self.previous_dig_held;
        if !self.previous_dig_held && !dig_pressed {
            self.next_click_no_attack = false;
        }
        self.previous_dig_held = dig_pressed;
        KeyActions { movement, jumping: jump_pressed, attack }
    }
}

/// The movement speed the client should use.
#[derive(Clone, Copy, Debug, PartialEq, Eq, Structural)]
pub enum SpeedMode {
    Walk,
    Sneak,
    Sprint,
}

/// The speed for the server's sprint flag and the client's sneak flag,
/// and the sneak flag after it: sprinting ends sneaking.
pub fn speed_mode(sprinting: bool, sneaking: bool) -> (r: (SpeedMode, bool))
    ensures
        r.1 == (sneaking && !sprinting),
        r.0 == if sprinting {
            SpeedMode::Sprint
        } else if sneaking {
            SpeedMode::Sneak
        } else {
            SpeedMode::Walk
        },
{
    if sprinting {
        (SpeedMode::Sprint, false)
    } else if sneaking {
        (SpeedMode::Sneak, true)
    } else {
        (SpeedMode::Walk, false)
    }
}

} // verus!

verus! {

/// An active status effect as the HUD needs it: its name as the effect
/// enum spells it ("JumpBoost"), and its display flags.
#[derive(Clone, Debug)]
pub struct EffectIcon {
    pub name: String,
    pub show_icon: bool,
    pub ambient: bool,
}

/// An ASCII capital letter.
pub open spec fn is_upper(c: char) -> bool {
    'A' <= c <= 'Z'
}

/// A CamelCase name with every capital turned into "_" and its small
/// letter ("JumpBoost" becomes "_jump_boost").
pub open spec fn underscored(s: Seq<char>) -> Seq<char>
    decreases s.len(),
{
    if s.len() == 0 {
        s
    } else {
        let c = s.last();
        underscored(s.drop_last()) + if is_upper(c) {
            seq!['_', ((c as int) + 32) as char]
        } else {
            seq![c]
        }
    }
}

/// The icon name of an effect: its name in snake case ("jump_boost").
pub open spec fn effect_icon_of(name: Seq<char>) -> Seq<char> {
    underscored(name).drop_first()
}

/// The texture name of an effect's icon, from its CamelCase name.
pub fn effect_icon(name: &str) -> (r: String)
    requires
        name@.len() > 0,
        forall|i: int| 0 <= i < name@.len() ==> (name@[i] as int) < 128,
    ensures
        r@ == effect_icon_of(name@),
{
    let n = name.unicode_len();
    let mut out = String::new();
    let mut i: usize = 0;
    while i < n
        invariant
            n == name@.len(),
            i <= n,
            forall|k: int| 0 <= k < name@.len() ==> (name@[k] as int) < 128,
            out@ == underscored(name@.take(i as int)),
        decreases n - i,
    {
        assert(name@.take(i + 1).drop_last() =~= name@.take(i as int));
        let c = name.get_char(i);
        if 'A' <= c && c <= 'Z' {
            push_char(&mut out, '_');
            let lower = ((c as u8) + 32) as char;
            assert(lower == ((c as int) + 32) as char);
            push_char(&mut out, lower);
        } else {
            push_char(&mut out, c);
        }
        i += 1;
        assert(out@ =~= underscored(name@.take(i as int)));
    }
    assert(name@.take(n as int) =~= name@);
    let ghost full = out@;
    let mut r = String::new();
    let m = out.as_str().unicode_len();
    let mut j: usize = 1;
    assert(full.len() > 0) by {
        assert(underscored(name@).len() >= underscored(name@.drop_last()).len() + 1);
    }
    while j < m
        invariant
            m == full.len(),
            out@ == full,
            1 <= j <= m,
            r@ == full.subrange(1, j as int),
        decreases m - j,
    {
        push_char(&mut r, out.as_str().get_char(j));
        j += 1;
        assert(r@ =~= full.subrange(1, j as int));
    }
    assert(full.subrange(1, m as int) =~= full.drop_first());
    r
}

} // verus!

verus! {

/// No earlier effect has the same name.
pub open spec fn first_of_name(effects: Seq<EffectIcon>, i: int) -> bool {
    forall|j: int| 0 <= j < i ==> effects[j].name@ != effects[i].name@
}

/// The effects among the first `n` that get an icon: each name once (its
/// first occurrence), and only if the effect shows its icon.
pub open spec fn drawn_effects(effects: Seq<EffectIcon>, n: nat) -> Seq<EffectIcon>
    decreases n,
{
    if n == 0 {
        Seq::empty()
    } else {
        let i = n - 1;
        drawn_effects(effects, (n - 1) as nat) + if first_of_name(effects, i) && effects[i].show_icon {
            seq![effects[i]]
        } else {
            Seq::empty()
        }
    }
}

/// The background frame of an effect icon.
pub open spec fn effect_frame(ambient: bool) -> Seq<char> {
    if ambient {
        "gui-sprites-hud-effect_background_ambient.png"@
    } else {
        "gui-sprites-hud-effect_background.png"@
    }
}

/// One icon of the combined texture, drawn at height `y`.
pub open spec fn effect_piece(e: EffectIcon, y: nat) -> Seq<char> {
    ":0,"@ + decimal(y) + "=("@ + effect_frame(e.ambient) + "^mob_effect-"@ + effect_icon_of(e.name@)
        + ".png)"@
}

/// The first `k` icons, 30 pixels apart.
pub open spec fn effect_pieces(d: Seq<EffectIcon>, k: nat) -> Seq<char>
    decreases k,
{
    if k == 0 {
        Seq::empty()
    } else {
        effect_pieces(d, (k - 1) as nat) + effect_piece(d[k - 1], (30 * (k - 1)) as nat)
    }
}

/// The effects HUD texture: empty without effects, else a 24-wide canvas
/// 30 pixels high per effect with the icons combined onto it.
pub open spec fn effects_texture_of(effects: Seq<EffectIcon>) -> Seq<char> {
    let d = drawn_effects(effects, effects.len());
    (if effects.len() == 0 {
        Seq::empty()
    } else {
        "[combine:24x"@ + decimal((effects.len() * 30) as nat)
    }) + effect_pieces(d, d.len())
}

/// The combined texture of the player's effect icons.
pub fn update_effects(effects: &Vec<EffectIcon>) -> (r: String)
    requires
        effects@.len() * 30 <= i32::MAX,
        forall|i: int|
            #![trigger effects@[i]]
            0 <= i < effects@.len() ==> effects@[i].name@.len() > 0 && forall|k: int|
                0 <= k < effects@[i].name@.len() ==> (effects@[i].name@[k] as int) < 128,
    ensures
        r@ == effects_texture_of(effects@),
{
    let mut combined = String::new();
    if effects.len() > 0 {
        combined = owned("[combine:24x");
        push_decimal(&mut combined, effects.len() as u64 * 30);
    }
    let ghost head = combined@;
    let mut y_offset: u64 = 0;
    let mut seen: Vec<String> = Vec::new();
    let mut i: usize = 0;
    while i < effects.len()
        invariant
            i <= effects@.len(),
            effects@.len() * 30 <= i32::MAX,
            forall|k: int|
                #![trigger effects@[k]]
                0 <= k < effects@.len() ==> effects@[k].name@.len() > 0 && forall|c: int|
                    0 <= c < effects@[k].name@.len() ==> (effects@[k].name@[c] as int) < 128,
            y_offset == 30 * drawn_effects(effects@, i as nat).len(),
            drawn_effects(effects@, i as nat).len() <= i,
            combined@ == head + effect_pieces(
                drawn_effects(effects@, i as nat),
                drawn_effects(effects@, i as nat).len(),
            ),
            forall|s: Seq<char>|
                seen.deep_view().contains(s) <==> exists|j: int| 0 <= j < i && #[trigger] effects@[j].name@ == s,
        decreases effects.len() - i,
    {
        let e = &effects[i];
        let ghost d = drawn_effects(effects@, i as nat);
        let ghost seen0 = seen.deep_view();
        let dup = contains_str(&seen, e.name.as_str());
        assert(dup == !first_of_name(effects@, i as int)) by {
            if dup {
                assert(seen.deep_view().contains(e.name@));
            } else {
                assert forall|j: int| 0 <= j < i implies effects@[j].name@ != effects@[i as int].name@ by {
                    if effects@[j].name@ == effects@[i as int].name@ {
                        assert(seen.deep_view().contains(e.name@));
                    }
                }
            }
        }
        if !dup {
            let ghost before = seen.deep_view();
            seen.push(owned(e.name.as_str()));
            assert(seen.deep_view() =~= before.push(e.name@));
            if e.show_icon {
                let ghost c0 = combined@;
                push_str(&mut combined, ":0,");
                push_decimal(&mut combined, y_offset);
                push_str(&mut combined, "=(");
                if e.ambient {
                    push_str(&mut combined, "gui-sprites-hud-effect_background_ambient.png");
                } else {
                    push_str(&mut combined, "gui-sprites-hud-effect_background.png");
                }
                push_str(&mut combined, "^mob_effect-");
                let icon = effect_icon(e.name.as_str());
                push_str(&mut combined, icon.as_str());
                push_str(&mut combined, ".png)");
                let ghost d2 = drawn_effects(effects@, (i + 1) as nat);
                assert(d2 == d.push(*e));
                assert(d2[d.len() as int] == *e);
                assert(d2.subrange(0, d.len() as int) =~= d);
                assert(effect_pieces(d2, d.len()) == effect_pieces(d, d.len())) by {
                    lemma_effect_pieces_prefix(d2, d, d.len());
                }
                assert(combined@ =~= c0 + effect_piece(*e, y_offset as nat));
                y_offset += 30;
            } else {
                assert(drawn_effects(effects@, (i + 1) as nat) =~= d);
            }
        } else {
            assert(drawn_effects(effects@, (i + 1) as nat) =~= d);
        }
        proof {
            let name = effects@[i as int].name@;
            if dup {
                assert(seen.deep_view() == seen0);
                assert(seen0.contains(name));
            } else {
                assert(seen.deep_view() == seen0.push(name));
            }
            assert forall|t: Seq<char>|
                seen.deep_view().contains(t) implies exists|j: int| 0 <= j < i + 1 && #[trigger] effects@[j].name@ == t by {
                if seen0.contains(t) {
                    let j = choose|j: int| 0 <= j < i && #[trigger] effects@[j].name@ == t;
                    assert(0 <= j < i + 1 && effects@[j].name@ == t);
                } else {
                    let k = choose|k: int| 0 <= k < seen.deep_view().len() && seen.deep_view()[k] == t;
                    assert(k == seen0.len());
                    assert(effects@[i as int].name@ == t);
                }
            }
            assert forall|t: Seq<char>|
                (exists|j: int| 0 <= j < i + 1 && #[trigger] effects@[j].name@ == t) implies seen.deep_view().contains(t) by {
                let j = choose|j: int| 0 <= j < i + 1 && #[trigger] effects@[j].name@ == t;
                if j < i {
                    assert(seen0.contains(t));
                    let k = choose|k: int| 0 <= k < seen0.len() && seen0[k] == t;
                    assert(seen.deep_view()[k] == t);
                } else if !dup {
                    assert(seen.deep_view()[seen0.len() as int] == t);
                }
            }
        }
        i += 1;
    }
    combined
}

proof fn lemma_effect_pieces_prefix(a: Seq<EffectIcon>, b: Seq<EffectIcon>, k: nat)
    requires
        k <= a.len(),
        k <= b.len(),
        forall|i: int| 0 <= i < k ==> a[i] == b[i],
    ensures
        effect_pieces(a, k) == effect_pieces(b, k),
    decreases k,
{
    if k > 0 {
        lemma_effect_pieces_prefix(a, b, (k - 1) as nat);
    }
}

} // verus!

verus! {

/// A node interaction the client sends.
#[derive(Clone, Copy, Debug, PartialEq, Eq, Structural)]
pub enum InteractKind {
    StartDigging,
    StopDigging,
    Place,
    /// Anything else, which is not supported.
    Other,
}

/// What a node interaction asks of the server side, at Minecraft block
/// positions.
#[derive(Clone, Copy, Debug, PartialEq, Eq, Structural)]
pub enum NodeAction {
    StartMining(i32, i32, i32),
    /// Abort mining (by mining far out of reach).
    StopMining,
    /// Right-click a block.
    Interact(i32, i32, i32),
    Unsupported,
}

/// A client node position as a Minecraft block position (x mirrored).
pub open spec fn block_pos_of(p: (i16, i16, i16)) -> (i32, i32, i32) {
    ((-(p.0 as int) - 1) as i32, p.1 as i32, p.2 as i32)
}

impl InputState {
    /// Handles a node interaction: digging starts mining the node under the
    /// crosshair (and that press must not also attack), stopping aborts it,
    /// and placing right-clicks the node under the crosshair if it reacts to
    /// right clicks, else the position above it.
    pub fn interact_node(
        &mut self,
        action: InteractKind,
        under: (i16, i16, i16),
        above: (i16, i16, i16),
        under_interactive: bool,
    ) -> (r: NodeAction)
        ensures
            final(self).next_click_no_attack == (old(self).next_click_no_attack || action
                == InteractKind::StartDigging),
            final(self).keys_pressed == old(self).keys_pressed,
            final(self).is_sneaking == old(self).is_sneaking,
            final(self).previous_dig_held == old(self).previous_dig_held,
            final(self).has_moved_since_sync == old(self).has_moved_since_sync,
            r == match action {
                InteractKind::StartDigging => {
                    let b = block_pos_of(under);
                    NodeAction::StartMining(b.0, b.1, b.2)
                },
                InteractKind::StopDigging => NodeAction::StopMining,
                InteractKind::Place => {
                    let b = block_pos_of(if under_interactive { under } else { above });
                    NodeAction::Interact(b.0, b.1, b.2)
                },
                InteractKind::Other => NodeAction::Unsupported,
            },
    {
        match action {
            InteractKind::StartDigging => {
                self.next_click_no_attack = true;
                NodeAction::StartMining(mirror_block_pos(under.0 as i32), under.1 as i32, under.2 as i32)
            },
            InteractKind::StopDigging => NodeAction::StopMining,
            InteractKind::Place => {
                let p = if under_interactive { under } else { above };
                NodeAction::Interact(mirror_block_pos(p.0 as i32), p.1 as i32, p.2 as i32)
            },
            InteractKind::Other => NodeAction::Unsupported,
        }
    }
}

/// The HUD bar a status effect restyles.
#[derive(Clone, Copy, Debug, PartialEq, Eq, Structural)]
pub enum BarStyle {
    Hearts(HeartDisplay),
    Food(FoodDisplay),
}

/// Status effects that restyle a HUD bar.
#[derive(Clone, Copy, Debug, PartialEq, Eq, Structural)]
pub enum BarEffect {
    Wither,
    Poison,
    Absorption,
    Hunger,
    Other,
}

/// The bar style an effect gives the player when it starts: withered,
/// poisoned or absorbing hearts, or the hunger food bar.
pub fn effect_started(effect: BarEffect) -> (r: Option<BarStyle>)
    ensures
        r == match effect {
            BarEffect::Wither => Some(BarStyle::Hearts(HeartDisplay::Wither)),
            BarEffect::Poison => Some(BarStyle::Hearts(HeartDisplay::Poison)),
            BarEffect::Absorption => Some(BarStyle::Hearts(HeartDisplay::Absorb)),
            BarEffect::Hunger => Some(BarStyle::Food(FoodDisplay::Hunger)),
            BarEffect::Other => None,
        },
{
    match effect {
        BarEffect::Wither => Some(BarStyle::Hearts(HeartDisplay::Wither)),
        BarEffect::Poison => Some(BarStyle::Hearts(HeartDisplay::Poison)),
        BarEffect::Absorption => Some(BarStyle::Hearts(HeartDisplay::Absorb)),
        BarEffect::Hunger => Some(BarStyle::Food(FoodDisplay::Hunger)),
        BarEffect::Other => None,
    }
}

/// The bar style restored when an effect ends: normal hearts after
/// wither, poison or absorption, the normal food bar after hunger.
pub fn effect_ended(effect: BarEffect) -> (r: Option<BarStyle>)
    ensures
        r == match effect {
            BarEffect::Wither | BarEffect::Poison | BarEffect::Absorption => Some(
                BarStyle::Hearts(HeartDisplay::Normal),
            ),
            BarEffect::Hunger => Some(BarStyle::Food(FoodDisplay::Normal)),
            BarEffect::Other => None,
        },
{
    match effect {
        BarEffect::Wither | BarEffect::Poison | BarEffect::Absorption => Some(
            BarStyle::Hearts(HeartDisplay::Normal),
        ),
        BarEffect::Hunger => Some(BarStyle::Food(FoodDisplay::Normal)),
        BarEffect::Other => None,
    }
}

} // verus!

verus! {

/// An effect icon entry as plain values: name, shown, ambient.
pub open spec fn effect_entries(effects: Seq<EffectIcon>) -> Seq<(Seq<char>, bool, bool)> {
    effects.map_values(|e: EffectIcon| (e.name@, e.show_icon, e.ambient))
}

/// Keeps the entries of other effects than `name`.
pub open spec fn other_than(name: Seq<char>) -> spec_fn((Seq<char>, bool, bool)) -> bool {
    |e: (Seq<char>, bool, bool)| e.0 != name
}

/// The player's effects once the effect `name` has ended: every entry of
/// it is dropped, the others stay in order.
pub fn remove_effect(effects: &Vec<EffectIcon>, name: &str) -> (r: Vec<EffectIcon>)
    ensures
        effect_entries(r@) == effect_entries(effects@).filter(other_than(name@)),
{
    let mut r: Vec<EffectIcon> = Vec::new();
    let mut i: usize = 0;
    while i < effects.len()
        invariant
            i <= effects@.len(),
            effect_entries(r@) == effect_entries(effects@.take(i as int)).filter(other_than(name@)),
        decreases effects.len() - i,
    {
        let ghost t = effect_entries(effects@.take(i + 1));
        proof {
            reveal(Seq::filter);
            assert(t.drop_last() =~= effect_entries(effects@.take(i as int)));
        }
        let ghost before = effect_entries(r@);
        let e = &effects[i];
        if !str_eq(e.name.as_str(), name) {
            r.push(EffectIcon { name: owned(e.name.as_str()), show_icon: e.show_icon, ambient: e.ambient });
            assert(effect_entries(r@) =~= before.push(t.last()));
        } else {
            assert(effect_entries(r@) =~= before);
        }
        i += 1;
    }
    assert(effects@.take(i as int) =~= effects@);
    r
}

} // verus!
