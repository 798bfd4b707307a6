//! World geometry shared by both protocols.
use vstd::prelude::*;
use crate::text::str_eq;

verus! {

/// The dimensions a player can be in. `Custom` assumes overworld height.
#[derive(Clone, Copy, PartialEq, Eq, Debug, Structural)]
pub enum Dimensions {
    Overworld,
    Nether,
    End,
    Custom,
}

/// Vertical block range of a dimension, both ends inclusive.
pub open spec fn spec_y_bounds(d: Dimensions) -> (i16, i16) {
    match d {
        Dimensions::Nether => (0i16, 255i16),
        Dimensions::End => (0i16, 255i16),
        Dimensions::Overworld => (-64i16, 320i16),
        Dimensions::Custom => (-64i16, 320i16),
    }
}

impl Dimensions {
    /// Lowest and highest block y of the dimension.
    pub fn get_y_bounds(self) -> (r: (i16, i16))
        ensures
            r == spec_y_bounds(self),
    {
        match self {
            // worldgen limit is 128, but players can go above that
            Dimensions::Nether => (0, 255),
            Dimensions::End => (0, 255),
            Dimensions::Overworld => (-64, 320),
            Dimensions::Custom => (-64, 320),
        }
    }
}

/// Free-standing form of [`Dimensions::get_y_bounds`].
pub fn get_y_bounds(dimension: &Dimensions) -> (r: (i16, i16))
    ensures
        r == spec_y_bounds(*dimension),
{
    dimension.get_y_bounds()
}

/// Mirror an integer block X coordinate between the two handedness
/// conventions, staying aligned to 16-node chunk boundaries.
pub open spec fn spec_mirror_block_pos(x: int) -> int {
    -x - 1
}

/// Mirroring twice gives the coordinate back, and it swaps the two sides
/// of every 16-node section boundary (0 and -1, 16 and -17, ...).
pub proof fn law_mirror_block_pos_involution(x: int)
    ensures
        spec_mirror_block_pos(spec_mirror_block_pos(x)) == x,
        spec_mirror_block_pos(x * 16) == (-x) * 16 - 1,
{
}

/// Mirror an integer block/chunk-index X coordinate.
pub fn mirror_block_pos(x: i32) -> (r: i32)
    requires
        x > i32::MIN,
    ensures
        r == spec_mirror_block_pos(x as int),
{
    -x - 1
}

} // verus!

verus! {

/// Luanti time of day (0 = midnight) for a Minecraft day phase (0 =
/// sunrise), both in ticks of a 24000-tick day.
pub open spec fn mt_time_of_day(clock_total: int, anchor_game_time: int, game_time: int) -> int {
    let elapsed = if game_time > anchor_game_time { game_time - anchor_game_time } else { 0 };
    ((clock_total + elapsed) % 24000 + 6000) % 24000
}

/// The day clock: the latest total tick count of the overworld clock,
/// and the game time it was seen at. The day advances with game time
/// between clock updates.
#[derive(Clone, Copy, Debug, PartialEq, Eq, Structural)]
pub struct TimeState {
    pub clock_total: u64,
    pub anchor_game_time: u64,
}

impl TimeState {
    /// No clock seen yet.
    pub fn new() -> (r: TimeState)
        ensures
            r == (TimeState { clock_total: 0, anchor_game_time: 0 }),
    {
        TimeState { clock_total: 0, anchor_game_time: 0 }
    }

    /// Takes a time packet (the game time, and the overworld clock's total
    /// ticks if the packet updates it) and returns the client's time of
    /// day. A clock update re-anchors the state.
    pub fn set_time(&mut self, game_time: u64, overworld_clock: Option<u64>) -> (r: u16)
        requires
            overworld_clock is Some || old(self).clock_total + (if game_time > old(self).anchor_game_time {
                game_time - old(self).anchor_game_time
            } else {
                0
            }) <= u64::MAX,
        ensures
            *final(self) == match overworld_clock {
                Some(c) => TimeState { clock_total: c, anchor_game_time: game_time },
                None => *old(self),
            },
            r == mt_time_of_day(
                final(self).clock_total as int,
                final(self).anchor_game_time as int,
                game_time as int,
            ),
            r < 24000,
    {
        if let Some(c) = overworld_clock {
            self.clock_total = c;
            self.anchor_game_time = game_time;
        }
        let elapsed = game_time.saturating_sub(self.anchor_game_time);
        let phase = (self.clock_total + elapsed) % 24000;
        ((phase + 6000) % 24000) as u16
    }
}

/// Between clock updates the client's time of day moves with the game
/// time: `d` more game ticks put it `d` ticks later, modulo a day.
pub proof fn law_time_advances_with_game_time(clock_total: int, anchor: int, game_time: int, d: int)
    requires
        game_time >= anchor,
        d >= 0,
    ensures
        mt_time_of_day(clock_total, anchor, game_time + d) == (mt_time_of_day(clock_total, anchor, game_time)
            + d) % 24000,
{
    let a = clock_total + game_time - anchor;
    assert(((a + d) % 24000 + 6000) % 24000 == ((a % 24000 + 6000) % 24000 + d) % 24000) by (nonlinear_arith);
}

/// Whether the server is in the middle of sending a chunk batch.
#[derive(Clone, Copy, Debug, PartialEq, Eq, Structural)]
pub struct ChunkBatchState {
    pub active: bool,
}

impl ChunkBatchState {
    /// Outside any batch.
    pub fn new() -> (r: ChunkBatchState)
        ensures
            !r.active,
    {
        ChunkBatchState { active: false }
    }

    /// A batch starts; returns whether one was already running (which the
    /// server should not do).
    pub fn chunk_batch_start(&mut self) -> (was_active: bool)
        ensures
            was_active == old(self).active,
            final(self).active,
    {
        let was = self.active;
        self.active = true;
        was
    }

    /// A batch ends; returns whether one was running (else the end had no
    /// matching start).
    pub fn chunk_batch_finished(&mut self) -> (was_active: bool)
        ensures
            was_active == old(self).active,
            !final(self).active,
    {
        let was = self.active;
        self.active = false;
        was
    }
}

/// A client map node: content id and the two parameters.
#[derive(Clone, Copy, Debug, PartialEq, Eq, Structural)]
pub struct MapNode {
    pub content_id: u16,
    pub param1: u8,
    pub param2: u8,
}

/// Content id of air on the client.
pub const CONTENT_AIR: u16 = 126;

/// Content id of the glowing air that replaces cave air in the nether.
pub const CONTENT_GLOWING_AIR: u16 = 120;

/// Offset from a Minecraft block kind id to its client content id.
pub const BLOCK_CONTENT_OFFSET: u16 = 128;

/// The client node for a block state, given its block kind id and whether
/// it is air or cave air: air and (in the nether) cave air get the
/// built-in air nodes, everything else its kind id shifted by 128. Light
/// is full sky light, since none is known here.
pub fn state_to_node(kind_id: u32, is_air: bool, is_cave_air: bool, cave_air_glow: bool) -> (r: MapNode)
    requires
        (kind_id as u16) < 65408,
    ensures
        r.param1 == 0xEE,
        r.param2 == 0,
        r.content_id == if is_air {
            CONTENT_AIR
        } else if is_cave_air && cave_air_glow {
            CONTENT_GLOWING_AIR
        } else {
            ((kind_id as u16) + BLOCK_CONTENT_OFFSET) as u16
        },
{
    let mut param0: u16 = kind_id as u16 + BLOCK_CONTENT_OFFSET;
    if is_air {
        param0 = CONTENT_AIR;
    } else if is_cave_air && cave_air_glow {
        param0 = CONTENT_GLOWING_AIR;
    }
    MapNode { content_id: param0, param1: 0xEE, param2: 0 }
}

/// Where node `i` of a section (x + y*16 + z*256) lands when the x axis
/// is flipped: the two games disagree on x handedness.
pub open spec fn mirrored_index(i: int) -> int {
    (15 - i % 16) + ((i / 16) % 16) * 16 + (i / 256) * 256
}

/// Flipping a section twice gives it back, and the flip keeps every
/// index inside the section.
pub proof fn law_mirror_involution(i: int)
    requires
        0 <= i < 4096,
    ensures
        0 <= mirrored_index(i) < 4096,
        mirrored_index(mirrored_index(i)) == i,
{
    let x = i % 16;
    let y = (i / 16) % 16;
    let z = i / 256;
    assert(i == x + y * 16 + z * 256) by (nonlinear_arith)
        requires x == i % 16, y == (i / 16) % 16, z == i / 256, 0 <= i;
    let j = (15 - x) + y * 16 + z * 256;
    assert(j % 16 == 15 - x && (j / 16) % 16 == y && j / 256 == z) by (nonlinear_arith)
        requires j == (15 - x) + y * 16 + z * 256, 0 <= x < 16, 0 <= y < 16, 0 <= z < 16;
}

/// A section's nodes with the x axis flipped: node `i` moves to
/// `mirrored_index(i)`.
pub fn mirror_section<T: Copy>(nodes: &[T; 4096]) -> (r: [T; 4096])
    ensures
        forall|i: int| 0 <= i < 4096 ==> r@[mirrored_index(i)] == #[trigger] nodes@[i],
{
    let mut out = *nodes;
    let mut i: usize = 0;
    while i < 4096
        invariant
            i <= 4096,
            out@.len() == 4096,
            forall|k: int| 0 <= k < i ==> out@[mirrored_index(k)] == #[trigger] nodes@[k],
            forall|k: int, m: int|
                0 <= k < i && 0 <= m < 4096 && m != k ==> #[trigger] mirrored_index(m) != #[trigger] mirrored_index(k),
        decreases 4096 - i,
    {
        let x = i % 16;
        let y = (i / 16) % 16;
        let z = i / 256;
        let m = (15 - x) + y * 16 + z * 256;
        proof {
            law_mirror_involution(i as int);
            assert forall|k: int| 0 <= k < 4096 && k != i implies #[trigger] mirrored_index(k) != mirrored_index(i as int) by {
                law_mirror_involution(k);
            }
        }
        out[m] = nodes[i];
        i += 1;
    }
    out
}

/// How a dimension's height splits into 16-node sections: the number of
/// sections (at least one) and the section y of the lowest one.
pub open spec fn spec_section_layout(d: Dimensions) -> (int, int) {
    let (lo, hi) = spec_y_bounds(d);
    let n = (hi + 1 - lo) / 16;
    (if n < 1 { 1 } else { n }, -((-lo) / 16))
}

/// Sections and lowest section y of a dimension, for laying out its
/// light data.
pub fn section_layout(d: Dimensions) -> (r: (usize, i16))
    ensures
        r.0 as int == spec_section_layout(d).0,
        r.1 as int == spec_section_layout(d).1,
{
    let (lo, hi) = d.get_y_bounds();
    let n = ((hi as i32 + 1 - lo as i32) / 16) as usize;
    let n = if n < 1 { 1 } else { n };
    let neg = -(lo as i32);
    (n, (-(neg / 16)) as i16)
}

/// The dimension a respawn names: the three vanilla ones by path, any
/// other (or any other namespace) is custom.
pub fn dimension_from_id(namespace: &str, path: &str) -> (r: Dimensions)
    ensures
        r == if namespace@ != "minecraft"@ {
            Dimensions::Custom
        } else if path@ == "overworld"@ {
            Dimensions::Overworld
        } else if path@ == "the_nether"@ {
            Dimensions::Nether
        } else if path@ == "the_end"@ {
            Dimensions::End
        } else {
            Dimensions::Custom
        },
{
    if !str_eq(namespace, "minecraft") {
        Dimensions::Custom
    } else if str_eq(path, "overworld") {
        Dimensions::Overworld
    } else if str_eq(path, "the_nether") {
        Dimensions::Nether
    } else if str_eq(path, "the_end") {
        Dimensions::End
    } else {
        Dimensions::Custom
    }
}

} // verus!

verus! {

/// The dimension the player is in when play starts, from the path of the
/// world's name ("nether" here, unlike the respawn ids); others are custom.
pub fn initial_dimension(path: &str) -> (r: Dimensions)
    ensures
        r == if path@ == "the_end"@ {
            Dimensions::End
        } else if path@ == "overworld"@ {
            Dimensions::Overworld
        } else if path@ == "nether"@ {
            Dimensions::Nether
        } else {
            Dimensions::Custom
        },
{
    if str_eq(path, "the_end") {
        Dimensions::End
    } else if str_eq(path, "overworld") {
        Dimensions::Overworld
    } else if str_eq(path, "nether") {
        Dimensions::Nether
    } else {
        Dimensions::Custom
    }
}

} // verus!
