//! Light levels: decoding Minecraft's section light layers and caching the
//! decoded levels per 16x16x16 section for later single-block updates.
use vstd::prelude::*;
use std::collections::HashMap;
use vstd::std_specs::hash::spec_keys_iter;
use vstd::std_specs::iter::IteratorSpec;

verus! {

broadcast use vstd::std_specs::hash::group_hash_axioms;

/// Light level assumed for sections that never got light data.
pub const UNKNOWN_LIGHT: u8 = 14;

/// Number of nodes in a section; index = x + y*16 + z*256.
pub const SECTION_VOLUME: usize = 4096;

/// Key of a section position: the three coordinates shifted to be
/// non-negative and packed into 16 bits each.
pub open spec fn section_key(x: i16, y: i16, z: i16) -> u64 {
    ((x + 32768) * 4294967296 + (y + 32768) * 65536 + (z + 32768)) as u64
}

proof fn lemma_section_key_injective(x1: i16, y1: i16, z1: i16, x2: i16, y2: i16, z2: i16)
    requires
        section_key(x1, y1, z1) == section_key(x2, y2, z2),
    ensures
        x1 == x2 && y1 == y2 && z1 == z2,
{
    let a1 = x1 + 32768;
    let b1 = y1 + 32768;
    let c1 = z1 + 32768;
    let a2 = x2 + 32768;
    let b2 = y2 + 32768;
    let c2 = z2 + 32768;
    assert(a1 * 4294967296 + b1 * 65536 + c1 == a2 * 4294967296 + b2 * 65536 + c2);
    assert(c1 == c2) by (nonlinear_arith)
        requires
            a1 * 4294967296 + b1 * 65536 + c1 == a2 * 4294967296 + b2 * 65536 + c2,
            0 <= c1 < 65536,
            0 <= c2 < 65536,
            0 <= b1 < 65536,
            0 <= b2 < 65536,
    ;
    assert(b1 == b2) by (nonlinear_arith)
        requires
            a1 * 65536 + b1 == a2 * 65536 + b2,
            0 <= b1 < 65536,
            0 <= b2 < 65536,
    ;
}

proof fn lemma_section_key_bound(x: i16, y: i16, z: i16)
    ensures
        section_key(x, y, z) < 0x1_0000_0000_0000,
{
    lemma_key_position(x, y, z);
}

/// The section position a key was made from.
pub open spec fn key_position(k: u64) -> (i16, i16, i16) {
    (
        ((k / 4294967296) - 32768) as i16,
        (((k / 65536) % 65536) - 32768) as i16,
        ((k % 65536) - 32768) as i16,
    )
}

proof fn lemma_key_position(x: i16, y: i16, z: i16)
    ensures
        key_position(section_key(x, y, z)) == (x, y, z),
{
    let a: int = x + 32768;
    let b: int = y + 32768;
    let c: int = z + 32768;
    let k: int = a * 4294967296 + b * 65536 + c;
    assert(0 <= k < 0x1_0000_0000_0000) by (nonlinear_arith)
        requires
            0 <= a < 65536,
            0 <= b < 65536,
            0 <= c < 65536,
            k == a * 4294967296 + b * 65536 + c,
    ;
    assert(k / 4294967296 == a && (k / 65536) % 65536 == b && k % 65536 == c) by (nonlinear_arith)
        requires
            0 <= a < 65536,
            0 <= b < 65536,
            0 <= c < 65536,
            k == a * 4294967296 + b * 65536 + c,
    ;
}

fn key_position_exec(k: u64) -> (p: (i16, i16, i16))
    requires
        k < 0x1_0000_0000_0000,
    ensures
        p == key_position(k),
{
    let a = (k / 4294967296) as i32 - 32768;
    let b = ((k / 65536) % 65536) as i32 - 32768;
    let c = (k % 65536) as i32 - 32768;
    (a as i16, b as i16, c as i16)
}

fn section_key_exec(x: i16, y: i16, z: i16) -> (k: u64)
    ensures
        k == section_key(x, y, z),
{
    let a = (x as i32 + 32768) as u64;
    let b = (y as i32 + 32768) as u64;
    let c = (z as i32 + 32768) as u64;
    a * 4294967296 + b * 65536 + c
}

/// Index of a block within its section: x + y*16 + z*256 of the
/// coordinates taken modulo 16 (always non-negative).
pub open spec fn section_index(x: int, y: int, z: int) -> int {
    x % 16 + (y % 16) * 16 + (z % 16) * 256
}

/// The section a block coordinate falls in, truncated to 16 bits as the
/// section positions are stored.
pub open spec fn section_of(c: i32) -> i16 {
    (c as int / 16) as i16
}

/// The (sky, block) light a cache with contents `v` reports for a block.
pub open spec fn node_light(
    v: Map<(i16, i16, i16), ([u8; 4096], [u8; 4096])>,
    x: i32,
    y: i32,
    z: i32,
) -> (u8, u8) {
    let p = (section_of(x), section_of(y), section_of(z));
    let i = section_index(x as int, y as int, z as int);
    if v.contains_key(p) {
        (v[p].0@[i], v[p].1@[i])
    } else {
        (UNKNOWN_LIGHT, UNKNOWN_LIGHT)
    }
}

/// A block reads back the light stored for its section, at its place
/// within the section.
pub proof fn law_store_then_get_node(
    v: Map<(i16, i16, i16), ([u8; 4096], [u8; 4096])>,
    x: i32,
    y: i32,
    z: i32,
    sky: [u8; 4096],
    block: [u8; 4096],
)
    ensures
        node_light(v.insert((section_of(x), section_of(y), section_of(z)), (sky, block)), x, y, z)
            == (sky@[section_index(x as int, y as int, z as int)], block@[section_index(
            x as int,
            y as int,
            z as int,
        )]),
        0 <= section_index(x as int, y as int, z as int) < 4096,
{
}

/// Storing one section leaves the light of blocks in every other section
/// as it was.
pub proof fn law_store_keeps_other_sections(
    v: Map<(i16, i16, i16), ([u8; 4096], [u8; 4096])>,
    p: (i16, i16, i16),
    sky: [u8; 4096],
    block: [u8; 4096],
    x: i32,
    y: i32,
    z: i32,
)
    requires
        p != (section_of(x), section_of(y), section_of(z)),
    ensures
        node_light(v.insert(p, (sky, block)), x, y, z) == node_light(v, x, y, z),
{
}

/// Minecraft packs a section's light with y outermost, then z, then x,
/// two x values per byte, low nibble first: node (x, y, z) of a layer is
/// the low (x even) or high (x odd) half of byte y*128 + z*8 + x/2. The
/// decoded layer holds that level at the node's index x + 16y + 256z.
pub proof fn law_decoded_layer_byte_order(data: Seq<u8>, x: int, y: int, z: int)
    requires
        data.len() == 2048,
        0 <= x < 16,
        0 <= y < 16,
        0 <= z < 16,
    ensures
        ({
            let b = data[y * 128 + z * 8 + x / 2];
            &&& x % 2 == 0 ==> decoded_layer(data)[x + 16 * y + 256 * z] == b % 16
            &&& x % 2 == 1 ==> decoded_layer(data)[x + 16 * y + 256 * z] == b / 16
        }),
{
    let i = x + 16 * y + 256 * z;
    assert(i % 16 == x && (i / 16) % 16 == y && i / 256 == z && 0 <= i < 4096) by (nonlinear_arith)
        requires
            i == x + 16 * y + 256 * z,
            0 <= x < 16,
            0 <= y < 16,
            0 <= z < 16,
    ;
    assert((y * 16 + z) * 8 + x / 2 == y * 128 + z * 8 + x / 2);
}

/// Once the cache is emptied, every block reads as unknown light.
pub proof fn law_empty_cache_is_unknown(x: i32, y: i32, z: i32)
    ensures
        node_light(Map::empty(), x, y, z) == (UNKNOWN_LIGHT, UNKNOWN_LIGHT),
{
}

/// Cached (sky, block) light of every section that got light data.
pub struct LightCache {
    sections: HashMap<u64, ([u8; 4096], [u8; 4096])>,
}

impl LightCache {
    #[verifier::type_invariant]
    spec fn keys_are_positions(&self) -> bool {
        forall|k: u64| #[trigger]
            self.sections@.contains_key(k) ==> k == section_key(
                key_position(k).0,
                key_position(k).1,
                key_position(k).2,
            )
    }

    /// The cached sections by section position.
    pub closed spec fn view(&self) -> Map<(i16, i16, i16), ([u8; 4096], [u8; 4096])> {
        Map::new(
            |p: (i16, i16, i16)| self.sections@.contains_key(section_key(p.0, p.1, p.2)),
            |p: (i16, i16, i16)| self.sections@[section_key(p.0, p.1, p.2)],
        )
    }

    /// An empty cache.
    pub fn new() -> (r: Self)
        ensures
            r.view() == Map::<(i16, i16, i16), ([u8; 4096], [u8; 4096])>::empty(),
    {
        let r = LightCache { sections: HashMap::new() };
        assert(r.view() =~= Map::<(i16, i16, i16), ([u8; 4096], [u8; 4096])>::empty());
        r
    }

    /// Remembers the light of the section at `(x_pos, y_pos, z_pos)`,
    /// replacing what was stored there.
    pub fn store(&mut self, x_pos: i16, y_pos: i16, z_pos: i16, sky: [u8; 4096], block: [u8; 4096])
        ensures
            final(self).view() == old(self).view().insert((x_pos, y_pos, z_pos), (sky, block)),
    {
        proof {
            use_type_invariant(&*self);
            lemma_key_position(x_pos, y_pos, z_pos);
        }
        let mut m = HashMap::new();
        std::mem::swap(&mut m, &mut self.sections);
        m.insert(section_key_exec(x_pos, y_pos, z_pos), (sky, block));
        self.sections = m;
        proof {
            assert forall|p: (i16, i16, i16)| #[trigger]
                section_key(p.0, p.1, p.2) == section_key(x_pos, y_pos, z_pos) implies p == (
                x_pos,
                y_pos,
                z_pos,
            ) by {
                lemma_section_key_injective(p.0, p.1, p.2, x_pos, y_pos, z_pos);
            }
            assert(self.view() =~= old(self).view().insert((x_pos, y_pos, z_pos), (sky, block)));
        }
    }

    /// The cached light of a section, or `UNKNOWN_LIGHT` everywhere if none
    /// was stored (same indexing as the section's node states).
    pub fn get_section(&self, x_pos: i16, y_pos: i16, z_pos: i16) -> (r: ([u8; 4096], [u8; 4096]))
        ensures
            self.view().contains_key((x_pos, y_pos, z_pos)) ==> r == self.view()[(
                x_pos,
                y_pos,
                z_pos,
            )],
            !self.view().contains_key((x_pos, y_pos, z_pos)) ==> (forall|i: int|
                0 <= i < 4096 ==> r.0@[i] == UNKNOWN_LIGHT && r.1@[i] == UNKNOWN_LIGHT),
    {
        match self.sections.get(&section_key_exec(x_pos, y_pos, z_pos)) {
            Some(v) => *v,
            None => ([UNKNOWN_LIGHT; 4096], [UNKNOWN_LIGHT; 4096]),
        }
    }

    /// The light to send with a section: light that came with it (both
    /// kinds) is stored and used; otherwise the cached light is used, or
    /// `UNKNOWN_LIGHT` where none is cached.
    pub fn light_for_section(
        &mut self,
        x_pos: i16,
        y_pos: i16,
        z_pos: i16,
        sky: Option<[u8; 4096]>,
        block: Option<[u8; 4096]>,
    ) -> (r: ([u8; 4096], [u8; 4096]))
        ensures
            match (sky, block) {
                (Some(s), Some(b)) => {
                    &&& final(self).view() == old(self).view().insert((x_pos, y_pos, z_pos), (s, b))
                    &&& r == (s, b)
                },
                _ => {
                    &&& final(self).view() == old(self).view()
                    &&& old(self).view().contains_key((x_pos, y_pos, z_pos)) ==> r == old(self).view()[(
                        x_pos,
                        y_pos,
                        z_pos,
                    )]
                    &&& !old(self).view().contains_key((x_pos, y_pos, z_pos)) ==> (forall|i: int|
                        0 <= i < 4096 ==> r.0@[i] == UNKNOWN_LIGHT && r.1@[i] == UNKNOWN_LIGHT)
                },
            },
    {
        match (sky, block) {
            (Some(s), Some(b)) => {
                self.store(x_pos, y_pos, z_pos, s, b);
                (s, b)
            },
            _ => self.get_section(x_pos, y_pos, z_pos),
        }
    }

    /// The (sky, block) light at a block position: looked up in the section
    /// that holds it (floor division by 16), or `UNKNOWN_LIGHT` twice where
    /// no light was stored.
    pub fn get_node(&self, x: i32, y: i32, z: i32) -> (r: (u8, u8))
        ensures
            r == node_light(self.view(), x, y, z),
    {
        let sx = x.checked_div_euclid(16).unwrap() as i16;
        let sy = y.checked_div_euclid(16).unwrap() as i16;
        let sz = z.checked_div_euclid(16).unwrap() as i16;
        let rx = x.checked_rem_euclid(16).unwrap() as usize;
        let ry = y.checked_rem_euclid(16).unwrap() as usize;
        let rz = z.checked_rem_euclid(16).unwrap() as usize;
        let idx = rx + ry * 16 + rz * 256;
        match self.sections.get(&section_key_exec(sx, sy, sz)) {
            Some(v) => (v.0[idx], v.1[idx]),
            None => (UNKNOWN_LIGHT, UNKNOWN_LIGHT),
        }
    }

    /// Empties the cache and returns the position of every section that
    /// was stored, each once.
    pub fn take_positions(&mut self) -> (r: Vec<(i16, i16, i16)>)
        ensures
            r@.to_set() == old(self).view().dom(),
            r@.no_duplicates(),
            final(self).view() == Map::<(i16, i16, i16), ([u8; 4096], [u8; 4096])>::empty(),
    {
        proof {
            use_type_invariant(&*self);
        }
        let ghost m = self.sections@;
        let ghost keys = spec_keys_iter(&self.sections).remaining().unref();
        assert forall|k: u64| #[trigger] m.contains_key(k) implies k < 0x1_0000_0000_0000 by {
            lemma_section_key_bound(key_position(k).0, key_position(k).1, key_position(k).2);
        }
        let mut out: Vec<(i16, i16, i16)> = Vec::new();
        for k in it: self.sections.keys()
            invariant
                m == self.sections@,
                forall|k: u64| #[trigger] m.contains_key(k) ==> k < 0x1_0000_0000_0000,
                forall|k: u64| #[trigger]
                    m.contains_key(k) ==> k == section_key(
                        key_position(k).0,
                        key_position(k).1,
                        key_position(k).2,
                    ),
                keys == spec_keys_iter(&self.sections).remaining().unref(),
                it.seq() == spec_keys_iter(&self.sections).remaining(),
                keys.to_set() == m.dom(),
                keys.no_duplicates(),
                out@.len() == it.index(),
                forall|i: int| 0 <= i < out@.len() ==> #[trigger] out@[i] == key_position(keys[i]),
        {
            assert(keys.to_set().contains(*k));
            assert(m.contains_key(*k));
            out.push(key_position_exec(*k));
        }
        proof {
            let ghost v = old(self).view();
            assert forall|p: (i16, i16, i16)| #[trigger] out@.to_set().contains(p) implies v.dom().contains(p) by {
                let i = choose|i: int| 0 <= i < out@.len() && out@[i] == p;
                assert(keys.to_set().contains(keys[i]));
            }
            assert forall|p: (i16, i16, i16)| #[trigger] v.dom().contains(p) implies out@.to_set().contains(p) by {
                let k = section_key(p.0, p.1, p.2);
                assert(m.dom().contains(k));
                assert(keys.to_set().contains(k));
                let i = choose|i: int| 0 <= i < keys.len() && keys[i] == k;
                lemma_key_position(p.0, p.1, p.2);
                assert(out@[i] == p);
            }
            assert(out@.to_set() =~= v.dom());
            assert forall|i: int, j: int| 0 <= i < out@.len() && 0 <= j < out@.len() && i != j implies
                out@[i] != out@[j] by {
                assert(keys.to_set().contains(keys[i]));
                assert(keys.to_set().contains(keys[j]));
            }
        }
        self.sections = HashMap::new();
        out
    }
}

} // verus!

verus! {

/// Whether bit `b` of a little-endian word bit set is set.
pub open spec fn mask_bit(mask: Seq<u64>, b: int) -> bool {
    0 <= b < mask.len() * 64 && (mask[b / 64] >> ((b % 64) as u64)) & 1 == 1
}

/// The set bits below `n`, ascending.
pub open spec fn ones_below(mask: Seq<u64>, n: nat) -> Seq<int>
    decreases n,
{
    if n == 0 {
        Seq::empty()
    } else {
        let r = ones_below(mask, (n - 1) as nat);
        if mask_bit(mask, n - 1) {
            r.push(n - 1)
        } else {
            r
        }
    }
}

/// All set bits of the mask, ascending.
pub open spec fn set_bits(mask: Seq<u64>) -> Seq<int> {
    ones_below(mask, (mask.len() * 64) as nat)
}

/// Light level of node `i` (x + y*16 + z*256) in a 2048-byte light layer:
/// two x values per byte, low nibble first, y and z as the outer loops.
pub open spec fn light_nibble(data: Seq<u8>, i: int) -> u8 {
    let x = i % 16;
    let y = (i / 16) % 16;
    let z = i / 256;
    let byte = data[(y * 16 + z) * 8 + x / 2];
    if x % 2 == 0 {
        (byte % 16) as u8
    } else {
        (byte / 16) as u8
    }
}

/// A whole light layer decoded to one level per node.
pub open spec fn decoded_layer(data: Seq<u8>) -> Seq<u8> {
    Seq::new(4096, |i: int| light_nibble(data, i))
}

/// The `j`-th layer carries the light of world section `s`: the `j`-th set
/// mask bit is `s + 1` and that layer and all before it are well-sized.
pub open spec fn layer_feeds(layers: Seq<Seq<u8>>, ones: Seq<int>, j: int, s: int) -> bool {
    &&& 0 <= j < ones.len()
    &&& j < layers.len()
    &&& ones[j] == s + 1
    &&& forall|i: int| 0 <= i <= j ==> #[trigger] layers[i].len() == 2048
}

/// Some layer carries the light of world section `s`.
pub open spec fn section_fed(layers: Seq<Seq<u8>>, ones: Seq<int>, s: int) -> bool {
    exists|j: int| layer_feeds(layers, ones, j, s)
}

proof fn lemma_ones_below_bounded(mask: Seq<u64>, n: nat)
    ensures
        forall|i: int| 0 <= i < ones_below(mask, n).len() ==> 0 <= #[trigger] ones_below(mask, n)[i] < n,
        forall|i: int, j: int|
            0 <= i < j < ones_below(mask, n).len() ==> #[trigger] ones_below(mask, n)[i] < #[trigger] ones_below(
                mask,
                n,
            )[j],
    decreases n,
{
    if n > 0 {
        lemma_ones_below_bounded(mask, (n - 1) as nat);
        let r = ones_below(mask, (n - 1) as nat);
        if mask_bit(mask, n - 1) {
            assert(ones_below(mask, n) == r.push(n - 1));
            assert forall|i: int| 0 <= i < r.len() implies #[trigger] ones_below(mask, n)[i] == r[i] by {}
        } else {
            assert(ones_below(mask, n) == r);
        }
    }
}

proof fn lemma_ones_below_prefix(mask: Seq<u64>, n: nat, m: nat)
    requires
        n <= m,
    ensures
        ones_below(mask, n).len() <= ones_below(mask, m).len(),
        forall|i: int|
            0 <= i < ones_below(mask, n).len() ==> #[trigger] ones_below(mask, m)[i] == ones_below(
                mask,
                n,
            )[i],
    decreases m,
{
    if n < m {
        lemma_ones_below_prefix(mask, n, (m - 1) as nat);
    }
}

proof fn lemma_nibbles(byte: u8)
    ensures
        byte & 0xF == byte % 16,
        (byte >> 4) & 0xF == byte / 16,
{
    assert(byte & 0xF == byte % 16) by (bit_vector);
    assert((byte >> 4) & 0xF == byte / 16) by (bit_vector);
}

fn decode_layer(data: &Vec<u8>) -> (r: [u8; 4096])
    requires
        data@.len() == 2048,
    ensures
        r@ == decoded_layer(data@),
{
    let mut levels = [0u8; 4096];
    let mut i: usize = 0;
    while i < 4096
        invariant
            i <= 4096,
            data@.len() == 2048,
            levels@.len() == 4096,
            forall|k: int| 0 <= k < i ==> #[trigger] levels@[k] == light_nibble(data@, k),
        decreases 4096 - i,
    {
        let x = i % 16;
        let y = (i / 16) % 16;
        let z = i / 256;
        let byte = data[(y * 16 + z) * 8 + x / 2];
        proof {
            lemma_nibbles(byte);
        }
        let level = if x % 2 == 0 {
            byte & 0xF
        } else {
            (byte >> 4) & 0xF
        };
        levels[i] = level;
        i += 1;
    }
    assert(levels@ =~= decoded_layer(data@));
    levels
}

/// Decodes Minecraft's per-section light layers.
///
/// `y_mask` is a bit set in little-endian 64-bit words; its `j`-th set bit
/// (ascending) belongs to `layers[j]`, and mask bit `b` stands for world
/// section `b - 1`. Reading stops at the first missing or mis-sized layer;
/// bits naming a section outside `0..num_sections` are skipped. The result
/// has one 4096-level array per section, all zero where no layer applies.
pub fn decode_light_layers(
    layers: &Vec<Vec<u8>>,
    y_mask: &Vec<u64>,
    min_y: i32,
    max_y: i32,
    num_sections: usize,
) -> (r: Vec<[u8; 4096]>)
    ensures
        r@.len() == num_sections,
        forall|s: int, j: int|
            0 <= s < num_sections && layer_feeds(layers.deep_view(), set_bits(y_mask@), j, s) ==> (
            #[trigger] r@[s])@ == decoded_layer(#[trigger] layers.deep_view()[j]),
        forall|s: int|
            0 <= s < num_sections && !section_fed(layers.deep_view(), set_bits(y_mask@), s) ==> forall|
                i: int,
            |
                0 <= i < 4096 ==> (#[trigger] r@[s])@[i] == 0,
{
    let ghost lv = layers.deep_view();
    let ghost mask = y_mask@;
    let mut out: Vec<[u8; 4096]> = Vec::new();
    let mut k: usize = 0;
    while k < num_sections
        invariant
            k <= num_sections,
            out@.len() == k,
            forall|s: int| 0 <= s < k ==> forall|i: int| 0 <= i < 4096 ==> (#[trigger] out@[s])@[i] == 0,
        decreases num_sections - k,
    {
        out.push([0u8; 4096]);
        k += 1;
    }
    let mut layer_idx: usize = 0;
    let mut stopped = false;
    let mut w: usize = 0;
    let ghost mut b: nat = 0;
    while w < y_mask.len() && !stopped
        invariant
            lv == layers.deep_view(),
            mask == y_mask@,
            w <= y_mask.len(),
            !stopped ==> b == w * 64,
            stopped ==> w < y_mask.len() && w * 64 <= b < w * 64 + 64,
            out@.len() == num_sections,
            layer_idx == ones_below(mask, b).len(),
            !stopped ==> layer_idx <= layers.len(),
            stopped ==> mask_bit(mask, b as int) && (layer_idx >= layers.len() || lv[layer_idx as int].len() != 2048),
            forall|i: int| 0 <= i < layer_idx && i < layers.len() ==> #[trigger] lv[i].len() == 2048,
            forall|s: int, j: int|
                0 <= s < num_sections && layer_feeds(lv, ones_below(mask, b), j, s) ==> (
                #[trigger] out@[s])@ == decoded_layer(#[trigger] lv[j]),
            forall|s: int|
                0 <= s < num_sections && !section_fed(lv, ones_below(mask, b), s) ==> forall|i: int|
                    0 <= i < 4096 ==> (#[trigger] out@[s])@[i] == 0,
        decreases (y_mask.len() - w) * 2 + if stopped { 0int } else { 1int },
    {
        let word = y_mask[w];
        let mut sh: u64 = 0;
        while sh < 64 && !stopped
            invariant
                lv == layers.deep_view(),
                mask == y_mask@,
                w < y_mask.len(),
                word == mask[w as int],
                sh <= 64,
                b == w * 64 + sh,
                out@.len() == num_sections,
                layer_idx == ones_below(mask, b).len(),
                !stopped ==> layer_idx <= layers.len(),
                stopped ==> sh < 64 && mask_bit(mask, b as int) && (layer_idx >= layers.len() || lv[layer_idx as int].len() != 2048),
                forall|i: int| 0 <= i < layer_idx && i < layers.len() ==> #[trigger] lv[i].len() == 2048,
                forall|s: int, j: int|
                    0 <= s < num_sections && layer_feeds(lv, ones_below(mask, b), j, s) ==> (
                    #[trigger] out@[s])@ == decoded_layer(#[trigger] lv[j]),
                forall|s: int|
                    0 <= s < num_sections && !section_fed(lv, ones_below(mask, b), s) ==> forall|i: int|
                        0 <= i < 4096 ==> (#[trigger] out@[s])@[i] == 0,
            decreases 64 - sh + if stopped { 0int } else { 1int },
        {
            assert((b as int) / 64 == w && (b as int) % 64 == sh) by (nonlinear_arith)
                requires b == w * 64 + sh, 0 <= sh < 64;
            if (word >> sh) & 1 == 1 {
                if layer_idx >= layers.len() || layers[layer_idx].len() != 2048 {
                    stopped = true;
                } else {
                    let ghost ones = ones_below(mask, b);
                    proof {
                        lemma_ones_below_bounded(mask, b);
                    }
                    let bit: u128 = w as u128 * 64 + sh as u128;
                    if bit >= 1 && bit - 1 < num_sections as u128 {
                        let s = (bit - 1) as usize;
                        let levels = decode_layer(&layers[layer_idx]);
                        out.set(s, levels);
                    }
                    layer_idx += 1;
                    proof {
                        let ones2 = ones_below(mask, b + 1);
                        assert(ones2 == ones.push(b as int));
                        assert forall|s: int, j: int|
                            0 <= s < num_sections && layer_feeds(lv, ones2, j, s) implies (
                            #[trigger] out@[s])@ == decoded_layer(#[trigger] lv[j]) by {
                            if j < ones.len() {
                                assert(layer_feeds(lv, ones, j, s));
                            }
                        }
                        assert forall|s: int|
                            0 <= s < num_sections && !section_fed(lv, ones2, s) implies forall|i: int|
                                0 <= i < 4096 ==> (#[trigger] out@[s])@[i] == 0 by {
                            if section_fed(lv, ones, s) {
                                let j = choose|j: int| layer_feeds(lv, ones, j, s);
                                assert(layer_feeds(lv, ones2, j, s));
                            }
                            if s == b - 1 {
                                assert(layer_feeds(lv, ones2, ones.len() as int, s));
                            }
                        }
                    }
                    sh += 1;
                    proof { b = b + 1; }
                }
            } else {
                sh += 1;
                proof { b = b + 1; }
            }
        }
        if !stopped {
            w += 1;
        }
    }
    proof {
        let n = (mask.len() * 64) as nat;
        let ones = ones_below(mask, b);
        lemma_ones_below_prefix(mask, b, n);
        assert forall|s: int, j: int|
            0 <= s < num_sections && layer_feeds(lv, set_bits(mask), j, s) implies (
            #[trigger] out@[s])@ == decoded_layer(#[trigger] lv[j]) by {
            assert(j < ones.len()) by {
                if j >= ones.len() && stopped {
                    assert(lv[layer_idx as int].len() == 2048);
                }
            }
            assert(layer_feeds(lv, ones, j, s));
        }
        assert forall|s: int|
            0 <= s < num_sections && !section_fed(lv, set_bits(mask), s) implies forall|i: int|
                0 <= i < 4096 ==> (#[trigger] out@[s])@[i] == 0 by {
            if section_fed(lv, ones, s) {
                let j = choose|j: int| layer_feeds(lv, ones, j, s);
                assert(layer_feeds(lv, set_bits(mask), j, s));
            }
        }
    }
    out
}

} // verus!
