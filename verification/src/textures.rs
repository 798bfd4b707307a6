//! Texture naming: paths relative to a texture root, and the flat
//! "safe" names under which the client receives them.
use vstd::prelude::*;
use vstd::string::StrSliceExecFns;
use crate::text::{push_char, push_str, owned, str_eq, starts_with, strip_prefix, fields, split_fields, contains_str};
use crate::nodedef::NodeDrawType;

verus! {

/// `s` with every non-overlapping "./" removed, scanning from the left.
pub open spec fn strip_dot_slash(s: Seq<char>) -> Seq<char>
    decreases s.len(),
{
    if s.len() == 0 {
        s
    } else if s.len() >= 2 && s[0] == '.' && s[1] == '/' {
        strip_dot_slash(s.subrange(2, s.len() as int))
    } else {
        seq![s[0]] + strip_dot_slash(s.subrange(1, s.len() as int))
    }
}

/// Every `from` replaced by `to`.
pub open spec fn swap_char(s: Seq<char>, from: char, to: char) -> Seq<char> {
    s.map_values(|c: char| if c == from { to } else { c })
}

/// The safe name of a relative path: "./" removed, then "/" made "-".
pub open spec fn safe_name(rel: Seq<char>) -> Seq<char> {
    swap_char(strip_dot_slash(rel), '/', '-')
}

/// The relative path a safe name stands for: "./" before it, "-" made "/".
pub open spec fn path_of_safe_name(safe: Seq<char>) -> Seq<char> {
    seq!['.', '/'] + swap_char(safe, '-', '/')
}

/// A texture or model, by its path relative to the root it lives under
/// (e.g. "./block/stone.png").
#[derive(Clone, Debug)]
pub struct LuantiTexture {
    rel_path: String,
}

impl View for LuantiTexture {
    type V = Seq<char>;

    closed spec fn view(&self) -> Seq<char> {
        self.rel_path@
    }
}

proof fn lemma_strip_step(s: Seq<char>, i: int)
    requires
        0 <= i < s.len(),
    ensures
        (i + 1 < s.len() && s[i] == '.' && s[i + 1] == '/') ==> strip_dot_slash(s.subrange(i, s.len() as int))
            == strip_dot_slash(s.subrange(i + 2, s.len() as int)),
        !(i + 1 < s.len() && s[i] == '.' && s[i + 1] == '/') ==> strip_dot_slash(s.subrange(i, s.len() as int))
            == seq![s[i]] + strip_dot_slash(s.subrange(i + 1, s.len() as int)),
{
    let t = s.subrange(i, s.len() as int);
    assert(t.subrange(1, t.len() as int) =~= s.subrange(i + 1, s.len() as int));
    if i + 1 < s.len() {
        assert(t.subrange(2, t.len() as int) =~= s.subrange(i + 2, s.len() as int));
    }
}

/// `s` has no "./" in it.
pub open spec fn no_dot_slash(s: Seq<char>) -> bool {
    forall|i: int| 0 <= i < s.len() - 1 ==> !(#[trigger] s[i] == '.' && s[i + 1] == '/')
}

proof fn lemma_strip_identity(s: Seq<char>)
    requires
        no_dot_slash(s),
    ensures
        strip_dot_slash(s) == s,
    decreases s.len(),
{
    if s.len() > 0 {
        let t = s.subrange(1, s.len() as int);
        assert(no_dot_slash(t)) by {
            assert forall|i: int| 0 <= i < t.len() - 1 implies !(#[trigger] t[i] == '.' && t[i + 1] == '/') by {
                assert(t[i] == s[i + 1] && t[i + 1] == s[i + 2]);
            }
        }
        lemma_strip_identity(t);
        assert(seq![s[0]] + t =~= s);
    }
}

/// `s` has no "." right before a "-".
pub open spec fn no_dot_dash(s: Seq<char>) -> bool {
    forall|i: int| 0 <= i < s.len() - 1 ==> !(#[trigger] s[i] == '.' && s[i + 1] == '-')
}

/// A safe name with no "/" and no ".-" in it names a path whose safe name
/// is the name itself: what the client asks for by name is what was
/// announced under that name.
pub proof fn law_path_of_safe_name_round_trip(s: Seq<char>)
    requires
        !s.contains('/'),
        no_dot_dash(s),
    ensures
        safe_name(path_of_safe_name(s)) == s,
{
    let u = swap_char(s, '-', '/');
    let p = seq!['.', '/'] + u;
    assert(p == path_of_safe_name(s));
    assert(p.subrange(2, p.len() as int) =~= u);
    assert forall|i: int| 0 <= i < s.len() implies s[i] != '/' by {
        if s[i] == '/' {
            assert(s.contains('/'));
        }
    }
    assert(no_dot_slash(u)) by {
        assert forall|i: int| 0 <= i < u.len() - 1 implies !(#[trigger] u[i] == '.' && u[i + 1] == '/') by {
            assert(!(s[i] == '.' && s[i + 1] == '-'));
        }
    }
    lemma_strip_identity(u);
    assert(strip_dot_slash(p) == u);
    assert(swap_char(u, '/', '-') =~= s);
}

/// A texture under "./" whose path has no "-" and no further "./" gets
/// its own path back from its safe name, so the client's media requests
/// find the announced file.
pub proof fn law_safe_name_round_trip(t: Seq<char>)
    requires
        !t.contains('-'),
        no_dot_slash(t),
    ensures
        path_of_safe_name(safe_name(seq!['.', '/'] + t)) == seq!['.', '/'] + t,
{
    let p = seq!['.', '/'] + t;
    assert(p.subrange(2, p.len() as int) =~= t);
    lemma_strip_identity(t);
    assert(strip_dot_slash(p) == t);
    assert(swap_char(swap_char(t, '/', '-'), '-', '/') =~= t) by {
        assert forall|i: int| 0 <= i < t.len() implies t[i] != '-' by {
            if t[i] == '-' {
                assert(t.contains('-'));
            }
        }
    }
}

impl LuantiTexture {
    /// The path relative to its root.
    pub fn get_relative(&self) -> (r: &str)
        ensures
            r@ == self@,
    {
        self.rel_path.as_str()
    }

    /// The flat name the client knows the file by: "./block/thing.png"
    /// becomes "block-thing.png" (the extension stays, the client needs it).
    pub fn to_luanti_safe(&self) -> (r: String)
        ensures
            r@ == safe_name(self@),
    {
        let s = self.rel_path.as_str();
        let n = s.unicode_len();
        let mut out = String::new();
        let mut i: usize = 0;
        assert(s@.subrange(0, n as int) =~= s@);
        assert(out@ + safe_name(self@) =~= safe_name(self@));
        while i < n
            invariant
                n == s@.len(),
                s@ == self@,
                i <= n,
                out@ + swap_char(strip_dot_slash(s@.subrange(i as int, n as int)), '/', '-') == safe_name(
                    self@,
                ),
            decreases n - i,
        {
            proof {
                lemma_strip_step(s@, i as int);
            }
            let c = s.get_char(i);
            if c == '.' && i + 1 < n && s.get_char(i + 1) == '/' {
                i += 2;
            } else {
                let ghost rest = strip_dot_slash(s@.subrange(i + 1, n as int));
                assert(swap_char(seq![c] + rest, '/', '-') =~= seq![if c == '/' { '-' } else { c }]
                    + swap_char(rest, '/', '-'));
                if c == '/' {
                    push_char(&mut out, '-');
                } else {
                    push_char(&mut out, c);
                }
                i += 1;
                assert(out@ + swap_char(rest, '/', '-') =~= safe_name(self@));
            }
        }
        proof {
            assert(s@.subrange(0, n as int) =~= s@);
            assert(s@.subrange(n as int, n as int) =~= Seq::<char>::empty());
            assert(out@ =~= safe_name(self@));
        }
        out
    }

    /// The texture a safe name stands for: "block-thing.png" becomes
    /// "./block/thing.png".
    pub fn from_luanti_safe(safe_texture: &str) -> (r: LuantiTexture)
        ensures
            r@ == path_of_safe_name(safe_texture@),
    {
        let n = safe_texture.unicode_len();
        let mut out = String::new();
        push_char(&mut out, '.');
        push_char(&mut out, '/');
        let mut i: usize = 0;
        while i < n
            invariant
                n == safe_texture@.len(),
                i <= n,
                out@ == seq!['.', '/'] + swap_char(safe_texture@.subrange(0, i as int), '-', '/'),
            decreases n - i,
        {
            let c = safe_texture.get_char(i);
            if c == '-' {
                push_char(&mut out, '/');
            } else {
                push_char(&mut out, c);
            }
            i += 1;
            assert(out@ =~= seq!['.', '/'] + swap_char(safe_texture@.subrange(0, i as int), '-', '/'));
        }
        assert(safe_texture@.subrange(0, n as int) =~= safe_texture@);
        LuantiTexture { rel_path: out }
    }

    /// A texture from its relative path as written.
    pub fn from_string(rpath: &str) -> (r: LuantiTexture)
        ensures
            r@ == rpath@,
    {
        LuantiTexture { rel_path: owned(rpath) }
    }
}

} // verus!

verus! {

/// The fixed tint of a texture drawn with a biome colormap (the plains
/// colours), by safe name; `None` for textures drawn as they are.
pub open spec fn colormap_of(name: Seq<char>) -> Option<(u8, u8, u8)> {
    if name == "block-grass_block_top.png"@ || name == "block-grass_block_side_overlay.png"@ || name == "block-short_grass.png"@ || name == "block-tall_grass_bottom.png"@ || name == "block-tall_grass_top.png"@ || name == "block-fern.png"@ || name == "block-large_fern_bottom.png"@ || name == "block-large_fern_top.png"@ {
        Some((0x91, 0xBD, 0x59))
    } else if name == "block-oak_leaves.png"@ || name == "block-jungle_leaves.png"@ || name == "block-acacia_leaves.png"@ || name == "block-dark_oak_leaves.png"@ || name == "block-vine.png"@ {
        Some((0x77, 0xAB, 0x2F))
    } else if name == "block-water_still.png"@ || name == "block-water_flow.png"@ {
        Some((0x3F, 0x76, 0xE4))
    } else if name == "block-attached_melon_stem.png"@ || name == "block-attached_pumpkin_stem.png"@ || name == "block-melon_stem.png"@ || name == "block-pumpkin_stem.png"@ || name == "pink_petals_stem.png"@ {
        Some((0xE0, 0xC7, 0x1C))
    } else if name == "block-birch_leaves.png"@ {
        Some((0x80, 0xA7, 0x55))
    } else if name == "block-spruce_leaves.png"@ {
        Some((0x61, 0x99, 0x61))
    } else if name == "block-lily_pad.png"@ {
        Some((0x20, 0x80, 0x30))
    } else {
        None
    }
}

/// The tint the client must apply to a texture, if it is one that
/// Minecraft colours by biome (grass, foliage, water, stems, and the
/// leaves and lily pad with a constant tint).
pub fn get_colormap(texture: &LuantiTexture) -> (r: Option<(u8, u8, u8)>)
    ensures
        r == colormap_of(safe_name(texture@)),
{
    let r_texture = texture.to_luanti_safe();
    let name = r_texture.as_str();
    if str_eq(name, "block-grass_block_top.png") || str_eq(name, "block-grass_block_side_overlay.png") || str_eq(name, "block-short_grass.png") || str_eq(name, "block-tall_grass_bottom.png") || str_eq(name, "block-tall_grass_top.png") || str_eq(name, "block-fern.png") || str_eq(name, "block-large_fern_bottom.png") || str_eq(name, "block-large_fern_top.png") {
        return Some((0x91, 0xBD, 0x59));
    }
    if str_eq(name, "block-oak_leaves.png") || str_eq(name, "block-jungle_leaves.png") || str_eq(name, "block-acacia_leaves.png") || str_eq(name, "block-dark_oak_leaves.png") || str_eq(name, "block-vine.png") {
        return Some((0x77, 0xAB, 0x2F));
    }
    if str_eq(name, "block-water_still.png") || str_eq(name, "block-water_flow.png") {
        return Some((0x3F, 0x76, 0xE4));
    }
    if str_eq(name, "block-attached_melon_stem.png") || str_eq(name, "block-attached_pumpkin_stem.png") || str_eq(name, "block-melon_stem.png") || str_eq(name, "block-pumpkin_stem.png") || str_eq(name, "pink_petals_stem.png") {
        return Some((0xE0, 0xC7, 0x1C));
    }
    if str_eq(name, "block-birch_leaves.png") {
        return Some((0x80, 0xA7, 0x55));
    }
    if str_eq(name, "block-spruce_leaves.png") {
        return Some((0x61, 0x99, 0x61));
    }
    if str_eq(name, "block-lily_pad.png") {
        return Some((0x20, 0x80, 0x30));
    }
    None
}

} // verus!

verus! {

/// A face of a block.
#[derive(Clone, Copy, PartialEq, Eq, Debug, Hash, Structural)]
pub enum Direction {
    Up,
    Down,
    North,
    South,
    East,
    West,
}

/// The faces in the order the client's tile definitions list them.
pub open spec fn face_order() -> Seq<Direction> {
    seq![
        Direction::Up,
        Direction::Down,
        Direction::North,
        Direction::South,
        Direction::East,
        Direction::West,
    ]
}

/// How a block is drawn, as written in the block texture map; a node box
/// is named by its key ("NB_...").
#[derive(Clone, Debug)]
pub enum RawDrawType {
    Full,
    Air,
    Flower,
    Fire,
    Liquid,
    NodeBox(String),
}

/// Whether a texture-map draw type names a node box ("NB_...").
pub open spec fn names_node_box(s: Seq<char>) -> bool {
    3 <= s.len() && s.subrange(0, 3) == "NB_"@
}

impl RawDrawType {
    /// Reads a draw type as written in the block texture map.
    pub fn parse(s: &str) -> (r: Option<RawDrawType>)
        ensures
            s@ == "full"@ ==> r matches Some(RawDrawType::Full),
            s@ == "air"@ ==> r matches Some(RawDrawType::Air),
            s@ == "flower"@ ==> r matches Some(RawDrawType::Flower),
            s@ == "fire"@ ==> r matches Some(RawDrawType::Fire),
            s@ == "liquid"@ ==> r matches Some(RawDrawType::Liquid),
            names_node_box(s@) ==> (r matches Some(RawDrawType::NodeBox(k)) && k@ == s@),
            r is None <==> !(s@ == "full"@ || s@ == "air"@ || s@ == "flower"@ || s@ == "fire"@
                || s@ == "liquid"@ || names_node_box(s@)),
    {
        proof {
            reveal_strlit("full");
            reveal_strlit("air");
            reveal_strlit("flower");
            reveal_strlit("fire");
            reveal_strlit("liquid");
            reveal_strlit("NB_");
            assert("full"@.len() == 4 && "flower"@.len() == 6 && "air"@.len() == 3);
            assert("fire"@[1] != "full"@[1]);
            assert("liquid"@[0] != "flower"@[0]);
            if names_node_box(s@) {
                assert(s@[0] == s@.subrange(0, 3)[0]);
                assert(s@[0] == 'N');
            }
        }
        if str_eq(s, "full") {
            Some(RawDrawType::Full)
        } else if str_eq(s, "air") {
            Some(RawDrawType::Air)
        } else if str_eq(s, "flower") {
            Some(RawDrawType::Flower)
        } else if str_eq(s, "fire") {
            Some(RawDrawType::Fire)
        } else if str_eq(s, "liquid") {
            Some(RawDrawType::Liquid)
        } else if starts_with(s, "NB_") {
            Some(RawDrawType::NodeBox(owned(s)))
        } else {
            None
        }
    }

    /// The client draw type, and the node box key for node boxes.
    pub fn compile(&self) -> (r: (NodeDrawType, Option<&String>))
        ensures
            r.0 == match self {
                RawDrawType::Air => NodeDrawType::AirLike,
                RawDrawType::Fire => NodeDrawType::FireLike,
                RawDrawType::Flower => NodeDrawType::PlantLike,
                RawDrawType::Full => NodeDrawType::Normal,
                RawDrawType::Liquid => NodeDrawType::Liquid,
                RawDrawType::NodeBox(_) => NodeDrawType::NodeBox,
            },
            (r.1 is Some) == (self is NodeBox),
            self matches RawDrawType::NodeBox(k) ==> (r.1 matches Some(kk) && kk@ == k@),
    {
        match self {
            RawDrawType::Air => (NodeDrawType::AirLike, None),
            RawDrawType::Fire => (NodeDrawType::FireLike, None),
            RawDrawType::Flower => (NodeDrawType::PlantLike, None),
            RawDrawType::Full => (NodeDrawType::Normal, None),
            RawDrawType::Liquid => (NodeDrawType::Liquid, None),
            RawDrawType::NodeBox(k) => (NodeDrawType::NodeBox, Some(k)),
        }
    }
}

/// Block-face textures as written in the block texture map: one texture
/// for every face, or a texture per face.
#[derive(Clone, Debug)]
pub enum RawTextures {
    Uniform(String),
    PerFace(Vec<(Direction, String)>),
}

impl RawTextures {
    /// The per-face texture list: a uniform texture is given to all six
    /// faces in face order.
    pub fn into_map(self) -> (r: Vec<(Direction, String)>)
        ensures
            match self {
                RawTextures::PerFace(v) => r@ == v@,
                RawTextures::Uniform(t) => r@.len() == 6 && forall|i: int|
                    0 <= i < 6 ==> (#[trigger] r@[i]).0 == face_order()[i] && r@[i].1@ == t@,
            },
    {
        match self {
            RawTextures::PerFace(v) => v,
            RawTextures::Uniform(t) => {
                let mut r: Vec<(Direction, String)> = Vec::new();
                r.push((Direction::Up, owned(t.as_str())));
                r.push((Direction::Down, owned(t.as_str())));
                r.push((Direction::North, owned(t.as_str())));
                r.push((Direction::South, owned(t.as_str())));
                r.push((Direction::East, owned(t.as_str())));
                r.push((Direction::West, owned(t.as_str())));
                r
            },
        }
    }
}

} // verus!

verus! {

/// The texture a face list gives face `d`: the last entry for that face,
/// as when the list is collected into a map.
pub open spec fn face_texture(v: Seq<(Direction, LuantiTexture)>, d: Direction) -> Option<LuantiTexture>
    decreases v.len(),
{
    if v.len() == 0 {
        None
    } else if v.last().0 == d {
        Some(v.last().1)
    } else {
        face_texture(v.drop_last(), d)
    }
}

/// How a block looks: its face textures, draw type, node box key (for
/// node boxes) and whether a face texture has alpha cut-outs.
#[derive(Clone, Debug)]
pub struct BlockMapping {
    pub textures: Vec<(Direction, LuantiTexture)>,
    pub drawtype: NodeDrawType,
    pub nodebox: Option<String>,
    pub cutout: bool,
}

/// One face's tile as the client gets it.
#[derive(Clone, Debug)]
pub struct TileSpec {
    pub name: String,
    pub backface_culling: bool,
    pub color: Option<(u8, u8, u8)>,
}

impl BlockMapping {
    /// Whether every face has a texture.
    pub open spec fn all_faces(&self) -> bool {
        forall|i: int| 0 <= i < 6 ==> (#[trigger] face_texture(self.textures@, face_order()[i])) is Some
    }

    /// The texture of face `d`, if the mapping has one.
    pub fn face(&self, d: Direction) -> (r: Option<&LuantiTexture>)
        ensures
            match face_texture(self.textures@, d) {
                Some(t) => r matches Some(x) && *x == t,
                None => r is None,
            },
    {
        let mut found: Option<&LuantiTexture> = None;
        let mut i: usize = 0;
        while i < self.textures.len()
            invariant
                i <= self.textures@.len(),
                match face_texture(self.textures@.take(i as int), d) {
                    Some(t) => found matches Some(x) && *x == t,
                    None => found is None,
                },
            decreases self.textures.len() - i,
        {
            assert(self.textures@.take(i + 1).drop_last() =~= self.textures@.take(i as int));
            if self.textures[i].0 == d {
                found = Some(&self.textures[i].1);
            }
            i += 1;
        }
        assert(self.textures@.take(i as int) =~= self.textures@);
        found
    }

    /// The texture of a face the mapping is known to have.
    fn face_of(&self, d: Direction) -> (r: &LuantiTexture)
        requires
            face_texture(self.textures@, d) is Some,
        ensures
            *r == face_texture(self.textures@, d)->0,
    {
        match self.face(d) {
            Some(t) => t,
            None => {
                assert(false);
                self.face(d).unwrap()
            },
        }
    }

    /// The six tiles in face order: the face's safe name, culled from
    /// behind unless the block is plant-like, tinted by its colormap.
    pub fn get_tiledefs(&self) -> (r: Vec<TileSpec>)
        requires
            self.all_faces(),
        ensures
            r@.len() == 6,
            forall|i: int|
                0 <= i < 6 ==> {
                    let t = face_texture(self.textures@, face_order()[i])->0;
                    &&& (#[trigger] r@[i]).name@ == safe_name(t@)
                    &&& r@[i].backface_culling == (self.drawtype != NodeDrawType::PlantLike)
                    &&& r@[i].color == colormap_of(safe_name(t@))
                },
    {
        let faces = [
            Direction::Up,
            Direction::Down,
            Direction::North,
            Direction::South,
            Direction::East,
            Direction::West,
        ];
        let mut r: Vec<TileSpec> = Vec::new();
        let mut i: usize = 0;
        while i < 6
            invariant
                i <= 6,
                self.all_faces(),
                faces@ == face_order(),
                r@.len() == i,
                forall|k: int|
                    0 <= k < i ==> {
                        let t = face_texture(self.textures@, face_order()[k])->0;
                        &&& (#[trigger] r@[k]).name@ == safe_name(t@)
                        &&& r@[k].backface_culling == (self.drawtype != NodeDrawType::PlantLike)
                        &&& r@[k].color == colormap_of(safe_name(t@))
                    },
            decreases 6 - i,
        {
            assert(face_texture(self.textures@, face_order()[i as int]) is Some);
            let texture = self.face_of(faces[i]);
            r.push(
                TileSpec {
                    name: texture.to_luanti_safe(),
                    backface_culling: self.drawtype != NodeDrawType::PlantLike,
                    color: get_colormap(texture),
                },
            );
            i += 1;
        }
        r
    }

    /// The six face textures' safe names in face order, for objects drawn
    /// as a cube.
    pub fn to_entity_textures(&self) -> (r: Vec<String>)
        requires
            self.all_faces(),
        ensures
            r@.len() == 6,
            forall|i: int|
                0 <= i < 6 ==> (#[trigger] r@[i])@ == safe_name(
                    face_texture(self.textures@, face_order()[i])->0@,
                ),
    {
        let tiles = self.get_tiledefs();
        let mut r: Vec<String> = Vec::new();
        let mut i: usize = 0;
        while i < 6
            invariant
                i <= 6,
                tiles@.len() == 6,
                r@.len() == i,
                forall|k: int|
                    0 <= k < 6 ==> (#[trigger] tiles@[k]).name@ == safe_name(
                        face_texture(self.textures@, face_order()[k])->0@,
                    ),
                forall|k: int|
                    0 <= k < i ==> (#[trigger] r@[k])@ == safe_name(
                        face_texture(self.textures@, face_order()[k])->0@,
                    ),
            decreases 6 - i,
        {
            r.push(owned(tiles[i].name.as_str()));
            i += 1;
        }
        r
    }

    /// The inventory image of a block item without its own texture: an
    /// isometric cube of the top, north and east faces.
    pub fn to_safe_cube(&self) -> (r: String)
        requires
            face_texture(self.textures@, Direction::Up) is Some,
            face_texture(self.textures@, Direction::North) is Some,
            face_texture(self.textures@, Direction::East) is Some,
        ensures
            r@ == "[inventorycube{"@ + safe_name(face_texture(self.textures@, Direction::Up)->0@) + "{"@
                + safe_name(face_texture(self.textures@, Direction::North)->0@) + "{"@ + safe_name(
                face_texture(self.textures@, Direction::East)->0@,
            ),
    {
        let up = self.face_of(Direction::Up).to_luanti_safe();
        let north = self.face_of(Direction::North).to_luanti_safe();
        let east = self.face_of(Direction::East).to_luanti_safe();
        let mut r = owned("[inventorycube{");
        push_str(&mut r, up.as_str());
        push_str(&mut r, "{");
        push_str(&mut r, north.as_str());
        push_str(&mut r, "{");
        push_str(&mut r, east.as_str());
        r
    }
}

/// Light and shape details of a block that its data files do not give.
#[derive(Clone, Copy, Debug, PartialEq, Eq, Structural)]
pub struct BlockInfo {
    pub light_source: u8,
    /// Light while the block's "lit" property is true.
    pub lit_light_source: Option<u8>,
    pub waving: bool,
    pub climbable: bool,
    /// A full cube that can be seen through.
    pub glasslike: bool,
    /// A full cube with alpha.
    pub cutout: bool,
}

impl BlockInfo {
    /// Nothing special: no light, no waving, solid.
    pub fn new() -> (r: BlockInfo)
        ensures
            r == (BlockInfo {
                light_source: 0,
                lit_light_source: None,
                waving: false,
                climbable: false,
                glasslike: false,
                cutout: false,
            }),
    {
        BlockInfo {
            light_source: 0,
            lit_light_source: None,
            waving: false,
            climbable: false,
            glasslike: false,
            cutout: false,
        }
    }
}

/// Whether `prefix` starts `s`.
pub open spec fn has_prefix(s: Seq<char>, prefix: Seq<char>) -> bool {
    prefix.len() <= s.len() && s.subrange(0, prefix.len() as int) == prefix
}

/// The root a media file found at `apath` lies under: the models' root in
/// model mode, else the texture pack's root if the path is under it, else
/// the downloaded textures' root.
pub open spec fn root_of(
    apath: Seq<char>,
    model_mode: bool,
    texture_root: Seq<char>,
    asset_model_root: Seq<char>,
    asset_texture_root: Seq<char>,
) -> Seq<char> {
    if model_mode {
        asset_model_root
    } else if has_prefix(apath, texture_root) {
        texture_root
    } else {
        asset_texture_root
    }
}

impl LuantiTexture {
    /// The texture for a file found at `apath` below one of the media
    /// roots (each given as a path ending in a separator): its path
    /// relative to the root it lies under (see `root_of`). `None` when the
    /// path does not lie under that root.
    pub fn from_absolute(
        apath: &str,
        model_mode: bool,
        texture_root: &str,
        asset_model_root: &str,
        asset_texture_root: &str,
    ) -> (r: Option<LuantiTexture>)
        ensures
            ({
                let root = root_of(apath@, model_mode, texture_root@, asset_model_root@, asset_texture_root@);
                &&& has_prefix(apath@, root) ==> (r matches Some(t) && t@ == apath@.subrange(
                    root.len() as int,
                    apath@.len() as int,
                ))
                &&& !has_prefix(apath@, root) ==> r is None
            }),
    {
        let root = if model_mode {
            asset_model_root
        } else if starts_with(apath, texture_root) {
            texture_root
        } else {
            asset_texture_root
        };
        match strip_prefix(apath, root) {
            Some(rest) => Some(LuantiTexture::from_string(rest)),
            None => None,
        }
    }
}

impl LuantiTexture {
    /// Where the texture or model is read from: its relative path under
    /// the root `media_root_of` picks (the roots given as paths ending in a
    /// separator; `in_texture_pack` tells whether the texture pack has the
    /// file).
    pub fn get_absolute(
        &self,
        model_mode: bool,
        in_texture_pack: bool,
        texture_root: &str,
        asset_model_root: &str,
        asset_texture_root: &str,
    ) -> (r: String)
        ensures
            r@ == root_path_of(
                media_root_of(model_mode, in_texture_pack),
                texture_root@,
                asset_model_root@,
                asset_texture_root@,
            ) + self@,
    {
        let root = match absolute_root(model_mode, in_texture_pack) {
            MediaRoot::AssetModels => asset_model_root,
            MediaRoot::TexturePack => texture_root,
            MediaRoot::AssetTextures => asset_texture_root,
        };
        let mut r = owned(root);
        push_str(&mut r, self.rel_path.as_str());
        r
    }
}

/// Reading a texture's file and making the file's path relative again
/// gives the texture back, in model mode and out of it, whether or not the
/// texture pack has the file: provided the downloaded textures' root does
/// not lie under the texture pack's root.
pub proof fn law_absolute_path_round_trip(
    rel: Seq<char>,
    model_mode: bool,
    in_texture_pack: bool,
    texture_root: Seq<char>,
    asset_model_root: Seq<char>,
    asset_texture_root: Seq<char>,
)
    requires
        texture_root.len() <= asset_texture_root.len(),
        !has_prefix(asset_texture_root, texture_root),
    ensures
        ({
            let a = root_path_of(
                media_root_of(model_mode, in_texture_pack),
                texture_root,
                asset_model_root,
                asset_texture_root,
            ) + rel;
            let root = root_of(a, model_mode, texture_root, asset_model_root, asset_texture_root);
            &&& has_prefix(a, root)
            &&& a.subrange(root.len() as int, a.len() as int) == rel
        }),
{
    let chosen = root_path_of(
        media_root_of(model_mode, in_texture_pack),
        texture_root,
        asset_model_root,
        asset_texture_root,
    );
    let a = chosen + rel;
    assert(a.subrange(0, chosen.len() as int) =~= chosen);
    assert(a.subrange(chosen.len() as int, a.len() as int) =~= rel);
    if !model_mode && !in_texture_pack {
        assert(a.subrange(0, texture_root.len() as int) =~= asset_texture_root.subrange(
            0,
            texture_root.len() as int,
        ));
    }
}

/// Which root a media file lives under.
#[derive(Clone, Copy, Debug, PartialEq, Eq, Structural)]
pub enum MediaRoot {
    /// Models of the downloaded asset pack.
    AssetModels,
    /// The user's texture pack.
    TexturePack,
    /// Textures of the downloaded asset pack.
    AssetTextures,
}

/// Which root a media file is under: models always in the asset pack;
/// textures in the texture pack where it has the file (when reading) or
/// the path lies under it (when making a path relative), else in the
/// asset pack.
pub open spec fn media_root_of(model_mode: bool, in_texture_pack: bool) -> MediaRoot {
    if model_mode {
        MediaRoot::AssetModels
    } else if in_texture_pack {
        MediaRoot::TexturePack
    } else {
        MediaRoot::AssetTextures
    }
}

/// The path of a root, given the paths of the three.
pub open spec fn root_path_of(
    root: MediaRoot,
    texture_root: Seq<char>,
    asset_model_root: Seq<char>,
    asset_texture_root: Seq<char>,
) -> Seq<char> {
    match root {
        MediaRoot::AssetModels => asset_model_root,
        MediaRoot::TexturePack => texture_root,
        MediaRoot::AssetTextures => asset_texture_root,
    }
}

/// Which root a media file is under (see `media_root_of`).
pub fn absolute_root(model_mode: bool, in_texture_pack: bool) -> (r: MediaRoot)
    ensures
        r == media_root_of(model_mode, in_texture_pack),
{
    if model_mode {
        MediaRoot::AssetModels
    } else if in_texture_pack {
        MediaRoot::TexturePack
    } else {
        MediaRoot::AssetTextures
    }
}

} // verus!

verus! {

/// A variant key's "prop=val" pairs all occur in the block state's pairs.
pub open spec fn key_matches(key: Seq<char>, state: Seq<char>) -> bool {
    forall|i: int| 0 <= i < fields(key).len() ==> fields(state).contains(#[trigger] fields(key)[i])
}

/// `keys[i]` is the variant to use for `state`: it matches, no matching
/// key has more pairs, and every later matching key has fewer.
pub open spec fn is_best_variant(keys: Seq<Seq<char>>, state: Seq<char>, i: int) -> bool {
    &&& 0 <= i < keys.len()
    &&& key_matches(keys[i], state)
    &&& forall|j: int|
        0 <= j < keys.len() && key_matches(#[trigger] keys[j], state) ==> fields(keys[j]).len() <= fields(
            keys[i],
        ).len()
    &&& forall|j: int|
        i < j < keys.len() && key_matches(#[trigger] keys[j], state) ==> fields(keys[j]).len() < fields(
            keys[i],
        ).len()
}

/// Whether all of `f` occur in `state`.
fn all_in(f: &Vec<String>, state: &Vec<String>) -> (r: bool)
    ensures
        r == forall|i: int| 0 <= i < f@.len() ==> state.deep_view().contains(#[trigger] f.deep_view()[i]),
{
    let mut i: usize = 0;
    while i < f.len()
        invariant
            i <= f@.len(),
            forall|k: int| 0 <= k < i ==> state.deep_view().contains(#[trigger] f.deep_view()[k]),
        decreases f.len() - i,
    {
        if !contains_str(state, f[i].as_str()) {
            assert(f.deep_view()[i as int] == f@[i as int]@);
            assert(!state.deep_view().contains(f.deep_view()[i as int]));
            return false;
        }
        assert(f.deep_view()[i as int] == f@[i as int]@);
        i += 1;
    }
    true
}

/// Picks the block-state variant for `state_key` among the variant keys of
/// a block ("prop1=val1,prop2=val2"; a key may leave out properties): of
/// the keys whose pairs all occur in the state, the one with the most
/// pairs, the last of them on a tie; with no such key, the first key;
/// `None` only for a block with no variants.
pub fn best_variant(keys: &Vec<String>, state_key: &str) -> (r: Option<usize>)
    ensures
        keys@.len() == 0 <==> r is None,
        (exists|j: int| 0 <= j < keys@.len() && key_matches(#[trigger] keys.deep_view()[j], state_key@))
            ==> (r matches Some(i) && is_best_variant(keys.deep_view(), state_key@, i as int)),
        !(exists|j: int| 0 <= j < keys@.len() && key_matches(#[trigger] keys.deep_view()[j], state_key@))
            && keys@.len() > 0 ==> r == Some(0usize),
{
    let ghost kv = keys.deep_view();
    let state = split_fields(state_key);
    let mut best: Option<usize> = None;
    let mut best_count: usize = 0;
    let mut i: usize = 0;
    while i < keys.len()
        invariant
            kv == keys.deep_view(),
            state.deep_view() == fields(state_key@),
            i <= keys@.len(),
            best is None <==> !(exists|j: int| 0 <= j < i && key_matches(#[trigger] kv[j], state_key@)),
            best matches Some(b) ==> {
                &&& b < i
                &&& key_matches(kv[b as int], state_key@)
                &&& best_count == fields(kv[b as int]).len()
                &&& forall|j: int|
                    0 <= j < i && key_matches(#[trigger] kv[j], state_key@) ==> fields(kv[j]).len()
                        <= best_count
                &&& forall|j: int|
                    b < j < i && key_matches(#[trigger] kv[j], state_key@) ==> fields(kv[j]).len()
                        < best_count
            },
        decreases keys.len() - i,
    {
        let f = split_fields(keys[i].as_str());
        assert(kv[i as int] == keys@[i as int]@);
        let m = all_in(&f, &state);
        assert(m == key_matches(kv[i as int], state_key@));
        if m {
            if best.is_none() || f.len() >= best_count {
                best = Some(i);
                best_count = f.len();
            }
        }
        i += 1;
    }
    if best.is_some() {
        best
    } else if keys.len() > 0 {
        Some(0)
    } else {
        None
    }
}

} // verus!

verus! {

/// The inventory image of an item: its own texture's safe name, else the
/// cube of the block of the same name.
pub fn inventory_image(item_texture: Option<&LuantiTexture>, block: &BlockMapping) -> (r: String)
    requires
        item_texture is None ==> {
            &&& face_texture(block.textures@, Direction::Up) is Some
            &&& face_texture(block.textures@, Direction::North) is Some
            &&& face_texture(block.textures@, Direction::East) is Some
        },
    ensures
        item_texture matches Some(t) ==> r@ == safe_name(t@),
        item_texture is None ==> r@ == "[inventorycube{"@ + safe_name(
            face_texture(block.textures@, Direction::Up)->0@,
        ) + "{"@ + safe_name(face_texture(block.textures@, Direction::North)->0@) + "{"@ + safe_name(
            face_texture(block.textures@, Direction::East)->0@,
        ),
{
    match item_texture {
        Some(t) => t.to_luanti_safe(),
        None => block.to_safe_cube(),
    }
}

} // verus!
