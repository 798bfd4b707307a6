//! How an entity looks on the client: its visual, mesh, texture slots
//! and size, composed from a base entry and the entries of the variants
//! that apply (baby, coat colour, ...).
use vstd::prelude::*;
use crate::text::{owned, push_char, push_str};

verus! {

/// Per-instance data that selects a model or texture variant.
#[derive(Clone, Debug)]
pub struct ExtraData {
    pub baby: bool,
    pub variant: Option<String>,
}

/// Entity kinds whose variant is sent as a plain number.
#[derive(Clone, Copy, Debug, PartialEq, Eq, Structural)]
pub enum RawVariantKind {
    Mooshroom,
    Pufferfish,
    Fox,
    Rabbit,
    Parrot,
    /// Llamas and trader llamas.
    Llama,
    Salmon,
    Axolotl,
    TropicalFish,
    Horse,
}

/// The variant name a raw metadata number stands for, where the client
/// has a texture for it (tropical fish and horses use the low byte).
pub open spec fn raw_variant_of(kind: RawVariantKind, value: i32) -> Option<Seq<char>> {
    match kind {
        RawVariantKind::Mooshroom => if value == 1 {
            Some("brown"@)
        } else {
            None
        },
        RawVariantKind::Pufferfish => if value == 1 {
            Some("medium"@)
        } else if value == 2 {
            Some("big"@)
        } else {
            None
        },
        RawVariantKind::Fox => if value == 1 {
            Some("snow"@)
        } else {
            None
        },
        RawVariantKind::Rabbit => if value == 1 {
            Some("white"@)
        } else if value == 2 {
            Some("black"@)
        } else if value == 3 {
            Some("white_splotched"@)
        } else if value == 4 {
            Some("gold"@)
        } else if value == 5 {
            Some("salt"@)
        } else if value == 99 {
            Some("caerbannog"@)
        } else {
            None
        },
        RawVariantKind::Parrot => if value == 1 {
            Some("blue"@)
        } else if value == 2 {
            Some("green"@)
        } else if value == 3 {
            Some("yellow_blue"@)
        } else if value == 4 {
            Some("grey"@)
        } else {
            None
        },
        RawVariantKind::Llama => if value == 0 {
            Some("creamy"@)
        } else if value == 1 {
            Some("white"@)
        } else if value == 2 {
            Some("brown"@)
        } else if value == 3 {
            Some("gray"@)
        } else {
            None
        },
        RawVariantKind::Salmon => if value == 0 {
            Some("small"@)
        } else if value == 1 {
            Some("medium"@)
        } else if value == 2 {
            Some("large"@)
        } else {
            None
        },
        RawVariantKind::Axolotl => if value == 0 {
            Some("lucy"@)
        } else if value == 2 {
            Some("gold"@)
        } else if value == 3 {
            Some("cyan"@)
        } else if value == 4 {
            Some("blue"@)
        } else {
            None
        },
        RawVariantKind::TropicalFish => if (value & 0xFF) == 1 {
            Some("alternate"@)
        } else {
            None
        },
        RawVariantKind::Horse => if (value & 0xFF) == 0 {
            Some("white"@)
        } else if (value & 0xFF) == 1 {
            Some("creamy"@)
        } else if (value & 0xFF) == 2 {
            Some("chestnut"@)
        } else if (value & 0xFF) == 4 {
            Some("black"@)
        } else if (value & 0xFF) == 5 {
            Some("gray"@)
        } else if (value & 0xFF) == 6 {
            Some("dark_brown"@)
        } else {
            None
        },
    }
}

fn raw_variant_str(kind: RawVariantKind, value: i32) -> (r: Option<&'static str>)
    ensures
        match raw_variant_of(kind, value) {
            Some(s) => r matches Some(x) && x@ == s,
            None => r is None,
        },
{
    match kind {
        RawVariantKind::Mooshroom => if value == 1 {
            Some("brown")
        } else {
            None
        },
        RawVariantKind::Pufferfish => if value == 1 {
            Some("medium")
        } else if value == 2 {
            Some("big")
        } else {
            None
        },
        RawVariantKind::Fox => if value == 1 {
            Some("snow")
        } else {
            None
        },
        RawVariantKind::Rabbit => if value == 1 {
            Some("white")
        } else if value == 2 {
            Some("black")
        } else if value == 3 {
            Some("white_splotched")
        } else if value == 4 {
            Some("gold")
        } else if value == 5 {
            Some("salt")
        } else if value == 99 {
            Some("caerbannog")
        } else {
            None
        },
        RawVariantKind::Parrot => if value == 1 {
            Some("blue")
        } else if value == 2 {
            Some("green")
        } else if value == 3 {
            Some("yellow_blue")
        } else if value == 4 {
            Some("grey")
        } else {
            None
        },
        RawVariantKind::Llama => if value == 0 {
            Some("creamy")
        } else if value == 1 {
            Some("white")
        } else if value == 2 {
            Some("brown")
        } else if value == 3 {
            Some("gray")
        } else {
            None
        },
        RawVariantKind::Salmon => if value == 0 {
            Some("small")
        } else if value == 1 {
            Some("medium")
        } else if value == 2 {
            Some("large")
        } else {
            None
        },
        RawVariantKind::Axolotl => if value == 0 {
            Some("lucy")
        } else if value == 2 {
            Some("gold")
        } else if value == 3 {
            Some("cyan")
        } else if value == 4 {
            Some("blue")
        } else {
            None
        },
        RawVariantKind::TropicalFish => if (value & 0xFF) == 1 {
            Some("alternate")
        } else {
            None
        },
        RawVariantKind::Horse => if (value & 0xFF) == 0 {
            Some("white")
        } else if (value & 0xFF) == 1 {
            Some("creamy")
        } else if (value & 0xFF) == 2 {
            Some("chestnut")
        } else if (value & 0xFF) == 4 {
            Some("black")
        } else if (value & 0xFF) == 5 {
            Some("gray")
        } else if (value & 0xFF) == 6 {
            Some("dark_brown")
        } else {
            None
        },
    }
}

/// The variant name for a raw metadata number (see `raw_variant_of`).
pub fn raw_int_variant_name(kind: RawVariantKind, value: i32) -> (r: Option<String>)
    ensures
        match raw_variant_of(kind, value) {
            Some(s) => r matches Some(x) && x@ == s,
            None => r is None,
        },
{
    match raw_variant_str(kind, value) {
        Some(s) => Some(owned(s)),
        None => None,
    }
}

} // verus!

verus! {

/// Lays `o` over `acc` ("acc^o"), or just `o` on an empty slot.
pub open spec fn overlay(acc: Seq<char>, o: Seq<char>) -> Seq<char> {
    if acc.len() == 0 {
        o
    } else {
        acc + seq!['^'] + o
    }
}

/// Lays every overlay over `acc`, in order.
pub open spec fn overlay_all(acc: Seq<char>, os: Seq<Seq<char>>) -> Seq<char>
    decreases os.len(),
{
    if os.len() == 0 {
        acc
    } else {
        overlay(overlay_all(acc, os.drop_last()), os.last())
    }
}

/// A texture slot `[base, overlay, ...]` applied to the slot so far: a
/// non-empty base replaces it, then the overlays go on top.
pub open spec fn composed_slot(acc: Seq<char>, pieces: Seq<Seq<char>>) -> Seq<char> {
    if pieces.len() == 0 {
        acc
    } else {
        overlay_all(if pieces[0].len() > 0 { pieces[0] } else { acc }, pieces.drop_first())
    }
}

/// Applies one texture slot description to a slot's texture string.
pub fn compose_slot(acc: String, pieces: &Vec<String>) -> (r: String)
    ensures
        r@ == composed_slot(acc@, pieces.deep_view()),
{
    let ghost pv = pieces.deep_view();
    if pieces.len() == 0 {
        return acc;
    }
    let mut acc = acc;
    if pieces[0].as_str().unicode_len() > 0 {
        acc = owned(pieces[0].as_str());
    }
    let ghost start = acc@;
    let mut i: usize = 1;
    while i < pieces.len()
        invariant
            1 <= i <= pieces@.len(),
            pv == pieces.deep_view(),
            acc@ == overlay_all(start, pv.drop_first().take(i - 1)),
        decreases pieces.len() - i,
    {
        assert(pv.drop_first().take(i as int).drop_last() =~= pv.drop_first().take(i - 1));
        assert(pv.drop_first().take(i as int).last() == pieces@[i as int]@);
        if acc.as_str().unicode_len() == 0 {
            acc = owned(pieces[i].as_str());
        } else {
            push_char(&mut acc, '^');
            push_str(&mut acc, pieces[i].as_str());
        }
        i += 1;
    }
    assert(pv.drop_first().take(i - 1) =~= pv.drop_first());
    acc
}

/// The axis a head turns around in an entity model.
#[derive(Clone, Copy, Debug, PartialEq, Eq, Structural)]
pub enum SwivelAxis {
    Y,
    Z,
}

/// What an entity is drawn as.
#[derive(Clone, Copy, Debug, PartialEq, Eq, Structural)]
pub enum VisualKind {
    /// A plain texture.
    Texture,
    /// Six textures on a cube.
    Block,
    /// A model with texture slots.
    Model,
}

/// The client's name for a visual kind.
pub open spec fn visual_name(v: VisualKind) -> Seq<char> {
    match v {
        VisualKind::Texture => "sprite"@,
        VisualKind::Block => "cube"@,
        VisualKind::Model => "mesh"@,
    }
}

/// The client's name for a visual kind ("sprite", "cube", "mesh").
pub fn visual_str(visual_kind: VisualKind) -> (r: &'static str)
    ensures
        r@ == visual_name(visual_kind),
{
    match visual_kind {
        VisualKind::Texture => "sprite",
        VisualKind::Block => "cube",
        VisualKind::Model => "mesh",
    }
}

/// An entry of the entity data: a base entry for an entity kind, or the
/// changes a variant makes to it. Sizes are carried as given.
#[derive(Clone, Debug)]
pub struct EntityInfo<S> {
    pub visual: Option<VisualKind>,
    pub model: Option<String>,
    /// Texture slots, each a base texture (or "") and overlays.
    pub textures: Option<Vec<Vec<String>>>,
    pub size: Option<S>,
}

/// How the client draws an entity.
#[derive(Clone, Debug)]
pub struct EntityModel<S> {
    pub visual: VisualKind,
    pub mesh: String,
    pub textures: Vec<String>,
    pub size: S,
}

/// The suffixes of the variant entries that apply: "baby" for babies,
/// then the variant name.
pub fn model_suffixes(extra: &ExtraData) -> (r: Vec<String>)
    ensures
        r.deep_view() == (if extra.baby { seq!["baby"@] } else { Seq::empty() }) + match extra.variant {
            Some(v) => seq![v@],
            None => Seq::empty(),
        },
{
    let mut r: Vec<String> = Vec::new();
    if extra.baby {
        r.push(owned("baby"));
    }
    let ghost before = r.deep_view();
    match &extra.variant {
        Some(v) => {
            r.push(owned(v.as_str()));
            assert(r.deep_view() =~= before.push(v@));
        },
        None => {},
    }
    assert(r.deep_view() =~= (if extra.baby { seq!["baby"@] } else { Seq::empty() }) + match extra.variant {
        Some(v) => seq![v@],
        None => Seq::<Seq<char>>::empty(),
    });
    r
}

/// The key of a variant entry: the kind's key, "+", the suffix.
pub fn modifier_key(kind: &str, suffix: &str) -> (r: String)
    ensures
        r@ == kind@ + seq!['+'] + suffix@,
{
    let mut r = owned(kind);
    push_char(&mut r, '+');
    push_str(&mut r, suffix);
    r
}

/// The texture slots after one variant entry's slots are applied: slot
/// `i` composed with the entry's slot `i`; extra entry slots are ignored.
pub open spec fn apply_slots(textures: Seq<Seq<char>>, slots: Seq<Seq<Seq<char>>>) -> Seq<Seq<char>> {
    Seq::new(
        textures.len(),
        |i: int|
            if i < slots.len() {
                composed_slot(textures[i], slots[i])
            } else {
                textures[i]
            },
    )
}

/// The texture slots after the first `n` variant entries.
pub open spec fn textures_after<S>(base: Seq<Seq<char>>, mods: Seq<EntityInfo<S>>, n: nat) -> Seq<Seq<char>>
    decreases n,
{
    if n == 0 {
        base
    } else {
        let t = textures_after(base, mods, (n - 1) as nat);
        match mods[n - 1].textures {
            Some(slots) => apply_slots(t, slots.deep_view()),
            None => t,
        }
    }
}

/// The model after the first `n` variant entries: the last one that sets
/// one wins.
pub open spec fn model_after<S>(base: Seq<char>, mods: Seq<EntityInfo<S>>, n: nat) -> Seq<char>
    decreases n,
{
    if n == 0 {
        base
    } else {
        match mods[n - 1].model {
            Some(m) => m@,
            None => model_after(base, mods, (n - 1) as nat),
        }
    }
}

/// The size after the first `n` variant entries: the last one that sets
/// one wins.
pub open spec fn size_after<S>(base: S, mods: Seq<EntityInfo<S>>, n: nat) -> S
    decreases n,
{
    if n == 0 {
        base
    } else {
        match mods[n - 1].size {
            Some(s) => s,
            None => size_after(base, mods, (n - 1) as nat),
        }
    }
}

fn apply_entry_slots(textures: &mut Vec<String>, slots: &Vec<Vec<String>>)
    ensures
        final(textures).deep_view() == apply_slots(old(textures).deep_view(), slots.deep_view()),
{
    let ghost t0 = textures.deep_view();
    let ghost sv = slots.deep_view();
    let mut i: usize = 0;
    while i < slots.len() && i < textures.len()
        invariant
            i <= slots@.len(),
            sv == slots.deep_view(),
            textures@.len() == t0.len(),
            i <= textures@.len(),
            forall|k: int| 0 <= k < i ==> (#[trigger] textures.deep_view()[k]) == composed_slot(t0[k], sv[k]),
            forall|k: int| i <= k < t0.len() ==> (#[trigger] textures.deep_view()[k]) == t0[k],
        decreases slots.len() - i,
    {
        let ghost before = textures.deep_view();
        let acc = owned(textures[i].as_str());
        assert(textures.deep_view()[i as int] == textures@[i as int]@);
        assert(acc@ == t0[i as int]);
        assert(slots@[i as int].deep_view() == sv[i as int]);
        let c = compose_slot(acc, &slots[i]);
        let ghost cv = c@;
        textures.set(i, c);
        assert(textures.deep_view() =~= before.update(i as int, cv));
        i += 1;
    }
    assert(textures.deep_view() =~= apply_slots(t0, sv));
}

/// A slot description applied to an empty slot.
pub open spec fn fresh_slot() -> spec_fn(Seq<Seq<char>>) -> Seq<char> {
    |p: Seq<Seq<char>>| composed_slot(Seq::empty(), p)
}

/// How the client draws an entity kind, from its base entry and the
/// variant entries that apply, in order. Dropped items are drawn from the
/// item's texture (the variant) alone. `None` where the data is broken:
/// no visual kind, no texture slots, or a model visual without a model.
pub fn get_entity_model<S: Copy>(
    is_item: bool,
    base: &EntityInfo<S>,
    modifiers: &Vec<EntityInfo<S>>,
    item_texture: Option<String>,
    default_size: S,
) -> (r: Option<EntityModel<S>>)
    ensures
        base.visual is None ==> r is None,
        base.visual is Some && is_item ==> (r matches Some(m) && m.visual == base.visual->0 && m.mesh@
            == Seq::<char>::empty() && m.textures.deep_view() == seq![
            match item_texture {
                Some(t) => t@,
                None => Seq::<char>::empty(),
            },
        ] && m.size == match base.size {
            Some(s) => s,
            None => default_size,
        }),
        base.visual is Some && !is_item ==> {
            let n = modifiers@.len();
            let slots = match base.textures {
                Some(ts) => ts.deep_view().map_values(fresh_slot()),
                None => Seq::empty(),
            };
            let model = model_after(
                match base.model {
                    Some(m) => m@,
                    None => Seq::empty(),
                },
                modifiers@,
                n,
            );
            if base.textures is None || (base.visual->0 == VisualKind::Model && model.len() == 0) {
                r is None
            } else {
                r matches Some(m) && m.visual == base.visual->0 && m.textures.deep_view() == textures_after(
                    slots,
                    modifiers@,
                    n,
                ) && m.mesh@ == (if base.visual->0 == VisualKind::Model {
                    model
                } else {
                    Seq::empty()
                }) && m.size == size_after(
                    match base.size {
                        Some(s) => s,
                        None => default_size,
                    },
                    modifiers@,
                    n,
                )
            }
        },
{
    let visual = match base.visual {
        Some(v) => v,
        None => return None,
    };
    let base_size = match base.size {
        Some(s) => s,
        None => default_size,
    };
    if is_item {
        let t = match &item_texture {
            Some(t) => owned(t.as_str()),
            None => String::new(),
        };
        let mut textures: Vec<String> = Vec::new();
        textures.push(t);
        assert(textures.deep_view() =~= seq![
            match item_texture {
                Some(t) => t@,
                None => Seq::<char>::empty(),
            },
        ]);
        return Some(EntityModel { visual, mesh: String::new(), textures, size: base_size });
    }
    let base_slots = match &base.textures {
        Some(ts) => ts,
        None => return None,
    };
    let ghost bsv = base_slots.deep_view();
    let mut textures: Vec<String> = Vec::new();
    let mut j: usize = 0;
    while j < base_slots.len()
        invariant
            j <= base_slots@.len(),
            bsv == base_slots.deep_view(),
            textures.deep_view() == bsv.take(j as int).map_values(
                fresh_slot(),
            ),
        decreases base_slots.len() - j,
    {
        let ghost before = textures.deep_view();
        let c = compose_slot(String::new(), &base_slots[j]);
        assert(base_slots@[j as int].deep_view() == bsv[j as int]);
        assert(c@ == fresh_slot()(bsv[j as int]));
        textures.push(c);
        assert(bsv.take(j + 1) =~= bsv.take(j as int).push(bsv[j as int]));
        assert(textures.deep_view() =~= before.push(fresh_slot()(bsv[j as int])));
        j += 1;
        assert(textures.deep_view() =~= bsv.take(j as int).map_values(
            fresh_slot(),
        ));
    }
    assert(bsv.take(j as int) =~= bsv);
    let ghost slots0 = textures.deep_view();
    let mut model = match &base.model {
        Some(m) => owned(m.as_str()),
        None => String::new(),
    };
    let ghost model0 = model@;
    let mut size = base_size;
    let mut k: usize = 0;
    while k < modifiers.len()
        invariant
            k <= modifiers@.len(),
            textures.deep_view() == textures_after(slots0, modifiers@, k as nat),
            model@ == model_after(model0, modifiers@, k as nat),
            size == size_after(base_size, modifiers@, k as nat),
        decreases modifiers.len() - k,
    {
        let m = &modifiers[k];
        if let Some(mm) = &m.model {
            model = owned(mm.as_str());
        }
        if let Some(s) = m.size {
            size = s;
        }
        if let Some(slots) = &m.textures {
            apply_entry_slots(&mut textures, slots);
        }
        k += 1;
    }
    if visual == VisualKind::Model {
        if model.as_str().unicode_len() == 0 {
            return None;
        }
        Some(EntityModel { visual, mesh: model, textures, size })
    } else {
        Some(EntityModel { visual, mesh: String::new(), textures, size })
    }
}

} // verus!
