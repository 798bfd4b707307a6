//! Node definitions: what the client is told about each block kind,
//! decided from the block's registry name and its draw type.
use vstd::prelude::*;
use crate::text::str_eq;

verus! {

/// How the client draws a node.
#[derive(Clone, Copy, PartialEq, Eq, Debug, Structural)]
pub enum NodeDrawType {
    Normal,
    AirLike,
    Liquid,
    FlowingLiquid,
    GlassLike,
    GlassLikeFramed,
    GlassLikeFramedOptional,
    AllFaces,
    AllFacesOptional,
    TorchLike,
    SignLike,
    PlantLike,
    FenceLike,
    RailLike,
    NodeBox,
    Mesh,
    FireLike,
    PlantLikeRooted,
}

/// How the client blends a node's textures.
#[derive(Clone, Copy, PartialEq, Eq, Debug, Structural)]
pub enum AlphaMode {
    Blend,
    Clip,
    Opaque,
    LegacyCompat,
}

/// Blocks that react to a right click (open a screen or change state).
pub open spec fn is_interactive(name: Seq<char>) -> bool {
    name == "minecraft:chest"@
        || name == "minecraft:ender_chest"@
        || name == "minecraft:enchanting_table"@
        || name == "minecraft:anvil"@
        || name == "minecraft:grindstone"@
        || name == "minecraft:crafting_table"@
        || name == "minecraft:lever"@
        || name == "minecraft:comparator"@
        || name == "minecraft:repeater"@
        || name == "minecraft:redstone_ore"@
        || name == "minecraft:redstone_wire"@
        || name == "minecraft:oak_button"@
        || name == "minecraft:spruce_button"@
        || name == "minecraft:birch_button"@
        || name == "minecraft:jungle_button"@
        || name == "minecraft:acacia_button"@
        || name == "minecraft:dark_oak_button"@
        || name == "minecraft:mangrove_button"@
        || name == "minecraft:cherry_button"@
        || name == "minecraft:bamboo_button"@
        || name == "minecraft:crimson_button"@
        || name == "minecraft:warped_button"@
        || name == "minecraft:white_bed"@
        || name == "minecraft:light_gray_bed"@
        || name == "minecraft:gray_bed"@
        || name == "minecraft:black_bed"@
        || name == "minecraft:brown_bed"@
        || name == "minecraft:red_bed"@
        || name == "minecraft:orange_bed"@
        || name == "minecraft:yellow_bed"@
        || name == "minecraft:lime_bed"@
        || name == "minecraft:cyan_bed"@
        || name == "minecraft:light_blue_bed"@
        || name == "minecraft:blue_bed"@
        || name == "minecraft:purple_bed"@
        || name == "minecraft:magenta_bed"@
        || name == "minecraft:pink_bed"@
        || name == "minecraft:campfire"@
        || name == "minecraft:soul_campfire"@
        || name == "minecraft:cauldron"@
        || name == "minecraft:cake"@
        || name == "minecraft:candle_cake"@
        || name == "minecraft:red_candle_cake"@
        || name == "minecraft:blue_candle_cake"@
        || name == "minecraft:cyan_candle_cake"@
        || name == "minecraft:gray_candle_cake"@
        || name == "minecraft:lime_candle_cake"@
        || name == "minecraft:pink_candle_cake"@
        || name == "minecraft:black_candle_cake"@
        || name == "minecraft:brown_candle_cake"@
}

/// Blocks whose textures are animated in vertical frames.
pub open spec fn is_animated(name: Seq<char>) -> bool {
    name == "minecraft:water"@
        || name == "minecraft:lava"@
        || name == "minecraft:seagrass"@
        || name == "minecraft:tall_seagrass"@
        || name == "minecraft:nether_portal"@
        || name == "minecraft:end_portal"@
        || name == "minecraft:magma_block"@
}

/// Leaves, which wave in the wind.
pub open spec fn is_leaves(name: Seq<char>) -> bool {
    name == "minecraft:oak_leaves"@
        || name == "minecraft:spruce_leaves"@
        || name == "minecraft:birch_leaves"@
        || name == "minecraft:jungle_leaves"@
        || name == "minecraft:acacia_leaves"@
        || name == "minecraft:cherry_leaves"@
        || name == "minecraft:dark_oak_leaves"@
        || name == "minecraft:pale_oak_leaves"@
        || name == "minecraft:mangrove_leaves"@
        || name == "minecraft:azalea_leaves"@
        || name == "minecraft:flowering_azalea_leaves"@
}

/// Light a block emits (its brightest state).
pub open spec fn light_source_of(name: Seq<char>) -> u8 {
    if name == "minecraft:beacon"@
        || name == "minecraft:conduit"@
        || name == "minecraft:end_gateway"@
        || name == "minecraft:end_portal"@
        || name == "minecraft:fire"@
        || name == "minecraft:sea_pickle"@
        || name == "minecraft:ochre_froglight"@
        || name == "minecraft:verdant_froglight"@
        || name == "minecraft:pearlescent_froglight"@
        || name == "minecraft:glowstone"@
        || name == "minecraft:jack_o_lantern"@
        || name == "minecraft:lantern"@
        || name == "minecraft:lava"@
        || name == "minecraft:lava_cauldron"@
        || name == "minecraft:campfire"@
        || name == "minecraft:redstone_lamp"@
        || name == "minecraft:respawn_anchor"@
        || name == "minecraft:sea_lantern"@
        || name == "minecraft:shroomlight"@ {
        15
    } else if name == "minecraft:end_rod"@
        || name == "minecraft:torch"@ {
        14
    } else if name == "minecraft:blast_furnace"@
        || name == "minecraft:furnace"@
        || name == "minecraft:smoker"@ {
        13
    } else if name == "minecraft:candle"@ {
        12
    } else if name == "minecraft:nether_portal"@ {
        11
    } else if name == "minecraft:crying_obsidian"@
        || name == "minecraft:soul_campfire"@
        || name == "minecraft:soul_fire"@
        || name == "minecraft:soul_lantern"@
        || name == "minecraft:soul_torch"@ {
        10
    } else if name == "minecraft:enchanting_table"@
        || name == "minecraft:ender_chest"@
        || name == "minecraft:glow_lichen"@ {
        7
    } else if name == "minecraft:sculk_catalyst"@ {
        6
    } else if name == "minecraft:amethyst_cluster"@ {
        5
    } else if name == "minecraft:large_amethyst_bud"@ {
        4
    } else if name == "minecraft:magma_block"@ {
        3
    } else if name == "minecraft:medium_amethyst_bud"@ {
        2
    } else {
        0
    }
}

/// Whether the block reacts to a right click.
pub fn interactive_block(name: &str) -> (r: bool)
    ensures
        r == is_interactive(name@),
{
    str_eq(name, "minecraft:chest")
        || str_eq(name, "minecraft:ender_chest")
        || str_eq(name, "minecraft:enchanting_table")
        || str_eq(name, "minecraft:anvil")
        || str_eq(name, "minecraft:grindstone")
        || str_eq(name, "minecraft:crafting_table")
        || str_eq(name, "minecraft:lever")
        || str_eq(name, "minecraft:comparator")
        || str_eq(name, "minecraft:repeater")
        || str_eq(name, "minecraft:redstone_ore")
        || str_eq(name, "minecraft:redstone_wire")
        || str_eq(name, "minecraft:oak_button")
        || str_eq(name, "minecraft:spruce_button")
        || str_eq(name, "minecraft:birch_button")
        || str_eq(name, "minecraft:jungle_button")
        || str_eq(name, "minecraft:acacia_button")
        || str_eq(name, "minecraft:dark_oak_button")
        || str_eq(name, "minecraft:mangrove_button")
        || str_eq(name, "minecraft:cherry_button")
        || str_eq(name, "minecraft:bamboo_button")
        || str_eq(name, "minecraft:crimson_button")
        || str_eq(name, "minecraft:warped_button")
        || str_eq(name, "minecraft:white_bed")
        || str_eq(name, "minecraft:light_gray_bed")
        || str_eq(name, "minecraft:gray_bed")
        || str_eq(name, "minecraft:black_bed")
        || str_eq(name, "minecraft:brown_bed")
        || str_eq(name, "minecraft:red_bed")
        || str_eq(name, "minecraft:orange_bed")
        || str_eq(name, "minecraft:yellow_bed")
        || str_eq(name, "minecraft:lime_bed")
        || str_eq(name, "minecraft:cyan_bed")
        || str_eq(name, "minecraft:light_blue_bed")
        || str_eq(name, "minecraft:blue_bed")
        || str_eq(name, "minecraft:purple_bed")
        || str_eq(name, "minecraft:magenta_bed")
        || str_eq(name, "minecraft:pink_bed")
        || str_eq(name, "minecraft:campfire")
        || str_eq(name, "minecraft:soul_campfire")
        || str_eq(name, "minecraft:cauldron")
        || str_eq(name, "minecraft:cake")
        || str_eq(name, "minecraft:candle_cake")
        || str_eq(name, "minecraft:red_candle_cake")
        || str_eq(name, "minecraft:blue_candle_cake")
        || str_eq(name, "minecraft:cyan_candle_cake")
        || str_eq(name, "minecraft:gray_candle_cake")
        || str_eq(name, "minecraft:lime_candle_cake")
        || str_eq(name, "minecraft:pink_candle_cake")
        || str_eq(name, "minecraft:black_candle_cake")
        || str_eq(name, "minecraft:brown_candle_cake")
}

/// Whether the block's textures are animated.
pub fn animated_block(name: &str) -> (r: bool)
    ensures
        r == is_animated(name@),
{
    str_eq(name, "minecraft:water")
        || str_eq(name, "minecraft:lava")
        || str_eq(name, "minecraft:seagrass")
        || str_eq(name, "minecraft:tall_seagrass")
        || str_eq(name, "minecraft:nether_portal")
        || str_eq(name, "minecraft:end_portal")
        || str_eq(name, "minecraft:magma_block")
}

/// Whether the block is a kind of leaves.
pub fn leaves_block(name: &str) -> (r: bool)
    ensures
        r == is_leaves(name@),
{
    str_eq(name, "minecraft:oak_leaves")
        || str_eq(name, "minecraft:spruce_leaves")
        || str_eq(name, "minecraft:birch_leaves")
        || str_eq(name, "minecraft:jungle_leaves")
        || str_eq(name, "minecraft:acacia_leaves")
        || str_eq(name, "minecraft:cherry_leaves")
        || str_eq(name, "minecraft:dark_oak_leaves")
        || str_eq(name, "minecraft:pale_oak_leaves")
        || str_eq(name, "minecraft:mangrove_leaves")
        || str_eq(name, "minecraft:azalea_leaves")
        || str_eq(name, "minecraft:flowering_azalea_leaves")
}

/// The light level a block emits.
pub fn block_light_source(name: &str) -> (r: u8)
    ensures
        r == light_source_of(name@),
{
    if str_eq(name, "minecraft:beacon")
        || str_eq(name, "minecraft:conduit")
        || str_eq(name, "minecraft:end_gateway")
        || str_eq(name, "minecraft:end_portal")
        || str_eq(name, "minecraft:fire")
        || str_eq(name, "minecraft:sea_pickle")
        || str_eq(name, "minecraft:ochre_froglight")
        || str_eq(name, "minecraft:verdant_froglight")
        || str_eq(name, "minecraft:pearlescent_froglight")
        || str_eq(name, "minecraft:glowstone")
        || str_eq(name, "minecraft:jack_o_lantern")
        || str_eq(name, "minecraft:lantern")
        || str_eq(name, "minecraft:lava")
        || str_eq(name, "minecraft:lava_cauldron")
        || str_eq(name, "minecraft:campfire")
        || str_eq(name, "minecraft:redstone_lamp")
        || str_eq(name, "minecraft:respawn_anchor")
        || str_eq(name, "minecraft:sea_lantern")
        || str_eq(name, "minecraft:shroomlight") {
        return 15;
    }
    if str_eq(name, "minecraft:end_rod")
        || str_eq(name, "minecraft:torch") {
        return 14;
    }
    if str_eq(name, "minecraft:blast_furnace")
        || str_eq(name, "minecraft:furnace")
        || str_eq(name, "minecraft:smoker") {
        return 13;
    }
    if str_eq(name, "minecraft:candle") {
        return 12;
    }
    if str_eq(name, "minecraft:nether_portal") {
        return 11;
    }
    if str_eq(name, "minecraft:crying_obsidian")
        || str_eq(name, "minecraft:soul_campfire")
        || str_eq(name, "minecraft:soul_fire")
        || str_eq(name, "minecraft:soul_lantern")
        || str_eq(name, "minecraft:soul_torch") {
        return 10;
    }
    if str_eq(name, "minecraft:enchanting_table")
        || str_eq(name, "minecraft:ender_chest")
        || str_eq(name, "minecraft:glow_lichen") {
        return 7;
    }
    if str_eq(name, "minecraft:sculk_catalyst") {
        return 6;
    }
    if str_eq(name, "minecraft:amethyst_cluster") {
        return 5;
    }
    if str_eq(name, "minecraft:large_amethyst_bud") {
        return 4;
    }
    if str_eq(name, "minecraft:magma_block") {
        return 3;
    }
    if str_eq(name, "minecraft:medium_amethyst_bud") {
        return 2;
    }
    0
}

} // verus!

verus! {

/// What the client is told about a node kind, beyond its textures.
#[derive(Clone, Copy, PartialEq, Eq, Debug, Structural)]
pub struct NodeFeatures {
    pub drawtype: NodeDrawType,
    /// Textures animate in vertical frames of the texture pack's size.
    pub animated: bool,
    pub liquid_range: u8,
    pub liquid_viscosity: u8,
    pub liquid_renewable: bool,
    pub rightclickable: bool,
    pub light_source: u8,
    pub sunlight_propagates: bool,
    pub light_propagates: bool,
    pub waving: u8,
    pub walkable: bool,
    pub pointable: bool,
    pub diggable: bool,
    pub buildable_to: bool,
    /// Drawn at the node-box scale factor rather than 1.
    pub nodebox_scaled: bool,
    pub alpha: AlphaMode,
    pub liquid_move_physics: bool,
    /// Faces are culled from behind (all but plant-like nodes).
    pub backface_culling: bool,
}

/// Light passes through nodes drawn like this.
pub open spec fn lets_light_through(d: NodeDrawType) -> bool {
    d == NodeDrawType::AirLike || d == NodeDrawType::PlantLike || d == NodeDrawType::PlantLikeRooted
        || d == NodeDrawType::GlassLike || d == NodeDrawType::Liquid
}

/// The features of a node kind, from its registry name and draw type.
pub open spec fn spec_node_features(name: Seq<char>, d: NodeDrawType) -> NodeFeatures {
    let water = name == "minecraft:water"@;
    let lava = name == "minecraft:lava"@;
    let pointable = d != NodeDrawType::AirLike && d != NodeDrawType::Liquid;
    NodeFeatures {
        drawtype: d,
        animated: is_animated(name),
        liquid_range: if water { 7 } else if lava { 4 } else { 0 },
        liquid_viscosity: if lava { 1 } else { 0 },
        liquid_renewable: !lava,
        rightclickable: is_interactive(name),
        light_source: light_source_of(name),
        sunlight_propagates: lets_light_through(d),
        light_propagates: lets_light_through(d),
        waving: if is_leaves(name) || d == NodeDrawType::PlantLike { 100 } else { 0 },
        walkable: d == NodeDrawType::GlassLike || d == NodeDrawType::NodeBox || d == NodeDrawType::Normal,
        pointable,
        diggable: name != "minecraft:bedrock"@ && d != NodeDrawType::Liquid && d != NodeDrawType::AirLike,
        buildable_to: pointable && !is_interactive(name),
        nodebox_scaled: d == NodeDrawType::NodeBox,
        alpha: if d == NodeDrawType::PlantLike || d == NodeDrawType::PlantLikeRooted {
            AlphaMode::Blend
        } else if d == NodeDrawType::Liquid || d == NodeDrawType::FlowingLiquid {
            AlphaMode::LegacyCompat
        } else {
            AlphaMode::Opaque
        },
        liquid_move_physics: d == NodeDrawType::Liquid,
        backface_culling: d != NodeDrawType::PlantLike,
    }
}

/// Decides the features of the node kind `name` drawn as `drawtype`:
/// liquids flow (water 7, lava 4 and viscous), light passes through air,
/// plants, glass and liquids, leaves and plants wave, solid shapes are
/// walkable, and anything pointable that has no right-click use can be
/// built over.
pub fn node_features(name: &str, drawtype: NodeDrawType) -> (r: NodeFeatures)
    ensures
        r == spec_node_features(name@, drawtype),
{
    let water = str_eq(name, "minecraft:water");
    let lava = str_eq(name, "minecraft:lava");
    let rightclickable = interactive_block(name);
    let light_through = match drawtype {
        NodeDrawType::AirLike | NodeDrawType::PlantLike | NodeDrawType::PlantLikeRooted
        | NodeDrawType::GlassLike | NodeDrawType::Liquid => true,
        _ => false,
    };
    let pointable = drawtype != NodeDrawType::AirLike && drawtype != NodeDrawType::Liquid;
    NodeFeatures {
        drawtype,
        animated: animated_block(name),
        liquid_range: if water { 7 } else if lava { 4 } else { 0 },
        liquid_viscosity: if lava { 1 } else { 0 },
        liquid_renewable: !lava,
        rightclickable,
        light_source: block_light_source(name),
        sunlight_propagates: light_through,
        light_propagates: light_through,
        waving: if leaves_block(name) || drawtype == NodeDrawType::PlantLike { 100 } else { 0 },
        walkable: matches!(drawtype, NodeDrawType::GlassLike | NodeDrawType::NodeBox | NodeDrawType::Normal),
        pointable,
        diggable: !str_eq(name, "minecraft:bedrock") && drawtype != NodeDrawType::Liquid
            && drawtype != NodeDrawType::AirLike,
        buildable_to: pointable && !rightclickable,
        nodebox_scaled: drawtype == NodeDrawType::NodeBox,
        alpha: match drawtype {
            NodeDrawType::PlantLike | NodeDrawType::PlantLikeRooted => AlphaMode::Blend,
            NodeDrawType::Liquid | NodeDrawType::FlowingLiquid => AlphaMode::LegacyCompat,
            _ => AlphaMode::Opaque,
        },
        liquid_move_physics: drawtype == NodeDrawType::Liquid,
        backface_culling: drawtype != NodeDrawType::PlantLike,
    }
}

/// How solid a node is follows from its shape: it can be stood on exactly
/// when it is a full cube (solid or glass) or a node box; whatever can be
/// stood on can also be pointed at, dug (bedrock aside) and is no liquid;
/// liquids and air can be neither stood on, pointed at nor dug; and light
/// passes through a node for the sun exactly when it does for lamps.
pub proof fn law_solid_shapes_are_walkable(name: Seq<char>, d: NodeDrawType)
    ensures
        ({
            let f = spec_node_features(name, d);
            &&& f.walkable <==> (d == NodeDrawType::Normal || d == NodeDrawType::GlassLike || d
                == NodeDrawType::NodeBox)
            &&& f.walkable ==> f.pointable && !f.liquid_move_physics && (f.diggable || name
                == "minecraft:bedrock"@)
            &&& (d == NodeDrawType::Liquid || d == NodeDrawType::AirLike) ==> !f.walkable && !f.pointable
                && !f.diggable
            &&& f.sunlight_propagates == f.light_propagates
            &&& f.drawtype == d
        }),
{
}

/// Kinds of item definitions.
#[derive(Clone, Copy, PartialEq, Eq, Debug, Structural)]
pub enum ItemKind {
    Craft,
    Tool,
    Node,
}

/// The kind of an item: a tool if it wears out, else a node if a block of
/// the same name exists, else a craft item.
pub fn item_kind(has_durability: bool, placeable: bool) -> (r: ItemKind)
    ensures
        r == (if has_durability {
            ItemKind::Tool
        } else if placeable {
            ItemKind::Node
        } else {
            ItemKind::Craft
        }),
{
    if has_durability {
        ItemKind::Tool
    } else if placeable {
        ItemKind::Node
    } else {
        ItemKind::Craft
    }
}

/// Whether right-clicking with the item does something (placing it, using
/// a tool or eating it).
pub fn item_usable(kind: ItemKind, edible: bool) -> (r: bool)
    ensures
        r == (kind == ItemKind::Node || kind == ItemKind::Tool || edible),
{
    kind == ItemKind::Node || kind == ItemKind::Tool || edible
}

/// Whether an item id is in a list of ids.
pub fn contains_id(ids: &Vec<u32>, id: u32) -> (r: bool)
    ensures
        r == ids@.contains(id),
{
    let mut i: usize = 0;
    while i < ids.len()
        invariant
            i <= ids@.len(),
            forall|k: int| 0 <= k < i ==> ids@[k] != id,
        decreases ids.len() - i,
    {
        if ids[i] == id {
            return true;
        }
        i += 1;
    }
    false
}

} // verus!

verus! {

/// What an item definition says beyond its images.
#[derive(Clone, Copy, PartialEq, Eq, Debug, Structural)]
pub struct ItemTraits {
    pub kind: ItemKind,
    pub usable: bool,
    /// Placeable items are in the building-block group.
    pub building_block: bool,
    pub stack_max: i16,
}

/// The item definition traits of an item from its stack size, whether it
/// wears out, whether a block of its name exists and whether it is food.
pub fn item_traits(stack_size: u32, has_durability: bool, placeable: bool, edible: bool) -> (r: ItemTraits)
    ensures
        r.kind == (if has_durability {
            ItemKind::Tool
        } else if placeable {
            ItemKind::Node
        } else {
            ItemKind::Craft
        }),
        r.usable == (r.kind == ItemKind::Node || r.kind == ItemKind::Tool || edible),
        r.building_block == (r.kind == ItemKind::Node),
        r.stack_max == stack_size as i16,
{
    let kind = item_kind(has_durability, placeable);
    ItemTraits {
        kind,
        usable: item_usable(kind, edible),
        building_block: kind == ItemKind::Node,
        stack_max: stack_size as i16,
    }
}

} // verus!
