//! Particles: which texture a server particle is drawn with, and the
//! particle spawners kept running on blocks such as torches and fire.
use vstd::prelude::*;
use std::collections::HashMap;
use crate::text::str_eq;

verus! {

broadcast use vstd::std_specs::hash::group_hash_axioms;

/// The texture a particle type (by registry path, "angry_villager") is
/// drawn with; `None` for a type this proxy does not know.
pub open spec fn particle_texture_of(name: Seq<char>) -> Option<Seq<char>> {
    if name == "angry_villager"@ {
        Some("particle-angry.png"@)
    } else if name == "block"@ || name == "block_marker"@ || name == "falling_dust"@ || name == "dust_plume"@ || name == "dust_pillar"@ || name == "block_crumble"@ || name == "item"@ || name == "item_slime"@ || name == "item_cobweb"@ || name == "item_snowball"@ {
        Some("particle-generic_7.png"@)
    } else if name == "bubble"@ || name == "current_down"@ || name == "bubble_column_up"@ {
        Some("particle-bubble.png"@)
    } else if name == "sulfur_bubbles"@ {
        Some("particle-bubble_white.png"@)
    } else if name == "noxious_gas"@ || name == "noxious_gas_cloud"@ {
        Some("particle-noxious_gas_01.png"@)
    } else if name == "geyser"@ || name == "geyser_plume"@ {
        Some("particle-geyser_plume_01.png"@)
    } else if name == "geyser_base"@ {
        Some("particle-geyser_base_01.png"@)
    } else if name == "geyser_poof"@ {
        Some("particle-geyser_poof_01.png"@)
    } else if name == "cloud"@ {
        Some("particle-generic_7.png"@)
    } else if name == "copper_fire_flame"@ {
        Some("particle-copper_fire_flame.png"@)
    } else if name == "crit"@ {
        Some("particle-critical_hit.png"@)
    } else if name == "damage_indicator"@ {
        Some("particle-damage.png"@)
    } else if name == "dragon_breath"@ {
        Some("particle-generic_5.png"@)
    } else if name == "dripping_lava"@ || name == "dripping_water"@ || name == "dripping_honey"@ || name == "dripping_obsidian_tear"@ || name == "dripping_dripstone_lava"@ || name == "dripping_dripstone_water"@ {
        Some("particle-drip_hang.png"@)
    } else if name == "falling_lava"@ || name == "falling_honey"@ || name == "falling_nectar"@ || name == "falling_obsidian_tear"@ || name == "falling_spore_blossom"@ || name == "spore_blossom_air"@ || name == "falling_dripstone_lava"@ || name == "falling_dripstone_water"@ {
        Some("particle-drip_fall.png"@)
    } else if name == "landing_lava"@ || name == "landing_honey"@ || name == "landing_obsidian_tear"@ {
        Some("particle-drip_land.png"@)
    } else if name == "falling_water"@ {
        Some("particle-drip_fall.png"@)
    } else if name == "dust"@ || name == "dust_color_transition"@ {
        Some("particle-generic_7.png"@)
    } else if name == "effect"@ || name == "entity_effect"@ {
        Some("particle-effect_7.png"@)
    } else if name == "elder_guardian"@ {
        Some("particle-generic_0.png"@)
    } else if name == "enchanted_hit"@ {
        Some("particle-enchanted_hit.png"@)
    } else if name == "enchant"@ {
        Some("particle-sga_a.png"@)
    } else if name == "end_rod"@ || name == "totem_of_undying"@ {
        Some("particle-glitter_7.png"@)
    } else if name == "explosion_emitter"@ || name == "explosion"@ {
        Some("particle-explosion_0.png"@)
    } else if name == "gust"@ || name == "gust_emitter_large"@ {
        Some("particle-gust_0.png"@)
    } else if name == "small_gust"@ || name == "gust_emitter_small"@ {
        Some("particle-small_gust_0.png"@)
    } else if name == "sonic_boom"@ {
        Some("particle-sonic_boom_0.png"@)
    } else if name == "firework"@ {
        Some("particle-spark_7.png"@)
    } else if name == "fishing"@ || name == "rain"@ || name == "splash"@ {
        Some("particle-splash_0.png"@)
    } else if name == "flame"@ || name == "small_flame"@ {
        Some("particle-flame.png"@)
    } else if name == "infested"@ {
        Some("particle-infested.png"@)
    } else if name == "cherry_leaves"@ {
        Some("particle-cherry_0.png"@)
    } else if name == "pale_oak_leaves"@ {
        Some("particle-pale_oak_0.png"@)
    } else if name == "tinted_leaves"@ {
        Some("particle-leaf_0.png"@)
    } else if name == "sculk_soul"@ {
        Some("particle-sculk_soul_0.png"@)
    } else if name == "sculk_charge"@ {
        Some("particle-sculk_charge_0.png"@)
    } else if name == "sculk_charge_pop"@ {
        Some("particle-sculk_charge_pop_0.png"@)
    } else if name == "soul_fire_flame"@ {
        Some("particle-soul_fire_flame.png"@)
    } else if name == "soul"@ {
        Some("particle-soul_0.png"@)
    } else if name == "flash"@ {
        Some("particle-flash.png"@)
    } else if name == "happy_villager"@ || name == "composter"@ || name == "egg_crack"@ || name == "pause_mob_growth"@ || name == "reset_mob_growth"@ {
        Some("particle-glint.png"@)
    } else if name == "heart"@ {
        Some("particle-heart.png"@)
    } else if name == "instant_effect"@ || name == "witch"@ {
        Some("particle-spell_7.png"@)
    } else if name == "vibration"@ {
        Some("particle-vibration.png"@)
    } else if name == "trail"@ || name == "portal"@ || name == "reverse_portal"@ {
        Some("particle-generic_0.png"@)
    } else if name == "large_smoke"@ || name == "smoke"@ || name == "white_smoke"@ || name == "sneeze"@ || name == "snowflake"@ || name == "squid_ink"@ || name == "glow_squid_ink"@ {
        Some("particle-generic_7.png"@)
    } else if name == "lava"@ {
        Some("particle-lava.png"@)
    } else if name == "mycelium"@ || name == "dolphin"@ || name == "crimson_spore"@ || name == "warped_spore"@ || name == "white_ash"@ || name == "underwater"@ {
        Some("particle-generic_0.png"@)
    } else if name == "ash"@ {
        Some("particle-generic_0.png"@)
    } else if name == "note"@ {
        Some("particle-note.png"@)
    } else if name == "poof"@ {
        Some("particle-generic_7.png"@)
    } else if name == "bubble_pop"@ {
        Some("particle-bubble_pop_0.png"@)
    } else if name == "nautilus"@ {
        Some("particle-nautilus.png"@)
    } else if name == "campfire_cosy_smoke"@ || name == "campfire_signal_smoke"@ {
        Some("particle-big_smoke_0.png"@)
    } else if name == "spit"@ {
        Some("particle-generic_7.png"@)
    } else if name == "sweep_attack"@ {
        Some("particle-sweep_0.png"@)
    } else if name == "glow"@ || name == "wax_on"@ || name == "wax_off"@ || name == "electric_spark"@ || name == "scrape"@ {
        Some("particle-glow.png"@)
    } else if name == "shriek"@ {
        Some("particle-shriek.png"@)
    } else if name == "trial_spawner_detection"@ {
        Some("particle-trial_spawner_detection_0.png"@)
    } else if name == "trial_spawner_detection_ominous"@ {
        Some("particle-trial_spawner_detection_ominous_0.png"@)
    } else if name == "vault_connection"@ {
        Some("particle-vault_connection.png"@)
    } else if name == "ominous_spawning"@ {
        Some("particle-ominous_spawning.png"@)
    } else if name == "raid_omen"@ {
        Some("particle-raid_omen.png"@)
    } else if name == "trial_omen"@ {
        Some("particle-trial_omen.png"@)
    } else if name == "firefly"@ {
        Some("particle-firefly.png"@)
    } else if name == "sulfur_cube_goo"@ {
        Some("particle-sulfur_cube_goo.png"@)
    } else {
        None
    }
}

/// The texture of a particle type (see `particle_texture_of`). Particles
/// are drawn at size 1.
pub fn particle_texture(name: &str) -> (r: Option<&'static str>)
    ensures
        match particle_texture_of(name@) {
            Some(t) => r matches Some(x) && x@ == t,
            None => r is None,
        },
{
    if str_eq(name, "angry_villager") {
        return Some("particle-angry.png");
    }
    if str_eq(name, "block") || str_eq(name, "block_marker") || str_eq(name, "falling_dust") || str_eq(name, "dust_plume") || str_eq(name, "dust_pillar") || str_eq(name, "block_crumble") || str_eq(name, "item") || str_eq(name, "item_slime") || str_eq(name, "item_cobweb") || str_eq(name, "item_snowball") {
        return Some("particle-generic_7.png");
    }
    if str_eq(name, "bubble") || str_eq(name, "current_down") || str_eq(name, "bubble_column_up") {
        return Some("particle-bubble.png");
    }
    if str_eq(name, "sulfur_bubbles") {
        return Some("particle-bubble_white.png");
    }
    if str_eq(name, "noxious_gas") || str_eq(name, "noxious_gas_cloud") {
        return Some("particle-noxious_gas_01.png");
    }
    if str_eq(name, "geyser") || str_eq(name, "geyser_plume") {
        return Some("particle-geyser_plume_01.png");
    }
    if str_eq(name, "geyser_base") {
        return Some("particle-geyser_base_01.png");
    }
    if str_eq(name, "geyser_poof") {
        return Some("particle-geyser_poof_01.png");
    }
    if str_eq(name, "cloud") {
        return Some("particle-generic_7.png");
    }
    if str_eq(name, "copper_fire_flame") {
        return Some("particle-copper_fire_flame.png");
    }
    if str_eq(name, "crit") {
        return Some("particle-critical_hit.png");
    }
    if str_eq(name, "damage_indicator") {
        return Some("particle-damage.png");
    }
    if str_eq(name, "dragon_breath") {
        return Some("particle-generic_5.png");
    }
    if str_eq(name, "dripping_lava") || str_eq(name, "dripping_water") || str_eq(name, "dripping_honey") || str_eq(name, "dripping_obsidian_tear") || str_eq(name, "dripping_dripstone_lava") || str_eq(name, "dripping_dripstone_water") {
        return Some("particle-drip_hang.png");
    }
    if str_eq(name, "falling_lava") || str_eq(name, "falling_honey") || str_eq(name, "falling_nectar") || str_eq(name, "falling_obsidian_tear") || str_eq(name, "falling_spore_blossom") || str_eq(name, "spore_blossom_air") || str_eq(name, "falling_dripstone_lava") || str_eq(name, "falling_dripstone_water") {
        return Some("particle-drip_fall.png");
    }
    if str_eq(name, "landing_lava") || str_eq(name, "landing_honey") || str_eq(name, "landing_obsidian_tear") {
        return Some("particle-drip_land.png");
    }
    if str_eq(name, "falling_water") {
        return Some("particle-drip_fall.png");
    }
    if str_eq(name, "dust") || str_eq(name, "dust_color_transition") {
        return Some("particle-generic_7.png");
    }
    if str_eq(name, "effect") || str_eq(name, "entity_effect") {
        return Some("particle-effect_7.png");
    }
    if str_eq(name, "elder_guardian") {
        return Some("particle-generic_0.png");
    }
    if str_eq(name, "enchanted_hit") {
        return Some("particle-enchanted_hit.png");
    }
    if str_eq(name, "enchant") {
        return Some("particle-sga_a.png");
    }
    if str_eq(name, "end_rod") || str_eq(name, "totem_of_undying") {
        return Some("particle-glitter_7.png");
    }
    if str_eq(name, "explosion_emitter") || str_eq(name, "explosion") {
        return Some("particle-explosion_0.png");
    }
    if str_eq(name, "gust") || str_eq(name, "gust_emitter_large") {
        return Some("particle-gust_0.png");
    }
    if str_eq(name, "small_gust") || str_eq(name, "gust_emitter_small") {
        return Some("particle-small_gust_0.png");
    }
    if str_eq(name, "sonic_boom") {
        return Some("particle-sonic_boom_0.png");
    }
    if str_eq(name, "firework") {
        return Some("particle-spark_7.png");
    }
    if str_eq(name, "fishing") || str_eq(name, "rain") || str_eq(name, "splash") {
        return Some("particle-splash_0.png");
    }
    if str_eq(name, "flame") || str_eq(name, "small_flame") {
        return Some("particle-flame.png");
    }
    if str_eq(name, "infested") {
        return Some("particle-infested.png");
    }
    if str_eq(name, "cherry_leaves") {
        return Some("particle-cherry_0.png");
    }
    if str_eq(name, "pale_oak_leaves") {
        return Some("particle-pale_oak_0.png");
    }
    if str_eq(name, "tinted_leaves") {
        return Some("particle-leaf_0.png");
    }
    if str_eq(name, "sculk_soul") {
        return Some("particle-sculk_soul_0.png");
    }
    if str_eq(name, "sculk_charge") {
        return Some("particle-sculk_charge_0.png");
    }
    if str_eq(name, "sculk_charge_pop") {
        return Some("particle-sculk_charge_pop_0.png");
    }
    if str_eq(name, "soul_fire_flame") {
        return Some("particle-soul_fire_flame.png");
    }
    if str_eq(name, "soul") {
        return Some("particle-soul_0.png");
    }
    if str_eq(name, "flash") {
        return Some("particle-flash.png");
    }
    if str_eq(name, "happy_villager") || str_eq(name, "composter") || str_eq(name, "egg_crack") || str_eq(name, "pause_mob_growth") || str_eq(name, "reset_mob_growth") {
        return Some("particle-glint.png");
    }
    if str_eq(name, "heart") {
        return Some("particle-heart.png");
    }
    if str_eq(name, "instant_effect") || str_eq(name, "witch") {
        return Some("particle-spell_7.png");
    }
    if str_eq(name, "vibration") {
        return Some("particle-vibration.png");
    }
    if str_eq(name, "trail") || str_eq(name, "portal") || str_eq(name, "reverse_portal") {
        return Some("particle-generic_0.png");
    }
    if str_eq(name, "large_smoke") || str_eq(name, "smoke") || str_eq(name, "white_smoke") || str_eq(name, "sneeze") || str_eq(name, "snowflake") || str_eq(name, "squid_ink") || str_eq(name, "glow_squid_ink") {
        return Some("particle-generic_7.png");
    }
    if str_eq(name, "lava") {
        return Some("particle-lava.png");
    }
    if str_eq(name, "mycelium") || str_eq(name, "dolphin") || str_eq(name, "crimson_spore") || str_eq(name, "warped_spore") || str_eq(name, "white_ash") || str_eq(name, "underwater") {
        return Some("particle-generic_0.png");
    }
    if str_eq(name, "ash") {
        return Some("particle-generic_0.png");
    }
    if str_eq(name, "note") {
        return Some("particle-note.png");
    }
    if str_eq(name, "poof") {
        return Some("particle-generic_7.png");
    }
    if str_eq(name, "bubble_pop") {
        return Some("particle-bubble_pop_0.png");
    }
    if str_eq(name, "nautilus") {
        return Some("particle-nautilus.png");
    }
    if str_eq(name, "campfire_cosy_smoke") || str_eq(name, "campfire_signal_smoke") {
        return Some("particle-big_smoke_0.png");
    }
    if str_eq(name, "spit") {
        return Some("particle-generic_7.png");
    }
    if str_eq(name, "sweep_attack") {
        return Some("particle-sweep_0.png");
    }
    if str_eq(name, "glow") || str_eq(name, "wax_on") || str_eq(name, "wax_off") || str_eq(name, "electric_spark") || str_eq(name, "scrape") {
        return Some("particle-glow.png");
    }
    if str_eq(name, "shriek") {
        return Some("particle-shriek.png");
    }
    if str_eq(name, "trial_spawner_detection") {
        return Some("particle-trial_spawner_detection_0.png");
    }
    if str_eq(name, "trial_spawner_detection_ominous") {
        return Some("particle-trial_spawner_detection_ominous_0.png");
    }
    if str_eq(name, "vault_connection") {
        return Some("particle-vault_connection.png");
    }
    if str_eq(name, "ominous_spawning") {
        return Some("particle-ominous_spawning.png");
    }
    if str_eq(name, "raid_omen") {
        return Some("particle-raid_omen.png");
    }
    if str_eq(name, "trial_omen") {
        return Some("particle-trial_omen.png");
    }
    if str_eq(name, "firefly") {
        return Some("particle-firefly.png");
    }
    if str_eq(name, "sulfur_cube_goo") {
        return Some("particle-sulfur_cube_goo.png");
    }
    None
}

} // verus!

verus! {

/// Blocks with a running particle spawner, by spawner definition: torches,
/// soul torches, fire, soul fire, campfires, crying obsidian, end rods,
/// nether portals.
pub open spec fn spawner_def_of(block: Seq<char>) -> Option<usize> {
    if block == "minecraft:torch"@ || block == "minecraft:wall_torch"@ {
        Some(0)
    } else if block == "minecraft:soul_torch"@ || block == "minecraft:soul_wall_torch"@ {
        Some(1)
    } else if block == "minecraft:fire"@ {
        Some(2)
    } else if block == "minecraft:soul_fire"@ {
        Some(3)
    } else if block == "minecraft:campfire"@ || block == "minecraft:soul_campfire"@ {
        Some(4)
    } else if block == "minecraft:crying_obsidian"@ {
        Some(5)
    } else if block == "minecraft:end_rod"@ {
        Some(6)
    } else if block == "minecraft:nether_portal"@ {
        Some(7)
    } else {
        None
    }
}

/// How many particle streams each spawner definition runs (flame and
/// smoke for torches and fires, one stream for the others).
pub open spec fn emission_count_of(def: usize) -> usize {
    if def < 4 {
        2
    } else {
        1
    }
}

/// The spawner definition a block needs, if any.
pub fn spawner_def_for_block(block: &str) -> (r: Option<usize>)
    ensures
        r == spawner_def_of(block@),
{
    if str_eq(block, "minecraft:torch") || str_eq(block, "minecraft:wall_torch") {
        Some(0)
    } else if str_eq(block, "minecraft:soul_torch") || str_eq(block, "minecraft:soul_wall_torch") {
        Some(1)
    } else if str_eq(block, "minecraft:fire") {
        Some(2)
    } else if str_eq(block, "minecraft:soul_fire") {
        Some(3)
    } else if str_eq(block, "minecraft:campfire") || str_eq(block, "minecraft:soul_campfire") {
        Some(4)
    } else if str_eq(block, "minecraft:crying_obsidian") {
        Some(5)
    } else if str_eq(block, "minecraft:end_rod") {
        Some(6)
    } else if str_eq(block, "minecraft:nether_portal") {
        Some(7)
    } else {
        None
    }
}

/// The number of streams of a spawner definition.
pub fn emission_count(def: usize) -> (r: usize)
    ensures
        r == emission_count_of(def),
{
    if def < 4 {
        2
    } else {
        1
    }
}

/// Key of a block position: the coordinates shifted to be non-negative
/// and packed into 32 bits each.
pub open spec fn block_key(x: i32, y: i32, z: i32) -> u128 {
    ((x + 0x8000_0000) * 0x1_0000_0000_0000_0000 + (y + 0x8000_0000) * 0x1_0000_0000 + (z + 0x8000_0000)) as u128
}

proof fn lemma_block_key_injective(x1: i32, y1: i32, z1: i32, x2: i32, y2: i32, z2: i32)
    requires
        block_key(x1, y1, z1) == block_key(x2, y2, z2),
    ensures
        x1 == x2 && y1 == y2 && z1 == z2,
{
    let a1 = x1 + 0x8000_0000;
    let b1 = y1 + 0x8000_0000;
    let c1 = z1 + 0x8000_0000;
    let a2 = x2 + 0x8000_0000;
    let b2 = y2 + 0x8000_0000;
    let c2 = z2 + 0x8000_0000;
    assert(0 <= a1 * 0x1_0000_0000_0000_0000 + b1 * 0x1_0000_0000 + c1 < 0x1_0000_0000_0000_0000_0000_0000)
        by (nonlinear_arith)
        requires
            0 <= a1 < 0x1_0000_0000,
            0 <= b1 < 0x1_0000_0000,
            0 <= c1 < 0x1_0000_0000,
    ;
    assert(0 <= a2 * 0x1_0000_0000_0000_0000 + b2 * 0x1_0000_0000 + c2 < 0x1_0000_0000_0000_0000_0000_0000)
        by (nonlinear_arith)
        requires
            0 <= a2 < 0x1_0000_0000,
            0 <= b2 < 0x1_0000_0000,
            0 <= c2 < 0x1_0000_0000,
    ;
    assert(a1 * 0x1_0000_0000_0000_0000 + b1 * 0x1_0000_0000 + c1 == a2 * 0x1_0000_0000_0000_0000 + b2
        * 0x1_0000_0000 + c2);
    assert(c1 == c2) by (nonlinear_arith)
        requires
            a1 * 0x1_0000_0000_0000_0000 + b1 * 0x1_0000_0000 + c1 == a2 * 0x1_0000_0000_0000_0000 + b2
                * 0x1_0000_0000 + c2,
            0 <= c1 < 0x1_0000_0000,
            0 <= c2 < 0x1_0000_0000,
            0 <= b1 < 0x1_0000_0000,
            0 <= b2 < 0x1_0000_0000,
    ;
    assert(b1 == b2) by (nonlinear_arith)
        requires
            a1 * 0x1_0000_0000 + b1 == a2 * 0x1_0000_0000 + b2,
            0 <= b1 < 0x1_0000_0000,
            0 <= b2 < 0x1_0000_0000,
    ;
}

fn block_key_exec(x: i32, y: i32, z: i32) -> (k: u128)
    ensures
        k == block_key(x, y, z),
{
    let a = (x as i64 + 0x8000_0000) as u128;
    let b = (y as i64 + 0x8000_0000) as u128;
    let c = (z as i64 + 0x8000_0000) as u128;
    assert(a * 0x1_0000_0000_0000_0000 + b * 0x1_0000_0000 + c < 0x1_0000_0000_0000_0000_0000_0000)
        by (nonlinear_arith)
        requires
            a < 0x1_0000_0000,
            b < 0x1_0000_0000,
            c < 0x1_0000_0000,
    ;
    a * 0x1_0000_0000_0000_0000 + b * 0x1_0000_0000 + c
}

/// The particle spawners running on the client, by block: the spawner
/// definition and the ids of its streams.
pub struct ParticleSpawnerState {
    active: HashMap<u128, (usize, Vec<u32>)>,
    next_id: u32,
}

/// `n` ids counting up from `start`, wrapping past `u32::MAX`.
pub open spec fn id_run(start: u32, n: nat) -> Seq<u32> {
    Seq::new(n, |i: int| ((start + i) % 0x1_0000_0000) as u32)
}

/// What keeping a block's spawner in step asks of the client: streams to
/// delete, then the definition and ids of streams to add.
#[derive(Debug)]
pub struct SpawnerSync {
    pub delete: Vec<u32>,
    pub add: Option<(usize, Vec<u32>)>,
}

impl ParticleSpawnerState {
    /// The spawners by block position.
    pub closed spec fn view(&self) -> Map<(i32, i32, i32), (usize, Seq<u32>)> {
        Map::new(
            |p: (i32, i32, i32)| self.active@.contains_key(block_key(p.0, p.1, p.2)),
            |p: (i32, i32, i32)| {
                let e = self.active@[block_key(p.0, p.1, p.2)];
                (e.0, e.1@)
            },
        )
    }

    /// The id the next stream gets.
    pub closed spec fn next(&self) -> u32 {
        self.next_id
    }

    /// No spawners; ids start at 0.
    pub fn new() -> (r: Self)
        ensures
            r.view() == Map::<(i32, i32, i32), (usize, Seq<u32>)>::empty(),
            r.next() == 0,
    {
        let r = ParticleSpawnerState { active: HashMap::new(), next_id: 0 };
        assert(r.view() =~= Map::<(i32, i32, i32), (usize, Seq<u32>)>::empty());
        r
    }

    /// The spawner on a block, if one runs there.
    pub fn get(&self, x: i32, y: i32, z: i32) -> (r: Option<(usize, Vec<u32>)>)
        ensures
            match r {
                Some(e) => self.view().contains_key((x, y, z)) && self.view()[(x, y, z)] == (e.0, e.1@),
                None => !self.view().contains_key((x, y, z)),
            },
    {
        match self.active.get(&block_key_exec(x, y, z)) {
            Some(e) => Some((e.0, e.1.clone())),
            None => None,
        }
    }

    /// Stops tracking a block's spawner and returns it.
    pub fn remove(&mut self, x: i32, y: i32, z: i32) -> (r: Option<(usize, Vec<u32>)>)
        ensures
            final(self).view() == old(self).view().remove((x, y, z)),
            final(self).next() == old(self).next(),
            match r {
                Some(e) => old(self).view().contains_key((x, y, z)) && old(self).view()[(x, y, z)] == (
                    e.0,
                    e.1@,
                ),
                None => !old(self).view().contains_key((x, y, z)),
            },
    {
        let r = self.active.remove(&block_key_exec(x, y, z));
        proof {
            assert forall|p: (i32, i32, i32)| #[trigger]
                block_key(p.0, p.1, p.2) == block_key(x, y, z) implies p == (x, y, z) by {
                lemma_block_key_injective(p.0, p.1, p.2, x, y, z);
            }
            assert(self.view() =~= old(self).view().remove((x, y, z)));
        }
        r
    }

    /// Starts tracking a spawner of definition `def_index` on a block with
    /// `count` fresh stream ids, and returns them.
    pub fn insert(&mut self, x: i32, y: i32, z: i32, def_index: usize, count: usize) -> (r: Vec<u32>)
        ensures
            r@ == id_run(old(self).next(), count as nat),
            final(self).view() == old(self).view().insert((x, y, z), (def_index, r@)),
            final(self).next() == ((old(self).next() + count) % 0x1_0000_0000) as u32,
    {
        let ghost start = self.next_id;
        let mut ids: Vec<u32> = Vec::new();
        let mut i: usize = 0;
        while i < count
            invariant
                i <= count,
                ids@ == id_run(start, i as nat),
                self.next_id == ((start + i) % 0x1_0000_0000) as u32,
                self.active@ == old(self).active@,
            decreases count - i,
        {
            let id = self.next_id;
            self.next_id = self.next_id.wrapping_add(1);
            ids.push(id);
            proof {
                assert(((start + i) % 0x1_0000_0000 + 1) % 0x1_0000_0000 == (start + i + 1) % 0x1_0000_0000)
                    by (nonlinear_arith);
            }
            i += 1;
            assert(ids@ =~= id_run(start, i as nat));
        }
        let ghost old_view = self.view();
        assert(old_view == old(self).view());
        let copy = ids.clone();
        assert(copy@ =~= ids@);
        self.active.insert(block_key_exec(x, y, z), (def_index, copy));
        proof {
            assert forall|p: (i32, i32, i32)| #[trigger]
                block_key(p.0, p.1, p.2) == block_key(x, y, z) implies p == (x, y, z) by {
                lemma_block_key_injective(p.0, p.1, p.2, x, y, z);
            }
            assert(self.view() =~= old_view.insert((x, y, z), (def_index, ids@)));
        }
        ids
    }

    /// Whether the spawner tracked at `p` is the one `wanted` names (none
    /// when none is wanted).
    pub open spec fn in_step(v: Map<(i32, i32, i32), (usize, Seq<u32>)>, p: (i32, i32, i32), wanted: Option<usize>) -> bool {
        match v.get(p) {
            Some(c) => wanted == Some(c.0),
            None => wanted is None,
        }
    }

    /// What syncing the spawner at `p` to `wanted` does, from the tracked
    /// spawners `v` and the next free id `next`: the spawners and next id
    /// after it, the streams it deletes, and the spawner it starts, if any.
    pub open spec fn synced(
        v: Map<(i32, i32, i32), (usize, Seq<u32>)>,
        next: u32,
        p: (i32, i32, i32),
        wanted: Option<usize>,
    ) -> (Map<(i32, i32, i32), (usize, Seq<u32>)>, u32, Seq<u32>, Option<(usize, Seq<u32>)>) {
        if Self::in_step(v, p, wanted) {
            (v, next, Seq::empty(), None)
        } else {
            let del = match v.get(p) {
                Some(c) => c.1,
                None => Seq::empty(),
            };
            match wanted {
                None => (v.remove(p), next, del, None),
                Some(d) => {
                    let ids = id_run(next, emission_count_of(d) as nat);
                    (
                        v.insert(p, (d, ids)),
                        ((next + emission_count_of(d)) % 0x1_0000_0000) as u32,
                        del,
                        Some((d, ids)),
                    )
                },
            }
        }
    }

    /// Syncing the same block to the same spawner twice: the second sync
    /// deletes no stream, starts none, and leaves the tracked spawners and
    /// the next id as the first left them.
    pub proof fn law_sync_is_idempotent(
        v: Map<(i32, i32, i32), (usize, Seq<u32>)>,
        next: u32,
        p: (i32, i32, i32),
        wanted: Option<usize>,
    )
        ensures
            ({
                let once = Self::synced(v, next, p, wanted);
                let twice = Self::synced(once.0, once.1, p, wanted);
                &&& twice.0 == once.0
                &&& twice.1 == once.1
                &&& twice.2 == Seq::<u32>::empty()
                &&& twice.3 is None
            }),
    {
        let once = Self::synced(v, next, p, wanted);
        if !Self::in_step(v, p, wanted) {
            match wanted {
                None => assert(once.0.get(p) is None),
                Some(d) => assert(once.0.get(p) == Some((d, id_run(next, emission_count_of(d) as nat)))),
            }
        }
        assert(Self::in_step(once.0, p, wanted));
    }

    /// Keeps the spawner on a block in step with the block now there
    /// (`wanted`: the definition it needs, if any). Nothing changes when
    /// the right spawner already runs, or none runs and none is needed;
    /// else the old streams are deleted and, if one is needed, a spawner
    /// with fresh ids is started.
    pub fn sync_block_spawner(&mut self, x: i32, y: i32, z: i32, wanted: Option<usize>) -> (r: SpawnerSync)
        ensures
            Self::in_step(final(self).view(), (x, y, z), wanted),
            ({
                let o = Self::synced(old(self).view(), old(self).next(), (x, y, z), wanted);
                &&& final(self).view() == o.0
                &&& final(self).next() == o.1
                &&& r.delete@ == o.2
                &&& match r.add {
                    Some(a) => o.3 == Some((a.0, a.1@)),
                    None => o.3 is None,
                }
            }),
            ({
                let cur = old(self).view().get((x, y, z));
                if (cur matches Some(c) && wanted == Some(c.0)) || (cur is None && wanted is None) {
                    &&& r.delete@ == Seq::<u32>::empty()
                    &&& r.add is None
                    &&& final(self).view() == old(self).view()
                    &&& final(self).next() == old(self).next()
                } else {
                    &&& r.delete@ == match cur {
                        Some(c) => c.1,
                        None => Seq::empty(),
                    }
                    &&& match wanted {
                        None => {
                            &&& r.add is None
                            &&& final(self).view() == old(self).view().remove((x, y, z))
                            &&& final(self).next() == old(self).next()
                        },
                        Some(d) => {
                            let ids = id_run(old(self).next(), emission_count_of(d) as nat);
                            &&& r.add matches Some(a) && a.0 == d && a.1@ == ids
                            &&& final(self).view() == old(self).view().insert((x, y, z), (d, ids))
                            &&& final(self).next() == ((old(self).next() + emission_count_of(d))
                                % 0x1_0000_0000) as u32
                        },
                    }
                }
            }),
    {
        let current = self.get(x, y, z);
        let unchanged = match (&current, wanted) {
            (Some(c), Some(w)) => c.0 == w,
            (None, None) => true,
            _ => false,
        };
        if unchanged {
            return SpawnerSync { delete: Vec::new(), add: None };
        }
        let delete = match self.remove(x, y, z) {
            Some(e) => e.1,
            None => Vec::new(),
        };
        let ghost after_remove = self.view();
        match wanted {
            Some(d) => {
                let ids = self.insert(x, y, z, d, emission_count(d));
                assert(after_remove.insert((x, y, z), (d, ids@)) =~= old(self).view().insert(
                    (x, y, z),
                    (d, ids@),
                ));
                SpawnerSync { delete, add: Some((d, ids)) }
            },
            None => SpawnerSync { delete, add: None },
        }
    }
}

} // verus!
