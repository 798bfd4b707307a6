//! Verified core of a proxy that lets a Luanti client play on a Minecraft
//! server: coordinate mirroring, world/light bookkeeping, entity id
//! allocation, texture naming, inventory index translation and the
//! decisions behind the HUD and node definitions.
use vstd::prelude::*;

pub mod chat;
pub mod containers;
pub mod entities;
pub mod entity_model;
pub mod handshake;
pub mod inventory;
pub mod light;
pub mod media;
pub mod nodedef;
pub mod particles;
pub mod player;
pub mod recipes;
pub mod settings;
pub mod text;
pub mod textures;
pub mod world;

verus! {
} // verus!
