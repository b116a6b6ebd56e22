//! Core of an interactive 3D sandbox: a signature-keyed asset registry with
//! load-once / read-after-load discipline, a stochastic world-assembly
//! algorithm that consumes that registry, and the per-tick input → movement →
//! animation pipeline that drives the player entity.
//!
//! Rendering, windowing and asset streaming are external collaborators; this
//! crate manages handle identity, placement decisions and per-tick state, and
//! hands plain values to the embedding program.

pub mod entities;
pub mod input;
pub mod player;
pub mod registry;
pub mod signature;
pub mod animation;
pub mod system_info;
pub mod world;
