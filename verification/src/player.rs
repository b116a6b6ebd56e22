//! The per-tick pipeline of the controlled entity.
//!
//! Every tick recomputes, from scratch, where the player faces, how far it
//! moves, and which clip it plays. Facing follows the mouse world
//! coordinate; translation follows exactly one pressed key — a fixed,
//! deterministic but arbitrary tie-break takes the first key in press
//! order, with no diagonal blending — scaled by elapsed time and the speed
//! constant; the clip is walk while any key is held, idle otherwise, and
//! the handle is re-fetched from the registry every tick whether or not it
//! changed. The embedding program turns the facing direction into an angle
//! and rotates the body-frame translation into world space; that
//! conversion is the only part that stays outside.

use vstd::prelude::*;

use crate::entities::{character, GridCoordinate, SpawnedEntity};
use crate::animation::Animated;
use crate::input::{InputData, Key, WorldVector};
use crate::registry::{AssetHandle, AssetRegistry, RegistryError};

verus! {

/// The speed constant the sandbox ships with, in thousandths of a world
/// unit per second.
pub const DEFAULT_SPEED: u32 = 5500;

/// The body-frame unit direction a key maps to: forward is +Z, backward
/// is -Z, strafing left is +X and strafing right is -X, all relative to
/// the current facing.
pub open spec fn spec_body_direction(key: Key) -> (int, int, int) {
    match key {
        Key::Forward => (0int, 0int, 1int),
        Key::Backward => (0int, 0int, -1int),
        Key::StrafeLeft => (1int, 0int, 0int),
        Key::StrafeRight => (-1int, 0int, 0int),
    }
}

/// How far one tick moves: the speed constant scaled by the elapsed time,
/// in thousandths of a world unit.
pub open spec fn spec_magnitude(speed_thousandths: u32, elapsed_millis: u32) -> int {
    speed_thousandths * elapsed_millis / 1000
}

/// The body-frame displacement of one tick under one selected key.
pub open spec fn spec_translation(key: Key, speed_thousandths: u32, elapsed_millis: u32) -> WorldVector {
    let m = spec_magnitude(speed_thousandths, elapsed_millis);
    let d = spec_body_direction(key);
    WorldVector { x: (d.0 * m) as i64, y: (d.1 * m) as i64, z: (d.2 * m) as i64 }
}

/// Everything one tick decides for the player.
#[derive(Clone, Copy, Debug)]
pub struct MovementState {
    /// The direction the entity turns toward: the X and Z components of
    /// mouse world coordinate minus entity position. The embedding program
    /// derives the facing angle from these two components.
    pub facing_x: i64,
    pub facing_z: i64,
    /// The body-frame displacement of this tick, in thousandths; the zero
    /// vector whenever no key is held.
    pub translation: WorldVector,
    /// Whether any movement key is held.
    pub walking: bool,
    /// Idle or walk, a pure function of `walking`.
    pub animation: character::Animation,
    /// The clip handle fetched from the registry for `animation`,
    /// (re-)assigned every tick whether or not it changed.
    pub animation_handle: AssetHandle,
}

/// Scales the speed constant by the elapsed time.
pub fn translation_magnitude(speed_thousandths: u32, elapsed_millis: u32) -> (m: u64)
    ensures
        m == spec_magnitude(speed_thousandths, elapsed_millis),
        m <= 0x100000000000000,
{
    proof {
        assert((speed_thousandths as int) * (elapsed_millis as int) <= 0xffff_fffe_0000_0001int)
            by (nonlinear_arith)
            requires
                speed_thousandths <= 0xffff_ffffu32,
                elapsed_millis <= 0xffff_ffffu32,
        ;
    }
    (speed_thousandths as u64) * (elapsed_millis as u64) / 1000
}

/// Materializes the player at the world origin, with the idle clip every
/// character starts out playing.
pub fn initialize_player(resources: &AssetRegistry) -> (r: Result<
    (SpawnedEntity, Animated),
    RegistryError,
>)
    ensures
        match r {
            Ok(p) => p.0.kind == crate::entities::EntityKind::Character(
                character::Variant::Player,
            ) && p.0.coordinates == (GridCoordinate { x: 0, y: 0, z: 0 })
                && resources.model_handle(character::spec_signature(character::Variant::Player))
                == Some(p.0.handle) && resources.animation_handle(
                character::spec_clip_signature(
                    character::Variant::Player,
                    character::Animation::Idle,
                ),
            ) == Some(p.1.handle),
            Err(e) => e matches RegistryError::NotLoaded(t) && (t@ == character::spec_signature(
                character::Variant::Player,
            ) && resources.model_handle(character::spec_signature(character::Variant::Player))
                is None || t@ == character::spec_clip_signature(
                character::Variant::Player,
                character::Animation::Idle,
            ) && resources.animation_handle(
                character::spec_clip_signature(
                    character::Variant::Player,
                    character::Animation::Idle,
                ),
            ) is None),
        },
{
    character::spawn(
        resources,
        character::Entity {
            coordinates: GridCoordinate { x: 0, y: 0, z: 0 },
            variant: character::Variant::Player,
        },
    )
}

/// One tick of the movement pipeline. Facing turns toward the mouse world
/// coordinate; with no key held the translation is the zero vector and the
/// clip is idle, whatever any earlier tick did; with keys held the first
/// one in press order wins and the clip is walk. Fails only when the clip
/// it must fetch was never registered — a fatal startup-order fault.
pub fn player_movement(
    input: &InputData,
    position: &WorldVector,
    speed_thousandths: u32,
    elapsed_millis: u32,
    resources: &AssetRegistry,
) -> (r: Result<MovementState, RegistryError>)
    requires
        input.mouse_position.coordinates.in_bounds(),
        position.in_bounds(),
    ensures
        match r {
            Ok(m) => {
                &&& m.facing_x == input.mouse_position.coordinates.x - position.x
                &&& m.facing_z == input.mouse_position.coordinates.z - position.z
                &&& m.walking == (input.pressed_keys@.len() > 0)
                &&& m.animation == (if input.pressed_keys@.len() > 0 {
                    character::Animation::Walk
                } else {
                    character::Animation::Idle
                })
                &&& resources.animation_handle(
                    character::spec_clip_signature(character::Variant::Player, m.animation),
                ) == Some(m.animation_handle)
                &&& input.pressed_keys@.len() == 0 ==> m.translation == (WorldVector {
                    x: 0,
                    y: 0,
                    z: 0,
                })
                &&& input.pressed_keys@.len() > 0 ==> m.translation == spec_translation(
                    input.pressed_keys@[0],
                    speed_thousandths,
                    elapsed_millis,
                )
            },
            Err(e) => {
                &&& e matches RegistryError::NotLoaded(t)
                &&& t@ == character::spec_clip_signature(
                    character::Variant::Player,
                    if input.pressed_keys@.len() > 0 {
                        character::Animation::Walk
                    } else {
                        character::Animation::Idle
                    },
                )
                &&& resources.animation_handle(t@) is None
            },
        },
{
    let facing_x = input.mouse_position.coordinates.x - position.x;
    let facing_z = input.mouse_position.coordinates.z - position.z;

    let walking = input.pressed_keys.len() > 0;
    let magnitude = translation_magnitude(speed_thousandths, elapsed_millis);
    let translation = if input.pressed_keys.len() > 0 {
        let step = magnitude as i64;
        match input.pressed_keys[0] {
            Key::Forward => WorldVector { x: 0, y: 0, z: step },
            Key::Backward => WorldVector { x: 0, y: 0, z: -step },
            Key::StrafeLeft => WorldVector { x: step, y: 0, z: 0 },
            Key::StrafeRight => WorldVector { x: -step, y: 0, z: 0 },
        }
    } else {
        WorldVector { x: 0, y: 0, z: 0 }
    };

    let animation = if walking {
        character::Animation::Walk
    } else {
        character::Animation::Idle
    };
    let animation_handle = match character::get_animation(
        &character::Variant::Player,
        &animation,
        resources,
    ) {
        Ok(h) => h,
        Err(e) => {
            return Err(e);
        },
    };
    Ok(
        MovementState {
            facing_x,
            facing_z,
            translation,
            walking,
            animation,
            animation_handle,
        },
    )
}

} // verus!
