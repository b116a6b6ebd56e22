//! Per-entity animation playback.
//!
//! The movement pipeline (re-)assigns a clip handle every tick, whether or
//! not it changed; the player below is responsible for noticing an
//! unchanged assignment and leaving the running clip alone instead of
//! restarting it.

use vstd::prelude::*;

use crate::registry::AssetHandle;

verus! {

/// Carried by an animated entity: the clip it should currently be playing.
#[derive(Clone, Copy, Debug)]
pub struct Animated {
    pub handle: AssetHandle,
}

/// One entity's playback state: the clip currently playing, if any.
#[derive(Clone, Copy, Debug)]
pub struct AnimationPlayer {
    pub playing: Option<AssetHandle>,
}

impl AnimationPlayer {
    /// A player that has not started any clip yet.
    pub fn new() -> (r: AnimationPlayer)
        ensures
            r.playing is None,
    {
        AnimationPlayer { playing: None }
    }

    /// Observes the entity's assigned clip: starts it only if it is not the
    /// one already playing, and reports whether a (re-)start happened. An
    /// unchanged assignment is a no-op.
    pub fn play_animation(&mut self, animation: &Animated) -> (started: bool)
        ensures
            final(self).playing == Some(animation.handle),
            started == (old(self).playing != Some(animation.handle)),
    {
        let started = match &self.playing {
            Some(current) => !(*current == animation.handle),
            None => true,
        };
        self.playing = Some(animation.handle);
        started
    }
}

} // verus!
