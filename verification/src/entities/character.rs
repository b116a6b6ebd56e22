//! The controlled character: one model keyed directly under the class
//! name, and the two clips — idle and walk — whose signatures nest on top
//! of the model's signature, never on the raw variant id.

use vstd::prelude::*;
use vstd::string::StringExecFns;

use crate::animation::Animated;
use crate::entities::{EntityKind, GridCoordinate, SpawnedEntity};
use crate::registry::{
    lemma_lookup_push, lemma_rows_appended_lookup_iff, row_at, rows_appended, Asset, AssetHandle,
    AssetRegistry, RegistryError,
};
use crate::signature::{
    derive_animation_signature, lemma_model_signature_injective, spec_animation_signature,
};

verus! {

/// A character placed on the grid.
#[derive(Clone, Copy, Debug)]
pub struct Entity {
    pub coordinates: GridCoordinate,
    pub variant: Variant,
}

/// The closed set of character variants.
#[derive(Clone, Copy, PartialEq, Eq, Structural, Debug)]
pub enum Variant {
    Player,
}

/// The two animation states of a character; a pure function of whether it
/// is walking.
#[derive(Clone, Copy, PartialEq, Eq, Structural, Debug)]
pub enum Animation {
    Idle,
    Walk,
}

/// The signature a character variant's model is keyed under. The class has
/// a single variant, keyed directly under the class name.
pub open spec fn spec_signature(variant: Variant) -> Seq<char> {
    match variant {
        Variant::Player => "player"@,
    }
}

/// The source path the engine's loader streams the model from.
pub open spec fn spec_source(variant: Variant) -> Seq<char> {
    match variant {
        Variant::Player => "models/player.glb#Scene0"@,
    }
}

pub open spec fn spec_animation_id(animation: Animation) -> Seq<char> {
    match animation {
        Animation::Idle => "idle"@,
        Animation::Walk => "walk"@,
    }
}

/// The signature a clip is keyed under: the owning model's signature with
/// the animation id appended.
pub open spec fn spec_clip_signature(variant: Variant, animation: Animation) -> Seq<char> {
    spec_animation_signature(spec_signature(variant), spec_animation_id(animation))
}

/// The source path of a clip.
pub open spec fn spec_clip_source(variant: Variant, animation: Animation) -> Seq<char> {
    match (variant, animation) {
        (Variant::Player, Animation::Idle) => "models/player.glb#Animation3"@,
        (Variant::Player, Animation::Walk) => "models/player.glb#Animation6"@,
    }
}

/// The model rows of this class, in load order.
pub open spec fn spec_model_rows() -> Seq<(Seq<char>, Seq<char>)> {
    seq![(spec_signature(Variant::Player), spec_source(Variant::Player))]
}

/// The animation rows of this class, in load order: idle, then walk.
pub open spec fn spec_animation_rows() -> Seq<(Seq<char>, Seq<char>)> {
    seq![
        (
            spec_clip_signature(Variant::Player, Animation::Idle),
            spec_clip_source(Variant::Player, Animation::Idle),
        ),
        (
            spec_clip_signature(Variant::Player, Animation::Walk),
            spec_clip_source(Variant::Player, Animation::Walk),
        ),
    ]
}

/// No signature of this class is registered yet, in either namespace.
pub open spec fn none_loaded(resources: AssetRegistry) -> bool {
    &&& resources.model_handle(spec_signature(Variant::Player)) is None
    &&& resources.animation_handle(spec_clip_signature(Variant::Player, Animation::Idle)) is None
    &&& resources.animation_handle(spec_clip_signature(Variant::Player, Animation::Walk)) is None
}

pub fn model_signature(variant: &Variant) -> (r: String)
    ensures
        r@ == spec_signature(*variant),
{
    match variant {
        Variant::Player => String::from_str("player"),
    }
}

pub fn model_source(variant: &Variant) -> (r: String)
    ensures
        r@ == spec_source(*variant),
{
    match variant {
        Variant::Player => String::from_str("models/player.glb#Scene0"),
    }
}

pub fn animation_id(animation: &Animation) -> (r: &'static str)
    ensures
        r@ == spec_animation_id(*animation),
{
    match animation {
        Animation::Idle => "idle",
        Animation::Walk => "walk",
    }
}

pub fn clip_signature(variant: &Variant, animation: &Animation) -> (r: String)
    ensures
        r@ == spec_clip_signature(*variant, *animation),
{
    let model = model_signature(variant);
    derive_animation_signature(model.as_str(), animation_id(animation))
}

pub fn clip_source(variant: &Variant, animation: &Animation) -> (r: String)
    ensures
        r@ == spec_clip_source(*variant, *animation),
{
    match (variant, animation) {
        (Variant::Player, Animation::Idle) => String::from_str("models/player.glb#Animation3"),
        (Variant::Player, Animation::Walk) => String::from_str("models/player.glb#Animation6"),
    }
}

/// The idle and walk clips never collide.
pub proof fn lemma_clip_signatures_distinct()
    ensures
        spec_clip_signature(Variant::Player, Animation::Idle) != spec_clip_signature(
            Variant::Player,
            Animation::Walk,
        ),
{
    reveal_strlit("player");
    reveal_strlit("idle");
    reveal_strlit("walk");
    if spec_clip_signature(Variant::Player, Animation::Idle) == spec_clip_signature(
        Variant::Player,
        Animation::Walk,
    ) {
        lemma_model_signature_injective("player"@, "idle"@, "player"@, "walk"@);
        assert("idle"@[0] == 'i');
        assert("walk"@[0] == 'w');
    }
}

/// Law: once the startup load phase has appended this class's animation
/// rows, both clips resolve, so the per-tick clip fetch run strictly
/// after a clean load can never hit the fatal not-loaded fault.
pub proof fn lemma_startup_resolves_clips(pre: AssetRegistry, post: AssetRegistry)
    requires
        rows_appended(pre.animations@, post.animations@, spec_animation_rows()),
    ensures
        post.animation_handle(spec_clip_signature(Variant::Player, Animation::Idle)) is Some,
        post.animation_handle(spec_clip_signature(Variant::Player, Animation::Walk)) is Some,
{
    crate::registry::lemma_rows_appended_resolves(
        pre.animations@,
        post.animations@,
        spec_animation_rows(),
        0,
    );
    crate::registry::lemma_rows_appended_resolves(
        pre.animations@,
        post.animations@,
        spec_animation_rows(),
        1,
    );
}

/// Loading the terrain class's rows cannot affect this class's
/// signatures, in either namespace.
pub proof fn lemma_none_loaded_preserved_by_block(pre: AssetRegistry, mid: AssetRegistry)
    requires
        rows_appended(pre.models@, mid.models@, crate::entities::block::spec_rows()),
        mid.animations@ == pre.animations@,
    ensures
        none_loaded(mid) <==> none_loaded(pre),
        mid.model_handle(spec_signature(Variant::Player)) == pre.model_handle(
            spec_signature(Variant::Player),
        ),
{
    reveal_strlit("_");
    reveal_strlit("block");
    reveal_strlit("grass");
    reveal_strlit("dirt");
    reveal_strlit("player");
    let rows = crate::entities::block::spec_rows();
    assert forall|k: int| 0 <= k < rows.len() implies rows[k].0 != spec_signature(
        Variant::Player,
    ) by {
        assert(rows[0].0.len() == 11);
        assert(rows[1].0.len() == 10);
        assert(spec_signature(Variant::Player).len() == 6);
    }
    lemma_rows_appended_lookup_iff(
        pre.models@,
        mid.models@,
        rows,
        spec_signature(Variant::Player),
    );
}

/// Returns the handle registered for a character variant's model.
pub fn get_model(variant: &Variant, resources: &AssetRegistry) -> (r: Result<
    AssetHandle,
    RegistryError,
>)
    ensures
        match r {
            Ok(h) => resources.model_handle(spec_signature(*variant)) == Some(h),
            Err(e) => e matches RegistryError::NotLoaded(t) && t@ == spec_signature(*variant)
                && resources.model_handle(spec_signature(*variant)) is None,
        },
{
    resources.get_model(&model_signature(variant))
}

/// Returns the handle registered for one of a character's clips.
pub fn get_animation(variant: &Variant, animation: &Animation, resources: &AssetRegistry) -> (r:
    Result<AssetHandle, RegistryError>)
    ensures
        match r {
            Ok(h) => resources.animation_handle(spec_clip_signature(*variant, *animation))
                == Some(h),
            Err(e) => e matches RegistryError::NotLoaded(t) && t@ == spec_clip_signature(
                *variant,
                *animation,
            ) && resources.animation_handle(spec_clip_signature(*variant, *animation)) is None,
        },
{
    resources.get_animation(&clip_signature(variant, animation))
}

/// Materializes a character entity: resolves its model handle and the idle
/// clip every character starts out playing.
pub fn spawn(resources: &AssetRegistry, entity: Entity) -> (r: Result<
    (SpawnedEntity, Animated),
    RegistryError,
>)
    ensures
        match r {
            Ok(p) => p.0.kind == EntityKind::Character(entity.variant) && p.0.coordinates
                == entity.coordinates && resources.model_handle(spec_signature(entity.variant))
                == Some(p.0.handle) && resources.animation_handle(
                spec_clip_signature(entity.variant, Animation::Idle),
            ) == Some(p.1.handle),
            Err(e) => e matches RegistryError::NotLoaded(t) && (t@ == spec_signature(
                entity.variant,
            ) && resources.model_handle(spec_signature(entity.variant)) is None || t@
                == spec_clip_signature(entity.variant, Animation::Idle)
                && resources.animation_handle(
                spec_clip_signature(entity.variant, Animation::Idle),
            ) is None),
        },
{
    let handle = match get_model(&entity.variant, resources) {
        Ok(h) => h,
        Err(e) => {
            return Err(e);
        },
    };
    let idle = match get_animation(&entity.variant, &Animation::Idle, resources) {
        Ok(h) => h,
        Err(e) => {
            return Err(e);
        },
    };
    Ok(
        (
            SpawnedEntity {
                kind: EntityKind::Character(entity.variant),
                coordinates: entity.coordinates,
                handle,
            },
            Animated { handle: idle },
        ),
    )
}

/// Registers this class's tables: the player model, then the idle and walk
/// clips. Fails with a duplicate-load fault naming the first signature
/// already present.
pub fn load_assets(resources: &mut AssetRegistry) -> (r: Result<(), RegistryError>)
    ensures
        r is Ok <==> none_loaded(*old(resources)),
        r is Ok ==> rows_appended(
            old(resources).models@,
            final(resources).models@,
            spec_model_rows(),
        ) && rows_appended(
            old(resources).animations@,
            final(resources).animations@,
            spec_animation_rows(),
        ),
        r matches Err(e) ==> e matches RegistryError::DuplicateLoad(t) && (if old(
            resources,
        ).model_handle(spec_signature(Variant::Player)) is Some {
            t@ == spec_signature(Variant::Player) && *final(resources) == *old(resources)
        } else if old(resources).animation_handle(
            spec_clip_signature(Variant::Player, Animation::Idle),
        ) is Some {
            t@ == spec_clip_signature(Variant::Player, Animation::Idle) && rows_appended(
                old(resources).models@,
                final(resources).models@,
                spec_model_rows(),
            ) && final(resources).animations@ == old(resources).animations@
        } else {
            t@ == spec_clip_signature(Variant::Player, Animation::Walk) && old(
                resources,
            ).animation_handle(spec_clip_signature(Variant::Player, Animation::Walk)) is Some
                && rows_appended(
                old(resources).models@,
                final(resources).models@,
                spec_model_rows(),
            ) && rows_appended(
                old(resources).animations@,
                final(resources).animations@,
                spec_animation_rows().subrange(0, 1),
            )
        }),
        old(resources).wf() ==> final(resources).wf(),
{
    let ghost pre = *resources;
    let sig_model = model_signature(&Variant::Player);
    let src_model = model_source(&Variant::Player);
    let r1 = resources.load_model(sig_model, src_model);
    let h1 = match r1 {
        Err(e) => {
            return Err(e);
        },
        Ok(h) => h,
    };
    let ghost a1 = Asset { signature: sig_model, source: src_model, handle: h1 };
    let ghost mid1 = *resources;
    proof {
        assert(mid1.models@.subrange(0, pre.models@.len() as int) =~= pre.models@);
        assert(row_at(
            mid1.models@,
            pre.models@.len() as int,
            spec_signature(Variant::Player),
            spec_source(Variant::Player),
        ));
        assert(rows_appended(pre.models@, mid1.models@, spec_model_rows()));
    }
    let sig_idle = clip_signature(&Variant::Player, &Animation::Idle);
    let src_idle = clip_source(&Variant::Player, &Animation::Idle);
    let r2 = resources.load_animation(sig_idle, src_idle);
    let h2 = match r2 {
        Err(e) => {
            return Err(e);
        },
        Ok(h) => h,
    };
    let ghost a2 = Asset { signature: sig_idle, source: src_idle, handle: h2 };
    let ghost mid2 = *resources;
    proof {
        lemma_clip_signatures_distinct();
        lemma_lookup_push(
            pre.animations@,
            a2,
            spec_clip_signature(Variant::Player, Animation::Walk),
        );
        assert(mid2.animations@.subrange(0, pre.animations@.len() as int)
            =~= pre.animations@);
        assert(row_at(
            mid2.animations@,
            pre.animations@.len() as int,
            spec_clip_signature(Variant::Player, Animation::Idle),
            spec_clip_source(Variant::Player, Animation::Idle),
        ));
        assert(spec_animation_rows().subrange(0, 1)[0] == spec_animation_rows()[0]);
        assert(rows_appended(
            pre.animations@,
            mid2.animations@,
            spec_animation_rows().subrange(0, 1),
        ));
    }
    let sig_walk = clip_signature(&Variant::Player, &Animation::Walk);
    let src_walk = clip_source(&Variant::Player, &Animation::Walk);
    let r3 = resources.load_animation(sig_walk, src_walk);
    let h3 = match r3 {
        Err(e) => {
            return Err(e);
        },
        Ok(h) => h,
    };
    proof {
        let a3 = Asset { signature: sig_walk, source: src_walk, handle: h3 };
        assert(resources.animations@ == mid2.animations@.push(a3));
        assert(resources.animations@.subrange(0, pre.animations@.len() as int)
            =~= pre.animations@);
        assert(resources.animations@[pre.animations@.len() as int] == a2);
        assert(resources.animations@[pre.animations@.len() as int + 1] == a3);
        assert forall|k: int| 0 <= k < spec_animation_rows().len() implies #[trigger] row_at(
            resources.animations@,
            pre.animations@.len() + k,
            spec_animation_rows()[k].0,
            spec_animation_rows()[k].1,
        ) by {
            if k == 0 {
                assert(spec_animation_rows()[0] == (
                    spec_clip_signature(Variant::Player, Animation::Idle),
                    spec_clip_source(Variant::Player, Animation::Idle),
                ));
            } else {
                assert(spec_animation_rows()[1] == (
                    spec_clip_signature(Variant::Player, Animation::Walk),
                    spec_clip_source(Variant::Player, Animation::Walk),
                ));
            }
        }
        lemma_lookup_push(
            mid2.animations@,
            a3,
            spec_clip_signature(Variant::Player, Animation::Idle),
        );
    }
    Ok(())
}

} // verus!
