//! The entity classes of the world — terrain blocks, the player character
//! and vegetation — together with the shared placement types and the
//! startup load phase that registers every class's assets.

pub mod block;
pub mod character;
pub mod vegetation;

use vstd::prelude::*;

use crate::registry::{
    rows_appended, AssetRegistry, RegistryError,
};

verus! {

/// Integer 3-tuple identifying a placement cell. The world spans a square
/// region centered at the origin; terrain sits at height 0 and vegetation
/// one cell above it.
#[derive(Clone, Copy, PartialEq, Eq, Structural, Debug)]
pub struct GridCoordinate {
    pub x: i32,
    pub y: i32,
    pub z: i32,
}

/// Which class and variant a spawned entity belongs to.
#[derive(Clone, Copy, PartialEq, Eq, Structural, Debug)]
pub enum EntityKind {
    Block(block::Variant),
    Character(character::Variant),
    Vegetation(vegetation::Variant),
}

/// A `(variant, coordinate, handle)` triple materialized into the world.
#[derive(Clone, Copy, Debug)]
pub struct SpawnedEntity {
    pub kind: EntityKind,
    pub coordinates: GridCoordinate,
    pub handle: crate::registry::AssetHandle,
}

/// The combined startup table: every model row of every class, in load
/// order, followed by the animation rows.
pub open spec fn spec_model_rows() -> Seq<(Seq<char>, Seq<char>)> {
    block::spec_rows() + character::spec_model_rows() + vegetation::spec_rows()
}

/// The duplicate the combined startup load can report: one of the table's
/// signatures, already registered in its namespace before the load began.
pub open spec fn duplicate_in_startup_table(pre: AssetRegistry, t: Seq<char>) -> bool {
    ||| t == block::spec_signature(block::Variant::Grass) && pre.model_handle(t) is Some
    ||| t == block::spec_signature(block::Variant::Dirt) && pre.model_handle(t) is Some
    ||| t == character::spec_signature(character::Variant::Player) && pre.model_handle(t) is Some
    ||| t == character::spec_clip_signature(character::Variant::Player, character::Animation::Idle)
        && pre.animation_handle(t) is Some
    ||| t == character::spec_clip_signature(character::Variant::Player, character::Animation::Walk)
        && pre.animation_handle(t) is Some
    ||| t == vegetation::spec_signature(vegetation::Variant::Grass) && pre.model_handle(t) is Some
    ||| t == vegetation::spec_signature(vegetation::Variant::Tree) && pre.model_handle(t) is Some
    ||| t == vegetation::spec_signature(vegetation::Variant::Bamboo) && pre.model_handle(t) is Some
    ||| t == vegetation::spec_signature(vegetation::Variant::Corn) && pre.model_handle(t) is Some
}

/// Runs the whole startup load phase: registers the terrain, character and
/// vegetation models and the character animations, in that order. Fails
/// with a duplicate-load fault if any signature is already present; on a
/// fresh registry it always succeeds.
pub fn load_assets(resources: &mut AssetRegistry) -> (r: Result<(), RegistryError>)
    ensures
        r is Ok <==> (block::none_loaded(*old(resources)) && character::none_loaded(
            *old(resources),
        ) && vegetation::none_loaded(*old(resources))),
        r is Ok ==> rows_appended(
            old(resources).models@,
            final(resources).models@,
            spec_model_rows(),
        ) && rows_appended(
            old(resources).animations@,
            final(resources).animations@,
            character::spec_animation_rows(),
        ),
        r matches Err(e) ==> e matches RegistryError::DuplicateLoad(t)
            && duplicate_in_startup_table(*old(resources), t@),
        old(resources).wf() ==> final(resources).wf(),
{
    let ghost pre = *resources;
    match block::load_assets(resources) {
        Err(e) => {
            return Err(e);
        },
        Ok(_) => {},
    }
    let ghost mid1 = *resources;
    match character::load_assets(resources) {
        Err(e) => {
            proof {
                character::lemma_none_loaded_preserved_by_block(pre, mid1);
            }
            return Err(e);
        },
        Ok(_) => {},
    }
    let ghost mid2 = *resources;
    match vegetation::load_assets(resources) {
        Err(e) => {
            proof {
                vegetation::lemma_none_loaded_preserved_by_startup(pre, mid1, mid2);
            }
            return Err(e);
        },
        Ok(_) => {},
    }
    proof {
        character::lemma_none_loaded_preserved_by_block(pre, mid1);
        vegetation::lemma_none_loaded_preserved_by_startup(pre, mid1, mid2);
        crate::registry::lemma_rows_appended_compose(
            pre.models@,
            mid1.models@,
            mid2.models@,
            block::spec_rows(),
            character::spec_model_rows(),
        );
        crate::registry::lemma_rows_appended_compose(
            pre.models@,
            mid2.models@,
            resources.models@,
            block::spec_rows() + character::spec_model_rows(),
            vegetation::spec_rows(),
        );
    }
    Ok(())
}

} // verus!
