//! Terrain blocks: the ground layer of every grid cell.

use vstd::prelude::*;
use vstd::string::StringExecFns;

use crate::entities::{EntityKind, GridCoordinate, SpawnedEntity};
use crate::registry::{
    lemma_lookup_push, row_at, rows_appended, Asset, AssetHandle, AssetRegistry, RegistryError,
};
use crate::signature::{
    derive_model_signature, lemma_model_signature_injective, spec_model_signature,
};

verus! {

/// A terrain block placed on the grid.
#[derive(Clone, Copy, Debug)]
pub struct Entity {
    pub coordinates: GridCoordinate,
    pub variant: Variant,
}

/// The closed set of terrain variants.
#[derive(Clone, Copy, PartialEq, Eq, Structural, Debug)]
pub enum Variant {
    Grass,
    Dirt,
}

pub open spec fn spec_variant_id(variant: Variant) -> Seq<char> {
    match variant {
        Variant::Grass => "grass"@,
        Variant::Dirt => "dirt"@,
    }
}

/// The signature a terrain variant's model is keyed under.
pub open spec fn spec_signature(variant: Variant) -> Seq<char> {
    spec_model_signature("block"@, spec_variant_id(variant))
}

/// The source path the engine's loader streams the model from.
pub open spec fn spec_source(variant: Variant) -> Seq<char> {
    match variant {
        Variant::Grass => "models/block_grass.glb#Scene0"@,
        Variant::Dirt => "models/block_dirt.glb#Scene0"@,
    }
}

/// The data table of this class: one `(signature, source)` row per variant,
/// in load order.
pub open spec fn spec_rows() -> Seq<(Seq<char>, Seq<char>)> {
    seq![
        (spec_signature(Variant::Grass), spec_source(Variant::Grass)),
        (spec_signature(Variant::Dirt), spec_source(Variant::Dirt)),
    ]
}

/// No signature of this class is registered yet.
pub open spec fn none_loaded(resources: AssetRegistry) -> bool {
    &&& resources.model_handle(spec_signature(Variant::Grass)) is None
    &&& resources.model_handle(spec_signature(Variant::Dirt)) is None
}

pub fn variant_id(variant: &Variant) -> (r: &'static str)
    ensures
        r@ == spec_variant_id(*variant),
{
    match variant {
        Variant::Grass => "grass",
        Variant::Dirt => "dirt",
    }
}

pub fn model_signature(variant: &Variant) -> (r: String)
    ensures
        r@ == spec_signature(*variant),
{
    derive_model_signature("block", variant_id(variant))
}

pub fn model_source(variant: &Variant) -> (r: String)
    ensures
        r@ == spec_source(*variant),
{
    match variant {
        Variant::Grass => String::from_str("models/block_grass.glb#Scene0"),
        Variant::Dirt => String::from_str("models/block_dirt.glb#Scene0"),
    }
}

/// The two terrain signatures never collide.
pub proof fn lemma_signatures_distinct()
    ensures
        spec_signature(Variant::Grass) != spec_signature(Variant::Dirt),
{
    reveal_strlit("block");
    reveal_strlit("grass");
    reveal_strlit("dirt");
    if spec_signature(Variant::Grass) == spec_signature(Variant::Dirt) {
        lemma_model_signature_injective("block"@, "grass"@, "block"@, "dirt"@);
        assert("grass"@.len() == 5);
        assert("dirt"@.len() == 4);
    }
}

/// Returns the handle registered for a terrain variant's model.
pub fn get_model(variant: &Variant, resources: &AssetRegistry) -> (r: Result<
    AssetHandle,
    RegistryError,
>)
    ensures
        match r {
            Ok(h) => resources.model_handle(spec_signature(*variant)) == Some(h),
            Err(e) => e matches RegistryError::NotLoaded(t) && t@ == spec_signature(*variant)
                && resources.model_handle(spec_signature(*variant)) is None,
        },
{
    resources.get_model(&model_signature(variant))
}

/// Materializes a terrain entity: resolves its model handle and pairs it
/// with the entity's variant and cell.
pub fn spawn(resources: &AssetRegistry, entity: Entity) -> (r: Result<
    SpawnedEntity,
    RegistryError,
>)
    ensures
        match r {
            Ok(se) => se.kind == EntityKind::Block(entity.variant) && se.coordinates
                == entity.coordinates && resources.model_handle(spec_signature(entity.variant))
                == Some(se.handle),
            Err(e) => e matches RegistryError::NotLoaded(t) && t@ == spec_signature(
                entity.variant,
            ) && resources.model_handle(spec_signature(entity.variant)) is None,
        },
{
    match get_model(&entity.variant, resources) {
        Ok(handle) => Ok(
            SpawnedEntity {
                kind: EntityKind::Block(entity.variant),
                coordinates: entity.coordinates,
                handle,
            },
        ),
        Err(e) => Err(e),
    }
}

/// Registers this class's model table: Grass, then Dirt. Fails with a
/// duplicate-load fault naming the first signature already present.
pub fn load_assets(resources: &mut AssetRegistry) -> (r: Result<(), RegistryError>)
    ensures
        r is Ok <==> none_loaded(*old(resources)),
        r is Ok ==> rows_appended(old(resources).models@, final(resources).models@, spec_rows())
            && final(resources).animations@ == old(resources).animations@,
        r matches Err(e) ==> e matches RegistryError::DuplicateLoad(t)
            && final(resources).animations@ == old(resources).animations@ && (if old(
            resources,
        ).model_handle(
            spec_signature(Variant::Grass),
        ) is Some {
            t@ == spec_signature(Variant::Grass) && *final(resources) == *old(resources)
        } else {
            t@ == spec_signature(Variant::Dirt) && old(resources).model_handle(
                spec_signature(Variant::Dirt),
            ) is Some && rows_appended(
                old(resources).models@,
                final(resources).models@,
                spec_rows().subrange(0, 1),
            )
        }),
        old(resources).wf() ==> final(resources).wf(),
{
    let ghost pre = *resources;
    let sig_grass = model_signature(&Variant::Grass);
    let src_grass = model_source(&Variant::Grass);
    let r1 = resources.load_model(sig_grass, src_grass);
    let h1 = match r1 {
        Err(e) => {
            return Err(e);
        },
        Ok(h) => h,
    };
    let ghost a1 = Asset { signature: sig_grass, source: src_grass, handle: h1 };
    let ghost mid = *resources;
    proof {
        lemma_signatures_distinct();
        lemma_lookup_push(pre.models@, a1, spec_signature(Variant::Dirt));
        assert(mid.models@.subrange(0, pre.models@.len() as int) =~= pre.models@);
        assert(row_at(
            mid.models@,
            pre.models@.len() as int,
            spec_signature(Variant::Grass),
            spec_source(Variant::Grass),
        ));
        assert(spec_rows().subrange(0, 1)[0] == spec_rows()[0]);
        assert(rows_appended(pre.models@, mid.models@, spec_rows().subrange(0, 1)));
    }
    let sig_dirt = model_signature(&Variant::Dirt);
    let src_dirt = model_source(&Variant::Dirt);
    let r2 = resources.load_model(sig_dirt, src_dirt);
    let h2 = match r2 {
        Err(e) => {
            return Err(e);
        },
        Ok(h) => h,
    };
    proof {
        let a2 = Asset { signature: sig_dirt, source: src_dirt, handle: h2 };
        assert(resources.models@ == mid.models@.push(a2));
        assert(resources.models@.subrange(0, pre.models@.len() as int) =~= pre.models@);
        assert(resources.models@[pre.models@.len() as int] == a1);
        assert(resources.models@[pre.models@.len() as int + 1] == a2);
        assert forall|k: int| 0 <= k < spec_rows().len() implies #[trigger] row_at(
            resources.models@,
            pre.models@.len() + k,
            spec_rows()[k].0,
            spec_rows()[k].1,
        ) by {
            if k == 0 {
                assert(spec_rows()[0] == (
                    spec_signature(Variant::Grass),
                    spec_source(Variant::Grass),
                ));
            } else {
                assert(spec_rows()[1] == (
                    spec_signature(Variant::Dirt),
                    spec_source(Variant::Dirt),
                ));
            }
        }
        lemma_lookup_push(mid.models@, a2, spec_signature(Variant::Grass));
    }
    Ok(())
}

} // verus!
