//! Vegetation: the optional second layer a cell grows on top of its
//! terrain block.

use vstd::prelude::*;
use vstd::string::StringExecFns;

use crate::entities::{EntityKind, GridCoordinate, SpawnedEntity};
use crate::registry::{
    lemma_rows_appended_compose, lemma_rows_appended_lookup_iff, row_at, rows_appended,
    AssetHandle, AssetRegistry, RegistryError,
};
use crate::signature::{
    derive_model_signature, lemma_model_signature_injective, spec_model_signature,
};

verus! {

/// A vegetation entity placed on the grid.
#[derive(Clone, Copy, Debug)]
pub struct Vegetation {
    pub coordinates: GridCoordinate,
    pub variant: Variant,
}

/// The closed set of vegetation variants.
#[derive(Clone, Copy, PartialEq, Eq, Structural, Debug)]
pub enum Variant {
    Bamboo,
    Corn,
    Grass,
    Tree,
}

/// One row of this class's data table.
pub struct Data {
    pub id: String,
    pub path: String,
}

pub open spec fn spec_variant_id(variant: Variant) -> Seq<char> {
    match variant {
        Variant::Bamboo => "bamboo"@,
        Variant::Corn => "corn"@,
        Variant::Grass => "grass"@,
        Variant::Tree => "tree"@,
    }
}

/// The signature a vegetation variant's model is keyed under.
pub open spec fn spec_signature(variant: Variant) -> Seq<char> {
    spec_model_signature("vegetation"@, spec_variant_id(variant))
}

/// The source path the engine's loader streams the model from.
pub open spec fn spec_source(variant: Variant) -> Seq<char> {
    match variant {
        Variant::Bamboo => "models/vegetation_bamboo.glb#Scene0"@,
        Variant::Corn => "models/vegetation_corn.glb#Scene0"@,
        Variant::Grass => "models/vegetation_grass.glb#Scene0"@,
        Variant::Tree => "models/vegetation_tree.glb#Scene0"@,
    }
}

/// The data table of this class, in load order: Grass, Tree, Bamboo, Corn.
pub open spec fn spec_rows() -> Seq<(Seq<char>, Seq<char>)> {
    seq![
        (spec_signature(Variant::Grass), spec_source(Variant::Grass)),
        (spec_signature(Variant::Tree), spec_source(Variant::Tree)),
        (spec_signature(Variant::Bamboo), spec_source(Variant::Bamboo)),
        (spec_signature(Variant::Corn), spec_source(Variant::Corn)),
    ]
}

/// No signature of this class is registered yet.
pub open spec fn none_loaded(resources: AssetRegistry) -> bool {
    &&& resources.model_handle(spec_signature(Variant::Grass)) is None
    &&& resources.model_handle(spec_signature(Variant::Tree)) is None
    &&& resources.model_handle(spec_signature(Variant::Bamboo)) is None
    &&& resources.model_handle(spec_signature(Variant::Corn)) is None
}

/// The id and source path of one vegetation variant, as one table row.
pub fn get_variant_model_data(variant: &Variant) -> (r: Data)
    ensures
        r.id@ == spec_variant_id(*variant),
        r.path@ == spec_source(*variant),
{
    match variant {
        Variant::Bamboo => Data {
            id: String::from_str("bamboo"),
            path: String::from_str("models/vegetation_bamboo.glb#Scene0"),
        },
        Variant::Corn => Data {
            id: String::from_str("corn"),
            path: String::from_str("models/vegetation_corn.glb#Scene0"),
        },
        Variant::Grass => Data {
            id: String::from_str("grass"),
            path: String::from_str("models/vegetation_grass.glb#Scene0"),
        },
        Variant::Tree => Data {
            id: String::from_str("tree"),
            path: String::from_str("models/vegetation_tree.glb#Scene0"),
        },
    }
}

/// All four vegetation signatures are pairwise distinct.
pub proof fn lemma_signatures_distinct()
    ensures
        spec_signature(Variant::Grass) != spec_signature(Variant::Tree),
        spec_signature(Variant::Grass) != spec_signature(Variant::Bamboo),
        spec_signature(Variant::Grass) != spec_signature(Variant::Corn),
        spec_signature(Variant::Tree) != spec_signature(Variant::Bamboo),
        spec_signature(Variant::Tree) != spec_signature(Variant::Corn),
        spec_signature(Variant::Bamboo) != spec_signature(Variant::Corn),
{
    reveal_strlit("vegetation");
    reveal_strlit("grass");
    reveal_strlit("tree");
    reveal_strlit("bamboo");
    reveal_strlit("corn");
    if spec_signature(Variant::Grass) == spec_signature(Variant::Tree) {
        lemma_model_signature_injective("vegetation"@, "grass"@, "vegetation"@, "tree"@);
    }
    if spec_signature(Variant::Grass) == spec_signature(Variant::Bamboo) {
        lemma_model_signature_injective("vegetation"@, "grass"@, "vegetation"@, "bamboo"@);
    }
    if spec_signature(Variant::Grass) == spec_signature(Variant::Corn) {
        lemma_model_signature_injective("vegetation"@, "grass"@, "vegetation"@, "corn"@);
    }
    if spec_signature(Variant::Tree) == spec_signature(Variant::Bamboo) {
        lemma_model_signature_injective("vegetation"@, "tree"@, "vegetation"@, "bamboo"@);
    }
    if spec_signature(Variant::Tree) == spec_signature(Variant::Corn) {
        lemma_model_signature_injective("vegetation"@, "tree"@, "vegetation"@, "corn"@);
        assert("tree"@[0] == 't');
        assert("corn"@[0] == 'c');
    }
    if spec_signature(Variant::Bamboo) == spec_signature(Variant::Corn) {
        lemma_model_signature_injective("vegetation"@, "bamboo"@, "vegetation"@, "corn"@);
    }
}

/// Loading the terrain and character rows cannot affect this class's
/// signatures.
pub proof fn lemma_none_loaded_preserved_by_startup(
    pre: AssetRegistry,
    mid1: AssetRegistry,
    mid2: AssetRegistry,
)
    requires
        rows_appended(pre.models@, mid1.models@, crate::entities::block::spec_rows()),
        rows_appended(mid1.models@, mid2.models@, crate::entities::character::spec_model_rows()),
    ensures
        none_loaded(mid2) <==> none_loaded(pre),
        mid2.model_handle(spec_signature(Variant::Grass)) == pre.model_handle(
            spec_signature(Variant::Grass),
        ),
        mid2.model_handle(spec_signature(Variant::Tree)) == pre.model_handle(
            spec_signature(Variant::Tree),
        ),
        mid2.model_handle(spec_signature(Variant::Bamboo)) == pre.model_handle(
            spec_signature(Variant::Bamboo),
        ),
        mid2.model_handle(spec_signature(Variant::Corn)) == pre.model_handle(
            spec_signature(Variant::Corn),
        ),
{
    reveal_strlit("_");
    reveal_strlit("block");
    reveal_strlit("grass");
    reveal_strlit("dirt");
    reveal_strlit("player");
    reveal_strlit("vegetation");
    reveal_strlit("tree");
    reveal_strlit("bamboo");
    reveal_strlit("corn");
    let block_rows = crate::entities::block::spec_rows();
    let character_rows = crate::entities::character::spec_model_rows();
    assert(block_rows[0].0.len() == 11);
    assert(block_rows[1].0.len() == 10);
    assert(character_rows[0].0.len() == 6);
    assert(spec_signature(Variant::Grass).len() == 16);
    assert(spec_signature(Variant::Tree).len() == 15);
    assert(spec_signature(Variant::Bamboo).len() == 17);
    assert(spec_signature(Variant::Corn).len() == 15);
    lemma_rows_appended_lookup_iff(
        pre.models@,
        mid1.models@,
        block_rows,
        spec_signature(Variant::Grass),
    );
    lemma_rows_appended_lookup_iff(
        pre.models@,
        mid1.models@,
        block_rows,
        spec_signature(Variant::Tree),
    );
    lemma_rows_appended_lookup_iff(
        pre.models@,
        mid1.models@,
        block_rows,
        spec_signature(Variant::Bamboo),
    );
    lemma_rows_appended_lookup_iff(
        pre.models@,
        mid1.models@,
        block_rows,
        spec_signature(Variant::Corn),
    );
    lemma_rows_appended_lookup_iff(
        mid1.models@,
        mid2.models@,
        character_rows,
        spec_signature(Variant::Grass),
    );
    lemma_rows_appended_lookup_iff(
        mid1.models@,
        mid2.models@,
        character_rows,
        spec_signature(Variant::Tree),
    );
    lemma_rows_appended_lookup_iff(
        mid1.models@,
        mid2.models@,
        character_rows,
        spec_signature(Variant::Bamboo),
    );
    lemma_rows_appended_lookup_iff(
        mid1.models@,
        mid2.models@,
        character_rows,
        spec_signature(Variant::Corn),
    );
}

impl Vegetation {
    pub fn new(variant: Variant, coordinates: GridCoordinate) -> (r: Self)
        ensures
            r.variant == variant,
            r.coordinates == coordinates,
    {
        Self { variant, coordinates }
    }

    /// Materializes this vegetation entity: resolves its model handle and
    /// pairs it with the entity's variant and cell.
    pub fn spawn(&self, resources: &AssetRegistry) -> (r: Result<SpawnedEntity, RegistryError>)
        ensures
            match r {
                Ok(se) => se.kind == EntityKind::Vegetation(self.variant) && se.coordinates
                    == self.coordinates && resources.model_handle(spec_signature(self.variant))
                    == Some(se.handle),
                Err(e) => e matches RegistryError::NotLoaded(t) && t@ == spec_signature(
                    self.variant,
                ) && resources.model_handle(spec_signature(self.variant)) is None,
            },
    {
        match Facade::get_model(&self.variant, resources) {
            Ok(handle) => Ok(
                SpawnedEntity {
                    kind: EntityKind::Vegetation(self.variant),
                    coordinates: self.coordinates,
                    handle,
                },
            ),
            Err(e) => Err(e),
        }
    }
}

/// The class's access path to the registry: derives the signature from the
/// table row, then loads or reads under it.
pub struct Facade {}

impl Facade {
    /// Registers one vegetation variant's model under its derived
    /// signature.
    pub fn load_model(variant: &Variant, resources: &mut AssetRegistry) -> (r: Result<
        (),
        RegistryError,
    >)
        ensures
            match r {
                Ok(_) => old(resources).model_handle(spec_signature(*variant)) is None
                    && rows_appended(
                    old(resources).models@,
                    final(resources).models@,
                    seq![(spec_signature(*variant), spec_source(*variant))],
                ) && final(resources).animations@ == old(resources).animations@,
                Err(e) => e matches RegistryError::DuplicateLoad(t) && t@ == spec_signature(
                    *variant,
                ) && old(resources).model_handle(spec_signature(*variant)) is Some
                    && *final(resources) == *old(resources),
            },
            old(resources).wf() ==> final(resources).wf(),
    {
        let ghost pre = *resources;
        let model_data = get_variant_model_data(variant);
        let signature = derive_model_signature("vegetation", model_data.id.as_str());
        match resources.load_model(signature, model_data.path) {
            Ok(_) => {
                proof {
                    assert(resources.models@.subrange(0, pre.models@.len() as int)
                        =~= pre.models@);
                    assert(row_at(
                        resources.models@,
                        pre.models@.len() as int,
                        spec_signature(*variant),
                        spec_source(*variant),
                    ));
                }
                Ok(())
            },
            Err(e) => Err(e),
        }
    }

    /// Returns the handle registered for one vegetation variant's model.
    pub fn get_model(variant: &Variant, resources: &AssetRegistry) -> (r: Result<
        AssetHandle,
        RegistryError,
    >)
        ensures
            match r {
                Ok(h) => resources.model_handle(spec_signature(*variant)) == Some(h),
                Err(e) => e matches RegistryError::NotLoaded(t) && t@ == spec_signature(*variant)
                    && resources.model_handle(spec_signature(*variant)) is None,
            },
    {
        let model_data = get_variant_model_data(variant);
        let signature = derive_model_signature("vegetation", model_data.id.as_str());
        resources.get_model(&signature)
    }
}

/// Registers this class's model table: Grass, Tree, Bamboo, Corn. Fails
/// with a duplicate-load fault naming the first signature already present.
pub fn load_assets(resources: &mut AssetRegistry) -> (r: Result<(), RegistryError>)
    ensures
        r is Ok <==> none_loaded(*old(resources)),
        r is Ok ==> rows_appended(old(resources).models@, final(resources).models@, spec_rows())
            && final(resources).animations@ == old(resources).animations@,
        r matches Err(e) ==> e matches RegistryError::DuplicateLoad(t)
            && final(resources).animations@ == old(resources).animations@ && (if old(
            resources,
        ).model_handle(
            spec_signature(Variant::Grass),
        ) is Some {
            t@ == spec_signature(Variant::Grass) && *final(resources) == *old(resources)
        } else if old(resources).model_handle(spec_signature(Variant::Tree)) is Some {
            t@ == spec_signature(Variant::Tree) && rows_appended(
                old(resources).models@,
                final(resources).models@,
                spec_rows().subrange(0, 1),
            )
        } else if old(resources).model_handle(spec_signature(Variant::Bamboo)) is Some {
            t@ == spec_signature(Variant::Bamboo) && rows_appended(
                old(resources).models@,
                final(resources).models@,
                spec_rows().subrange(0, 2),
            )
        } else {
            t@ == spec_signature(Variant::Corn) && old(resources).model_handle(
                spec_signature(Variant::Corn),
            ) is Some && rows_appended(
                old(resources).models@,
                final(resources).models@,
                spec_rows().subrange(0, 3),
            )
        }),
        old(resources).wf() ==> final(resources).wf(),
{
    let ghost pre = *resources;
    proof {
        lemma_signatures_distinct();
    }
    match Facade::load_model(&Variant::Grass, resources) {
        Err(e) => {
            return Err(e);
        },
        Ok(_) => {},
    }
    let ghost m1 = *resources;
    proof {
        assert(spec_rows().subrange(0, 1)
            =~= seq![(spec_signature(Variant::Grass), spec_source(Variant::Grass))]);
        assert(rows_appended(pre.models@, m1.models@, spec_rows().subrange(0, 1)));
        lemma_rows_appended_lookup_iff(
            pre.models@,
            m1.models@,
            spec_rows().subrange(0, 1),
            spec_signature(Variant::Tree),
        );
    }
    match Facade::load_model(&Variant::Tree, resources) {
        Err(e) => {
            return Err(e);
        },
        Ok(_) => {},
    }
    let ghost m2 = *resources;
    proof {
        lemma_rows_appended_compose(
            pre.models@,
            m1.models@,
            m2.models@,
            spec_rows().subrange(0, 1),
            seq![(spec_signature(Variant::Tree), spec_source(Variant::Tree))],
        );
        assert(spec_rows().subrange(0, 2) =~= spec_rows().subrange(0, 1)
            + seq![(spec_signature(Variant::Tree), spec_source(Variant::Tree))]);
        assert(rows_appended(pre.models@, m2.models@, spec_rows().subrange(0, 2)));
        lemma_rows_appended_lookup_iff(
            pre.models@,
            m2.models@,
            spec_rows().subrange(0, 2),
            spec_signature(Variant::Bamboo),
        );
    }
    match Facade::load_model(&Variant::Bamboo, resources) {
        Err(e) => {
            return Err(e);
        },
        Ok(_) => {},
    }
    let ghost m3 = *resources;
    proof {
        lemma_rows_appended_compose(
            pre.models@,
            m2.models@,
            m3.models@,
            spec_rows().subrange(0, 2),
            seq![(spec_signature(Variant::Bamboo), spec_source(Variant::Bamboo))],
        );
        assert(spec_rows().subrange(0, 3) =~= spec_rows().subrange(0, 2)
            + seq![(spec_signature(Variant::Bamboo), spec_source(Variant::Bamboo))]);
        assert(rows_appended(pre.models@, m3.models@, spec_rows().subrange(0, 3)));
        lemma_rows_appended_lookup_iff(
            pre.models@,
            m3.models@,
            spec_rows().subrange(0, 3),
            spec_signature(Variant::Corn),
        );
    }
    match Facade::load_model(&Variant::Corn, resources) {
        Err(e) => {
            return Err(e);
        },
        Ok(_) => {},
    }
    proof {
        lemma_rows_appended_compose(
            pre.models@,
            m3.models@,
            resources.models@,
            spec_rows().subrange(0, 3),
            seq![(spec_signature(Variant::Corn), spec_source(Variant::Corn))],
        );
        assert(spec_rows() =~= spec_rows().subrange(0, 3)
            + seq![(spec_signature(Variant::Corn), spec_source(Variant::Corn))]);
    }
    Ok(())
}

} // verus!
