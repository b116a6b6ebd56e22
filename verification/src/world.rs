//! One-shot stochastic assembly of the world grid.
//!
//! For every cell of a square grid the decision tree below draws Bernoulli
//! variables and places one terrain block, plus at most one vegetation
//! entity on top. The branch nesting and the literal probability constants
//! are observable behavior: a draw at 3/10 picks the Dirt branch; under
//! Dirt, a draw at 1/2 puts corn on top, otherwise a draw at 1/20 puts a
//! tree, otherwise grass; under the Grass branch, a draw at 2/5 puts grass
//! on top, otherwise the cell stays bare.

use vstd::prelude::*;

use rand::Rng;

use crate::entities::{
    block, vegetation, EntityKind, GridCoordinate, SpawnedEntity,
};
use crate::registry::{AssetRegistry, RegistryError};

verus! {

/// Numerator and denominator of each branch's probability.
pub const DIRT_NUMERATOR: u32 = 3;

pub const DIRT_DENOMINATOR: u32 = 10;

pub const CORN_NUMERATOR: u32 = 1;

pub const CORN_DENOMINATOR: u32 = 2;

pub const TREE_NUMERATOR: u32 = 1;

pub const TREE_DENOMINATOR: u32 = 20;

pub const GRASS_NUMERATOR: u32 = 2;

pub const GRASS_DENOMINATOR: u32 = 5;

/// What one cell's decision tree chose: the terrain variant, and at most
/// one vegetation variant on top of it.
#[derive(Clone, Copy, PartialEq, Eq, Debug)]
pub struct CellDecision {
    pub terrain: block::Variant,
    pub vegetation: Option<vegetation::Variant>,
}

/// The cell decision tree as a pure function of its four draws. The corn
/// and tree draws matter only in the Dirt branch, the grass draw only in
/// the Grass branch, mirroring which draws are made at all.
pub open spec fn spec_decide_cell(
    terrain_draw: bool,
    corn_draw: bool,
    tree_draw: bool,
    grass_draw: bool,
) -> CellDecision {
    if terrain_draw {
        CellDecision {
            terrain: block::Variant::Dirt,
            vegetation: Some(
                if corn_draw {
                    vegetation::Variant::Corn
                } else if tree_draw {
                    vegetation::Variant::Tree
                } else {
                    vegetation::Variant::Grass
                },
            ),
        }
    } else {
        CellDecision {
            terrain: block::Variant::Grass,
            vegetation: if grass_draw {
                Some(vegetation::Variant::Grass)
            } else {
                None
            },
        }
    }
}

/// Decides one cell from the outcomes of its Bernoulli draws.
pub fn decide_cell(terrain_draw: bool, corn_draw: bool, tree_draw: bool, grass_draw: bool) -> (r:
    CellDecision)
    ensures
        r == spec_decide_cell(terrain_draw, corn_draw, tree_draw, grass_draw),
{
    if terrain_draw {
        CellDecision {
            terrain: block::Variant::Dirt,
            vegetation: Some(
                if corn_draw {
                    vegetation::Variant::Corn
                } else if tree_draw {
                    vegetation::Variant::Tree
                } else {
                    vegetation::Variant::Grass
                },
            ),
        }
    } else {
        CellDecision {
            terrain: block::Variant::Grass,
            vegetation: if grass_draw {
                Some(vegetation::Variant::Grass)
            } else {
                None
            },
        }
    }
}

/// Relies on rand::Rng::gen_ratio on rand::thread_rng(): returns true with
/// probability numerator/denominator; always false at numerator 0 and
/// always true at numerator == denominator; panics only when denominator
/// is 0 or numerator exceeds it, which the precondition rules out. The
/// thread RNG itself can abort the process if the operating system's
/// entropy source fails at its first use — an environmental failure on a
/// par with running out of memory, not a function of the inputs.
#[verifier::external_body]
fn bernoulli(numerator: u32, denominator: u32) -> (r: bool)
    requires
        0 < denominator,
        numerator <= denominator,
    ensures
        numerator == 0 ==> !r,
        numerator == denominator ==> r,
{
    rand::thread_rng().gen_ratio(numerator, denominator)
}

/// Which vegetation may stand on which terrain: everything the Dirt
/// branch can choose, but only grass on a Grass block.
pub open spec fn vegetation_allowed(terrain: block::Variant, veg: vegetation::Variant) -> bool {
    match terrain {
        block::Variant::Dirt => veg == vegetation::Variant::Corn || veg
            == vegetation::Variant::Tree || veg == vegetation::Variant::Grass,
        block::Variant::Grass => veg == vegetation::Variant::Grass,
    }
}

/// Entry `j` is the terrain block of cell `(x, z)`.
pub open spec fn terrain_at(world: Seq<SpawnedEntity>, j: int, x: int, z: int) -> bool {
    &&& 0 <= j < world.len()
    &&& world[j].kind is Block
    &&& world[j].coordinates.x == x
    &&& world[j].coordinates.y == 0
    &&& world[j].coordinates.z == z
}

/// Cell `(x, z)` got its terrain block.
pub open spec fn has_terrain_at(world: Seq<SpawnedEntity>, x: int, z: int) -> bool {
    exists|j: int| #[trigger] terrain_at(world, j, x, z)
}

/// Entry `j` is the terrain block directly under vegetation entry `i`,
/// carrying a variant that the decision tree can put that vegetation on.
pub open spec fn supported_by(world: Seq<SpawnedEntity>, i: int, j: int) -> bool {
    &&& 0 <= j < world.len()
    &&& 0 <= i < world.len()
    &&& world[i].kind matches EntityKind::Vegetation(v) && world[j].kind matches EntityKind::Block(
        tv,
    ) && vegetation_allowed(tv, v)
    &&& world[j].coordinates.x == world[i].coordinates.x
    &&& world[j].coordinates.y == 0
    &&& world[j].coordinates.z == world[i].coordinates.z
}

/// What world assembly guarantees of every single entry: its coordinates
/// sit inside the grid, its handle is exactly the one the registry holds
/// for its variant, terrain lies at height 0, and vegetation lies at
/// height 1 directly above an earlier, compatible terrain block.
pub open spec fn placed_entity_ok(
    world: Seq<SpawnedEntity>,
    i: int,
    resources: AssetRegistry,
    half_extent: i32,
) -> bool {
    0 <= i < world.len() ==> {
        let se = world[i];
        &&& -half_extent <= se.coordinates.x < half_extent
        &&& -half_extent <= se.coordinates.z < half_extent
        &&& match se.kind {
            EntityKind::Block(v) => se.coordinates.y == 0 && resources.model_handle(
                block::spec_signature(v),
            ) == Some(se.handle),
            EntityKind::Vegetation(v) => se.coordinates.y == 1 && resources.model_handle(
                vegetation::spec_signature(v),
            ) == Some(se.handle) && exists|j: int| j < i && #[trigger] supported_by(world, i, j),
            EntityKind::Character(_) => false,
        }
    }
}

/// No two entries occupy the same spot.
pub open spec fn distinct_coordinates(world: Seq<SpawnedEntity>) -> bool {
    forall|i: int, j: int|
        0 <= i < j < world.len() ==> !(world[i].coordinates == world[j].coordinates)
}

/// The full contract of world assembly: every entry is well placed, no
/// spot is used twice, and every cell of the grid got its terrain block.
pub open spec fn world_complete(
    world: Seq<SpawnedEntity>,
    resources: AssetRegistry,
    half_extent: i32,
) -> bool {
    &&& forall|i: int| #[trigger] placed_entity_ok(world, i, resources, half_extent)
    &&& distinct_coordinates(world)
    &&& forall|x: int, z: int|
        -half_extent <= x < half_extent && -half_extent <= z < half_extent ==> has_terrain_at(
            world,
            x,
            z,
        )
}

/// One of the signatures world assembly resolves is not registered.
pub open spec fn missing_world_signature(resources: AssetRegistry, t: Seq<char>) -> bool {
    &&& resources.model_handle(t) is None
    &&& (t == block::spec_signature(block::Variant::Grass) || t == block::spec_signature(
        block::Variant::Dirt,
    ) || t == vegetation::spec_signature(vegetation::Variant::Grass) || t
        == vegetation::spec_signature(vegetation::Variant::Tree) || t == vegetation::spec_signature(
        vegetation::Variant::Corn,
    ))
}

/// Law: once the startup load phase has appended the combined model table,
/// every signature world assembly resolves is registered, so assembly run
/// strictly after a clean load can never hit the fatal not-loaded fault —
/// a miss always means the load phase and the variant tables drifted
/// apart.
pub proof fn lemma_startup_resolves_world_signatures(pre: AssetRegistry, post: AssetRegistry)
    requires
        crate::registry::rows_appended(
            pre.models@,
            post.models@,
            crate::entities::spec_model_rows(),
        ),
    ensures
        forall|t: Seq<char>| !missing_world_signature(post, t),
{
    let rows = crate::entities::spec_model_rows();
    assert(rows[0] == block::spec_rows()[0]);
    assert(rows[1] == block::spec_rows()[1]);
    assert(rows[3] == vegetation::spec_rows()[0]);
    assert(rows[4] == vegetation::spec_rows()[1]);
    assert(rows[6] == vegetation::spec_rows()[3]);
    crate::registry::lemma_rows_appended_resolves(pre.models@, post.models@, rows, 0);
    crate::registry::lemma_rows_appended_resolves(pre.models@, post.models@, rows, 1);
    crate::registry::lemma_rows_appended_resolves(pre.models@, post.models@, rows, 3);
    crate::registry::lemma_rows_appended_resolves(pre.models@, post.models@, rows, 4);
    crate::registry::lemma_rows_appended_resolves(pre.models@, post.models@, rows, 6);
}

/// Every entry of the world the loop below has built so far lies in a cell
/// strictly before `(x, z)` in walking order.
pub open spec fn entries_before(world: Seq<SpawnedEntity>, x: int, z: int) -> bool {
    forall|i: int|
        0 <= i < world.len() ==> (#[trigger] world[i]).coordinates.x < x || (world[i].coordinates.x
            == x && world[i].coordinates.z < z)
}

/// Assembles the whole grid once, walking every cell `(x, z)` of the
/// square of the given half-extent: one Bernoulli decision tree per cell,
/// one terrain block per cell, at most one vegetation entity on top. Every
/// placement resolves its handle through the registry; an unregistered
/// signature is a fatal startup-order fault reported as not-loaded.
pub fn spawn_world(resources: &AssetRegistry, half_extent: i32) -> (r: Result<
    Vec<SpawnedEntity>,
    RegistryError,
>)
    requires
        0 <= half_extent <= 16384,
    ensures
        match r {
            Ok(world) => world_complete(world@, *resources, half_extent),
            Err(e) => e matches RegistryError::NotLoaded(t) && missing_world_signature(
                *resources,
                t@,
            ),
        },
{
    let mut world: Vec<SpawnedEntity> = Vec::new();
    let mut x: i32 = -half_extent;
    while x < half_extent
        invariant
            0 <= half_extent <= 16384,
            -half_extent <= x <= half_extent,
            forall|i: int| #[trigger] placed_entity_ok(world@, i, *resources, half_extent),
            distinct_coordinates(world@),
            entries_before(world@, x as int, -(half_extent as int)),
            forall|cx: int, cz: int|
                -half_extent <= cx < x && -half_extent <= cz < half_extent ==> has_terrain_at(
                    world@,
                    cx,
                    cz,
                ),
        decreases half_extent - x,
    {
        let mut z: i32 = -half_extent;
        while z < half_extent
            invariant
                0 <= half_extent <= 16384,
                -half_extent <= x < half_extent,
                -half_extent <= z <= half_extent,
                forall|i: int| #[trigger] placed_entity_ok(world@, i, *resources, half_extent),
                distinct_coordinates(world@),
                entries_before(world@, x as int, z as int),
                forall|cx: int, cz: int|
                    -half_extent <= cx < x && -half_extent <= cz < half_extent ==> has_terrain_at(
                        world@,
                        cx,
                        cz,
                    ),
                forall|cz: int|
                    -half_extent <= cz < z ==> has_terrain_at(world@, x as int, cz),
            decreases half_extent - z,
        {
            let ghost before = world@;
            let terrain_draw = bernoulli(DIRT_NUMERATOR, DIRT_DENOMINATOR);
            let decision = if terrain_draw {
                let corn_draw = bernoulli(CORN_NUMERATOR, CORN_DENOMINATOR);
                let tree_draw = if corn_draw {
                    false
                } else {
                    bernoulli(TREE_NUMERATOR, TREE_DENOMINATOR)
                };
                decide_cell(true, corn_draw, tree_draw, false)
            } else {
                let grass_draw = bernoulli(GRASS_NUMERATOR, GRASS_DENOMINATOR);
                decide_cell(false, false, false, grass_draw)
            };
            let terrain = match block::spawn(
                resources,
                block::Entity {
                    coordinates: GridCoordinate { x, y: 0, z },
                    variant: decision.terrain,
                },
            ) {
                Ok(se) => se,
                Err(e) => {
                    return Err(e);
                },
            };
            world.push(terrain);
            proof {
                assert(terrain_at(world@, before.len() as int, x as int, z as int));
                assert forall|i: int| #[trigger] placed_entity_ok(
                    world@,
                    i,
                    *resources,
                    half_extent,
                ) by {
                    if 0 <= i < before.len() {
                        assert(placed_entity_ok(before, i, *resources, half_extent));
                        if before[i].kind is Vegetation {
                            let j = choose|j: int| j < i && #[trigger] supported_by(before, i, j);
                            assert(supported_by(world@, i, j));
                        }
                    }
                }
            }
            match decision.vegetation {
                Some(veg_variant) => {
                    let veg = vegetation::Vegetation::new(
                        veg_variant,
                        GridCoordinate { x, y: 1, z },
                    );
                    let spawned = match veg.spawn(resources) {
                        Ok(se) => se,
                        Err(e) => {
                            return Err(e);
                        },
                    };
                    let ghost with_terrain = world@;
                    world.push(spawned);
                    proof {
                        assert(terrain_at(world@, before.len() as int, x as int, z as int));
                        assert(supported_by(
                            world@,
                            with_terrain.len() as int,
                            before.len() as int,
                        ));
                        assert forall|i: int| #[trigger] placed_entity_ok(
                            world@,
                            i,
                            *resources,
                            half_extent,
                        ) by {
                            if 0 <= i < with_terrain.len() {
                                assert(placed_entity_ok(
                                    with_terrain,
                                    i,
                                    *resources,
                                    half_extent,
                                ));
                                if with_terrain[i].kind is Vegetation {
                                    let j = choose|j: int|
                                        j < i && #[trigger] supported_by(with_terrain, i, j);
                                    assert(supported_by(world@, i, j));
                                }
                            }
                        }
                    }
                },
                None => {},
            }
            proof {
                assert forall|cz: int| -half_extent <= cz < z + 1 implies has_terrain_at(
                    world@,
                    x as int,
                    cz,
                ) by {
                    if cz < z {
                        assert(has_terrain_at(before, x as int, cz));
                        let j = choose|j: int| #[trigger] terrain_at(before, j, x as int, cz);
                        assert(terrain_at(world@, j, x as int, cz));
                    } else {
                        assert(terrain_at(world@, before.len() as int, x as int, z as int));
                    }
                }
                assert forall|cx: int, cz: int|
                    -half_extent <= cx < x && -half_extent <= cz < half_extent implies has_terrain_at(
                    world@,
                    cx,
                    cz,
                ) by {
                    assert(has_terrain_at(before, cx, cz));
                    let j = choose|j: int| #[trigger] terrain_at(before, j, cx, cz);
                    assert(terrain_at(world@, j, cx, cz));
                }
            }
            z = z + 1;
        }
        x = x + 1;
    }
    Ok(world)
}

} // verus!
