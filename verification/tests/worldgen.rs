use genesys::entities::{block, load_assets, vegetation, EntityKind};
use genesys::registry::{AssetRegistry, RegistryError};
use genesys::world::{decide_cell, spawn_world};

fn loaded_registry() -> AssetRegistry {
    let mut reg = AssetRegistry::new();
    load_assets(&mut reg).unwrap();
    reg
}

#[test]
fn decision_tree_follows_the_stated_branches() {
    let d = decide_cell(true, true, false, false);
    assert_eq!(d.terrain, block::Variant::Dirt);
    assert_eq!(d.vegetation, Some(vegetation::Variant::Corn));

    let d = decide_cell(true, false, true, false);
    assert_eq!(d.terrain, block::Variant::Dirt);
    assert_eq!(d.vegetation, Some(vegetation::Variant::Tree));

    let d = decide_cell(true, false, false, false);
    assert_eq!(d.terrain, block::Variant::Dirt);
    assert_eq!(d.vegetation, Some(vegetation::Variant::Grass));

    let d = decide_cell(false, false, false, true);
    assert_eq!(d.terrain, block::Variant::Grass);
    assert_eq!(d.vegetation, Some(vegetation::Variant::Grass));

    let d = decide_cell(false, false, false, false);
    assert_eq!(d.terrain, block::Variant::Grass);
    assert_eq!(d.vegetation, None);
}

#[test]
fn every_cell_gets_exactly_one_terrain_block() {
    let reg = loaded_registry();
    let world = spawn_world(&reg, 3).unwrap();
    for x in -3..3 {
        for z in -3..3 {
            let hits = world
                .iter()
                .filter(|se| {
                    matches!(se.kind, EntityKind::Block(_))
                        && se.coordinates.x == x
                        && se.coordinates.y == 0
                        && se.coordinates.z == z
                })
                .count();
            assert_eq!(hits, 1, "cell ({}, {}) has {} terrain blocks", x, z, hits);
        }
    }
    for se in world.iter() {
        assert!(se.coordinates.x >= -3 && se.coordinates.x < 3);
        assert!(se.coordinates.z >= -3 && se.coordinates.z < 3);
    }
}

#[test]
fn vegetation_sits_one_above_its_terrain_block() {
    let reg = loaded_registry();
    let world = spawn_world(&reg, 4).unwrap();
    for se in world.iter() {
        if let EntityKind::Vegetation(v) = se.kind {
            assert_eq!(se.coordinates.y, 1);
            let under = world.iter().find(|t| {
                matches!(t.kind, EntityKind::Block(_))
                    && t.coordinates.x == se.coordinates.x
                    && t.coordinates.y == 0
                    && t.coordinates.z == se.coordinates.z
            });
            let under = under.expect("vegetation without a terrain block below");
            match under.kind {
                EntityKind::Block(block::Variant::Grass) => {
                    assert_eq!(v, vegetation::Variant::Grass);
                }
                EntityKind::Block(block::Variant::Dirt) => {
                    assert!(v != vegetation::Variant::Bamboo);
                }
                _ => unreachable!(),
            }
        }
    }
}

#[test]
fn placements_use_the_registered_handles() {
    let reg = loaded_registry();
    let world = spawn_world(&reg, 2).unwrap();
    for se in world.iter() {
        match se.kind {
            EntityKind::Block(v) => {
                assert_eq!(se.handle, block::get_model(&v, &reg).unwrap());
            }
            EntityKind::Vegetation(v) => {
                assert_eq!(se.handle, vegetation::Facade::get_model(&v, &reg).unwrap());
            }
            EntityKind::Character(_) => panic!("world assembly spawned a character"),
        }
    }
}

#[test]
fn assembly_without_loaded_assets_is_a_fatal_not_loaded_fault() {
    let reg = AssetRegistry::new();
    match spawn_world(&reg, 1) {
        Err(RegistryError::NotLoaded(_)) => {}
        other => panic!("expected a not-loaded fault, got {:?}", other),
    }
}

#[test]
fn terrain_ratio_converges_to_the_stated_constant() {
    let reg = loaded_registry();
    let world = spawn_world(&reg, 40).unwrap();
    let cells = 80 * 80;
    let dirt = world
        .iter()
        .filter(|se| matches!(se.kind, EntityKind::Block(block::Variant::Dirt)))
        .count();
    let ratio = dirt as f64 / cells as f64;
    assert!(
        ratio > 0.25 && ratio < 0.35,
        "Dirt ratio {} strayed far from the 0.3 the tree draws at",
        ratio
    );
}

#[test]
fn vegetation_follows_the_nested_probabilities() {
    let reg = loaded_registry();
    let world = spawn_world(&reg, 40).unwrap();
    let dirt = world
        .iter()
        .filter(|se| matches!(se.kind, EntityKind::Block(block::Variant::Dirt)))
        .count();
    let corn = world
        .iter()
        .filter(|se| matches!(se.kind, EntityKind::Vegetation(vegetation::Variant::Corn)))
        .count();
    // Every Dirt cell grows something; about half of them corn.
    let ratio = corn as f64 / dirt as f64;
    assert!(
        ratio > 0.4 && ratio < 0.6,
        "corn share {} strayed far from the 0.5 the tree draws at",
        ratio
    );
    let bamboo = world
        .iter()
        .filter(|se| matches!(se.kind, EntityKind::Vegetation(vegetation::Variant::Bamboo)))
        .count();
    assert_eq!(bamboo, 0, "the decision tree never places bamboo");
}
