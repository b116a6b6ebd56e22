use genesys::entities::{block, character, vegetation};
use genesys::signature::{derive_animation_signature, derive_model_signature};

#[test]
fn block_signatures_follow_the_class_prefix_format() {
    assert_eq!(block::model_signature(&block::Variant::Grass), "block_grass");
    assert_eq!(block::model_signature(&block::Variant::Dirt), "block_dirt");
}

#[test]
fn block_sources_point_into_the_model_table() {
    assert_eq!(
        block::model_source(&block::Variant::Grass),
        "models/block_grass.glb#Scene0"
    );
    assert_eq!(
        block::model_source(&block::Variant::Dirt),
        "models/block_dirt.glb#Scene0"
    );
}

#[test]
fn character_clip_signatures_nest_on_the_model_signature() {
    assert_eq!(
        character::model_signature(&character::Variant::Player),
        "player"
    );
    assert_eq!(
        character::clip_signature(&character::Variant::Player, &character::Animation::Idle),
        "player_idle"
    );
    assert_eq!(
        character::clip_signature(&character::Variant::Player, &character::Animation::Walk),
        "player_walk"
    );
}

#[test]
fn derivation_joins_class_and_id_with_one_separator() {
    assert_eq!(derive_model_signature("vegetation", "corn"), "vegetation_corn");
    assert_eq!(derive_model_signature("block", "dirt"), "block_dirt");
    assert_eq!(derive_animation_signature("player", "walk"), "player_walk");
}

#[test]
fn vegetation_table_rows_carry_id_and_path() {
    let row = vegetation::get_variant_model_data(&vegetation::Variant::Corn);
    assert_eq!(row.id, "corn");
    assert_eq!(row.path, "models/vegetation_corn.glb#Scene0");
    let row = vegetation::get_variant_model_data(&vegetation::Variant::Bamboo);
    assert_eq!(row.id, "bamboo");
    assert_eq!(row.path, "models/vegetation_bamboo.glb#Scene0");
    let row = vegetation::get_variant_model_data(&vegetation::Variant::Grass);
    assert_eq!(row.id, "grass");
    assert_eq!(row.path, "models/vegetation_grass.glb#Scene0");
    let row = vegetation::get_variant_model_data(&vegetation::Variant::Tree);
    assert_eq!(row.id, "tree");
    assert_eq!(row.path, "models/vegetation_tree.glb#Scene0");
}

#[test]
fn all_model_signatures_are_unique() {
    let mut sigs: Vec<String> = vec![
        block::model_signature(&block::Variant::Grass),
        block::model_signature(&block::Variant::Dirt),
        character::model_signature(&character::Variant::Player),
        derive_model_signature("vegetation", "grass"),
        derive_model_signature("vegetation", "tree"),
        derive_model_signature("vegetation", "bamboo"),
        derive_model_signature("vegetation", "corn"),
    ];
    sigs.sort();
    let before = sigs.len();
    sigs.dedup();
    assert_eq!(sigs.len(), before);
}
