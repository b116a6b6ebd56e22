use genesys::registry::{AssetRegistry, RegistryError};

#[test]
fn load_then_get_returns_same_handle() {
    let mut reg = AssetRegistry::new();
    let h = reg
        .load_model(
            String::from("block_grass"),
            String::from("models/block_grass.glb#Scene0"),
        )
        .unwrap();
    let g = reg.get_model(&String::from("block_grass")).unwrap();
    assert_eq!(h, g);
}

#[test]
fn second_load_fails_duplicate() {
    let mut reg = AssetRegistry::new();
    reg.load_model(String::from("player"), String::from("models/player.glb#Scene0"))
        .unwrap();
    let second = reg.load_model(
        String::from("player"),
        String::from("models/player.glb#Scene0"),
    );
    match second {
        Err(RegistryError::DuplicateLoad(s)) => assert_eq!(s, "player"),
        other => panic!("expected a duplicate-load fault, got {:?}", other),
    }
}

#[test]
fn get_before_load_fails_not_loaded() {
    let reg = AssetRegistry::new();
    match reg.get_model(&String::from("block_dirt")) {
        Err(RegistryError::NotLoaded(s)) => assert_eq!(s, "block_dirt"),
        other => panic!("expected a not-loaded fault, got {:?}", other),
    }
}

#[test]
fn model_and_animation_namespaces_are_disjoint() {
    let mut reg = AssetRegistry::new();
    reg.load_model(String::from("player"), String::from("models/player.glb#Scene0"))
        .unwrap();
    match reg.get_animation(&String::from("player")) {
        Err(RegistryError::NotLoaded(s)) => assert_eq!(s, "player"),
        other => panic!("expected a not-loaded fault, got {:?}", other),
    }
    reg.load_animation(
        String::from("player"),
        String::from("models/player.glb#Animation3"),
    )
    .unwrap();
    assert!(reg.get_animation(&String::from("player")).is_ok());
}

#[test]
fn each_signature_keeps_its_own_handle() {
    let mut reg = AssetRegistry::new();
    let ha = reg
        .load_model(String::from("a"), String::from("models/a.glb"))
        .unwrap();
    let hb = reg
        .load_model(String::from("b"), String::from("models/b.glb"))
        .unwrap();
    assert_ne!(ha, hb);
    assert_eq!(reg.get_model(&String::from("a")).unwrap(), ha);
    assert_eq!(reg.get_model(&String::from("b")).unwrap(), hb);
}

#[test]
fn error_reports_the_offending_signature() {
    let reg = AssetRegistry::new();
    let e = reg.get_model(&String::from("vegetation_corn")).unwrap_err();
    assert_eq!(e.signature().as_str(), "vegetation_corn");
}
