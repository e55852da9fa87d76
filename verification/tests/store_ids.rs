use lumehub::model::BlendMode;
use lumehub::store::{NewLayer, Store, StoreError, ACTIVE_SCENE_ID};

fn setup() -> (Store, String) {
    let mut store = Store::new();
    let scene = store.create_scene("scene-1".to_string(), "s").unwrap();
    (store, scene.id)
}

#[test]
fn a_layer_id_is_unique_across_scenes() {
    let (mut store, scene) = setup();
    store.add_layer("layer-1".to_string(), &scene, "fx", "all", BlendMode::Add, "{}").unwrap();
    let err = store
        .add_active_layer("layer-1".to_string(), "fx", "all", BlendMode::Add, "{}")
        .unwrap_err();
    assert_eq!(err, StoreError::Db);
    assert!(store.get_active_layers().unwrap().is_empty());
}

#[test]
fn update_layer_returns_the_row_it_wrote() {
    let (mut store, scene) = setup();
    store.add_layer("layer-0".to_string(), &scene, "fx", "all", BlendMode::Add, "{}").unwrap();
    store.add_layer("layer-1".to_string(), &scene, "fx", "all", BlendMode::Add, "{}").unwrap();
    let r = store
        .update_layer("layer-1", &scene, "zone-2", false, BlendMode::Screen, "{\"a\":1}")
        .unwrap();
    assert_eq!(r.id, "layer-1");
    assert_eq!(r.scene_id, scene);
    assert_eq!(r.zone_id, "zone-2");
    assert!(!r.enabled);
    assert!(matches!(r.blend_mode, BlendMode::Screen));
    assert_eq!(r.params, "{\"a\":1}");
    assert_eq!(r.position, 1);
    assert_eq!(store.get_layer("layer-0").unwrap().zone_id, "all");
}

#[test]
fn update_active_layer_returns_the_row_it_wrote() {
    let mut store = Store::new();
    store.add_active_layer("a".to_string(), "fx", "all", BlendMode::Add, "{}").unwrap();
    let r = store.update_active_layer("a", "z", true, BlendMode::Multiply, "{}").unwrap();
    assert_eq!(r.id, "a");
    assert_eq!(r.scene_id, ACTIVE_SCENE_ID);
    assert_eq!(r.zone_id, "z");
    assert!(matches!(r.blend_mode, BlendMode::Multiply));
}

#[test]
fn replacing_with_an_id_in_use_fails_and_changes_nothing() {
    let (mut store, scene) = setup();
    store.add_layer("taken".to_string(), &scene, "fx", "all", BlendMode::Add, "{}").unwrap();
    store.add_active_layer("old".to_string(), "fx", "all", BlendMode::Add, "{}").unwrap();
    let layers = vec![NewLayer {
        effect_id: "fx".to_string(),
        zone_id: "all".to_string(),
        blend_mode: BlendMode::Override,
        params: "{}".to_string(),
    }];
    let err = store.replace_active_layers(&layers, &["taken".to_string()]).unwrap_err();
    assert_eq!(err, StoreError::Db);
    assert_eq!(store.get_active_layers().unwrap()[0].id, "old");
    store.replace_active_layers(&layers, &["old".to_string()]).unwrap();
    assert_eq!(store.get_active_layers().unwrap()[0].id, "old");
    assert!(matches!(store.get_active_layers().unwrap()[0].blend_mode, BlendMode::Override));
}

#[test]
fn repeated_ids_in_one_copy_fail() {
    let (mut store, scene) = setup();
    store.add_active_layer("a".to_string(), "fx", "all", BlendMode::Add, "{}").unwrap();
    store.add_active_layer("b".to_string(), "fx", "all", BlendMode::Add, "{}").unwrap();
    let err = store
        .overwrite_scene_from_active(&scene, &["c".to_string(), "c".to_string()])
        .unwrap_err();
    assert_eq!(err, StoreError::Db);
    assert!(store.get_layers(&scene).unwrap().is_empty());
    store.overwrite_scene_from_active(&scene, &["c".to_string(), "d".to_string()]).unwrap();
    let copied = store.get_layers(&scene).unwrap();
    assert_eq!(copied.len(), 2);
    assert_eq!(copied[0].id, "c");
    assert_eq!(copied[1].id, "d");
}
