use lumehub::model::BlendMode;
use lumehub::store::{Store, StoreError, ACTIVE_SCENE_ID};

fn new_id() -> String {
    uuid::Uuid::new_v4().to_string()
}

const SPEED: &str = r#"{"speed":2.0}"#;

fn setup() -> (Store, String, String, String) {
    let mut store = Store::new();
    let effect = store.create_effect(new_id(), "fx", "code", "[]").unwrap();
    let zone = store.create_zone(new_id(), "z", 0, 10, 4).unwrap();
    let scene = store.create_scene(new_id(), "s").unwrap();
    (store, effect.id, zone.id, scene.id)
}

#[test]
fn add_and_get() {
    let (mut store, effect, zone, scene) = setup();
    let l0 = store.add_layer(new_id(), &scene, &effect, &zone, BlendMode::Override, SPEED).unwrap();
    let l1 = store.add_layer(new_id(), &scene, &effect, &zone, BlendMode::Add, "{}").unwrap();

    assert_eq!(l0.position, 0);
    assert_eq!(l1.position, 1);
    assert!(matches!(l0.blend_mode, BlendMode::Override));
    assert!(matches!(l1.blend_mode, BlendMode::Add));
    assert_eq!(l0.params, SPEED);
    assert!(l0.enabled);

    let layers = store.get_layers(&scene).unwrap();
    assert_eq!(layers.len(), 2);
    assert_eq!(layers[0].id, l0.id);
    assert_eq!(layers[1].id, l1.id);
}

#[test]
fn layers_update_layer() {
    let (mut store, effect, zone, scene) = setup();
    let layer = store.add_layer(new_id(), &scene, &effect, &zone, BlendMode::Override, "{}").unwrap();
    let updated =
        store.update_layer(&layer.id, &scene, &zone, false, BlendMode::Screen, SPEED).unwrap();
    assert!(!updated.enabled);
    assert!(matches!(updated.blend_mode, BlendMode::Screen));
    assert_eq!(updated.params, SPEED);
}

#[test]
fn layers_remove_layer() {
    let (mut store, effect, zone, scene) = setup();
    let layer = store.add_layer(new_id(), &scene, &effect, &zone, BlendMode::Override, "{}").unwrap();
    store.remove_layer(&layer.id, &scene).unwrap();
    let layers = store.get_layers(&scene).unwrap();
    assert!(layers.is_empty());
}

#[test]
fn layers_reorder_layers() {
    let (mut store, effect, zone, scene) = setup();
    let l0 = store.add_layer(new_id(), &scene, &effect, &zone, BlendMode::Override, "{}").unwrap();
    let l1 = store.add_layer(new_id(), &scene, &effect, &zone, BlendMode::Override, "{}").unwrap();
    let l2 = store.add_layer(new_id(), &scene, &effect, &zone, BlendMode::Override, "{}").unwrap();

    store.reorder_layers(&scene, &[l2.id.clone(), l1.id.clone(), l0.id.clone()]).unwrap();

    let layers = store.get_layers(&scene).unwrap();
    assert_eq!(layers[0].id, l2.id);
    assert_eq!(layers[1].id, l1.id);
    assert_eq!(layers[2].id, l0.id);
    assert_eq!(layers[0].position, 0);
    assert_eq!(layers[2].position, 2);
}

#[test]
fn layers_deleting_scene_cascades_to_layers() {
    let (mut store, effect, zone, scene) = setup();
    store.add_layer(new_id(), &scene, &effect, &zone, BlendMode::Override, "{}").unwrap();
    store.delete_scene(&scene).unwrap();
    let layers = store.get_layers(&scene).unwrap();
    assert!(layers.is_empty());
}

#[test]
fn add_layer_to_missing_scene_fails() {
    let (mut store, effect, zone, _scene) = setup();
    let err = store.add_layer(new_id(), "no-such-scene", &effect, &zone, BlendMode::Override, "{}").unwrap_err();
    assert_eq!(err, StoreError::Db);
}

#[test]
fn update_or_remove_unknown_layer_is_not_found() {
    let (mut store, _effect, zone, scene) = setup();
    let err = store.update_layer("nope", &scene, &zone, true, BlendMode::Add, "{}").unwrap_err();
    assert_eq!(err, StoreError::NotFound);
    assert_eq!(store.remove_layer("nope", &scene).unwrap_err(), StoreError::NotFound);
}

#[test]
fn reorder_with_unknown_id_changes_nothing() {
    let (mut store, effect, zone, scene) = setup();
    let l0 = store.add_layer(new_id(), &scene, &effect, &zone, BlendMode::Override, "{}").unwrap();
    let l1 = store.add_layer(new_id(), &scene, &effect, &zone, BlendMode::Add, "{}").unwrap();
    let err = store.reorder_layers(&scene, &[l1.id.clone(), "ghost".to_string()]).unwrap_err();
    assert_eq!(err, StoreError::NotFound);
    let layers = store.get_layers(&scene).unwrap();
    assert_eq!(layers[0].id, l0.id);
    assert_eq!(layers[1].id, l1.id);
}

#[test]
fn next_position_follows_the_largest() {
    let (mut store, effect, zone, scene) = setup();
    let l0 = store.add_layer(new_id(), &scene, &effect, &zone, BlendMode::Override, "{}").unwrap();
    let l1 = store.add_layer(new_id(), &scene, &effect, &zone, BlendMode::Override, "{}").unwrap();
    store.remove_layer(&l0.id, &scene).unwrap();
    let l2 = store.add_layer(new_id(), &scene, &effect, &zone, BlendMode::Override, "{}").unwrap();
    assert_eq!(l1.position, 1);
    assert_eq!(l2.position, 2);
    // Layers of the active scene are numbered on their own.
    let a = store.add_layer(new_id(), ACTIVE_SCENE_ID, &effect, &zone, BlendMode::Override, "{}").unwrap();
    assert_eq!(a.position, 0);
}
