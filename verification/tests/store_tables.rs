use lumehub::model::BlendMode;
use lumehub::store::{Store, StoreError, ACTIVE_SCENE_ID};

fn new_id() -> String {
    uuid::Uuid::new_v4().to_string()
}

fn new_ids(n: usize) -> Vec<String> {
    (0..n).map(|_| new_id()).collect()
}

const SPEED: &str = r#"{"speed":2.0}"#;

fn sample_params() -> String {
    [
        r#"[{"name":"speed","label":"Speed","control":{"type":"slider","min":0.5,"max":5.0,"step":0.5},"default":1.0},"#,
        r#"{"name":"color","label":"Color","control":{"type":"color"},"default":{"r":255,"g":0,"b":0}},"#,
        r#"{"name":"reverse","label":"Reverse","control":{"type":"toggle"},"default":false},"#,
        r#"{"name":"mode","label":"Mode","control":{"type":"select","options":["linear","ease"]},"default":"linear"}]"#,
    ]
    .concat()
}

fn param_count(json: &str) -> usize {
    serde_json::from_str::<serde_json::Value>(json).unwrap().as_array().unwrap().len()
}

fn setup() -> (Store, String, String) {
    let mut store = Store::new();
    let effect = store.create_effect(new_id(), "fx", "code", "[]").unwrap();
    let zone = store.create_zone(new_id(), "z", 0, 10, 4).unwrap();
    (store, effect.id, zone.id)
}

#[test]
fn store_create_and_get_zone() {
    let mut store = Store::new();
    let zone = store.create_zone(new_id(), "living room", 0, 59, 8).unwrap();
    assert_eq!(zone.name, "living room");
    assert_eq!(zone.start_pixel, 0);
    assert_eq!(zone.end_pixel, 59);
    assert_eq!(zone.transition_length, 8);
    let fetched = store.get_zone(&zone.id).unwrap();
    assert_eq!(fetched.id, zone.id);
    assert_eq!(fetched.name, "living room");
}

#[test]
fn store_list_zones() {
    let mut store = Store::new();
    store.create_zone(new_id(), "a", 0, 10, 4).unwrap();
    store.create_zone(new_id(), "b", 11, 20, 4).unwrap();
    assert_eq!(store.get_zones().unwrap().len(), 2);
}

#[test]
fn store_update_zone() {
    let mut store = Store::new();
    let zone = store.create_zone(new_id(), "old", 0, 10, 8).unwrap();
    let updated = store.update_zone(&zone.id, "new", 5, 50, 16).unwrap();
    assert_eq!(updated.name, "new");
    assert_eq!(updated.start_pixel, 5);
    assert_eq!(updated.end_pixel, 50);
    assert_eq!(updated.transition_length, 16);
}

#[test]
fn store_delete_zone() {
    let mut store = Store::new();
    let zone = store.create_zone(new_id(), "tmp", 0, 10, 8).unwrap();
    store.delete_zone(&zone.id).unwrap();
    assert!(matches!(store.get_zone(&zone.id).unwrap_err(), StoreError::NotFound));
}

#[test]
fn zone_not_found() {
    let store = Store::new();
    assert!(matches!(store.get_zone("nonexistent").unwrap_err(), StoreError::NotFound));
}

#[test]
fn create_effect_with_params_round_trips() {
    let mut store = Store::new();
    let params = sample_params();
    let effect = store.create_effect(new_id(), "wave", "let c = primary_color; c", &params).unwrap();
    assert_eq!(effect.name, "wave");
    assert_eq!(effect.script, "let c = primary_color; c");
    assert_eq!(param_count(&effect.params), 4);
    let fetched = store.get_effect(&effect.id).unwrap();
    let v: serde_json::Value = serde_json::from_str(&fetched.params).unwrap();
    assert_eq!(v[0]["name"], "speed");
    assert_eq!(v[0]["control"]["min"], 0.5);
    assert_eq!(v[0]["control"]["max"], 5.0);
    assert_eq!(v[0]["default"], 1.0);
    assert_eq!(v[1]["default"]["g"], 0);
    assert_eq!(v[2]["default"], false);
    assert_eq!(v[3]["default"], "linear");
}

#[test]
fn store_list_effects() {
    let mut store = Store::new();
    store.create_effect(new_id(), "a", "#{r:0,g:0,b:0}", "[]").unwrap();
    store.create_effect(new_id(), "b", "#{r:0,g:0,b:0}", "[]").unwrap();
    assert_eq!(store.get_effects().unwrap().len(), 2);
}

#[test]
fn store_update_effect() {
    let mut store = Store::new();
    let effect = store.create_effect(new_id(), "old", "code", "[]").unwrap();
    let updated = store.update_effect(&effect.id, "new", "new_code", &sample_params()).unwrap();
    assert_eq!(updated.name, "new");
    assert_eq!(updated.script, "new_code");
    assert_eq!(param_count(&updated.params), 4);
}

#[test]
fn store_delete_effect() {
    let mut store = Store::new();
    let effect = store.create_effect(new_id(), "tmp", "code", "[]").unwrap();
    store.delete_effect(&effect.id).unwrap();
    assert!(matches!(store.get_effect(&effect.id).unwrap_err(), StoreError::NotFound));
}

#[test]
fn active_scene_excluded_from_list() {
    let store = Store::new();
    assert!(store.get_scenes().unwrap().iter().all(|s| s.id != ACTIVE_SCENE_ID));
}

#[test]
fn create_and_list_scenes() {
    let mut store = Store::new();
    store.create_scene(new_id(), "night").unwrap();
    store.create_scene(new_id(), "party").unwrap();
    assert_eq!(store.get_scenes().unwrap().len(), 2);
}

#[test]
fn store_update_scene() {
    let mut store = Store::new();
    let scene = store.create_scene(new_id(), "old").unwrap();
    assert_eq!(store.update_scene(&scene.id, "new").unwrap().name, "new");
}

#[test]
fn store_delete_scene() {
    let mut store = Store::new();
    let scene = store.create_scene(new_id(), "tmp").unwrap();
    store.delete_scene(&scene.id).unwrap();
    assert!(matches!(store.get_scene(&scene.id).unwrap_err(), StoreError::NotFound));
}

#[test]
fn cannot_delete_active_scene() {
    let mut store = Store::new();
    assert!(matches!(store.delete_scene(ACTIVE_SCENE_ID).unwrap_err(), StoreError::NotFound));
}

#[test]
fn add_and_get_layers() {
    let (mut store, effect, zone) = setup();
    let scene = store.create_scene(new_id(), "s").unwrap();
    let l0 = store.add_layer(new_id(), &scene.id, &effect, &zone, BlendMode::Override, SPEED).unwrap();
    let l1 = store.add_layer(new_id(), &scene.id, &effect, &zone, BlendMode::Add, "{}").unwrap();
    assert_eq!(l0.position, 0);
    assert_eq!(l1.position, 1);
    assert!(matches!(l0.blend_mode, BlendMode::Override));
    assert!(matches!(l1.blend_mode, BlendMode::Add));
    assert_eq!(l0.params, SPEED);
    let layers = store.get_layers(&scene.id).unwrap();
    assert_eq!(layers.len(), 2);
    assert_eq!(layers[0].id, l0.id);
    assert_eq!(layers[1].id, l1.id);
}

#[test]
fn store_update_layer() {
    let (mut store, effect, zone) = setup();
    let scene = store.create_scene(new_id(), "s").unwrap();
    let layer = store.add_layer(new_id(), &scene.id, &effect, &zone, BlendMode::Override, "{}").unwrap();
    let updated =
        store.update_layer(&layer.id, &scene.id, &zone, false, BlendMode::Screen, SPEED).unwrap();
    assert!(!updated.enabled);
    assert!(matches!(updated.blend_mode, BlendMode::Screen));
    assert_eq!(updated.params, SPEED);
}

#[test]
fn store_reorder_layers() {
    let (mut store, effect, zone) = setup();
    let scene = store.create_scene(new_id(), "s").unwrap();
    let l0 = store.add_layer(new_id(), &scene.id, &effect, &zone, BlendMode::Override, "{}").unwrap();
    let l1 = store.add_layer(new_id(), &scene.id, &effect, &zone, BlendMode::Override, "{}").unwrap();
    let l2 = store.add_layer(new_id(), &scene.id, &effect, &zone, BlendMode::Override, "{}").unwrap();
    store.reorder_layers(&scene.id, &[l2.id.clone(), l1.id.clone(), l0.id.clone()]).unwrap();
    let layers = store.get_layers(&scene.id).unwrap();
    assert_eq!(layers[0].id, l2.id);
    assert_eq!(layers[1].id, l1.id);
    assert_eq!(layers[2].id, l0.id);
}

#[test]
fn store_remove_layer() {
    let (mut store, effect, zone) = setup();
    let scene = store.create_scene(new_id(), "s").unwrap();
    let layer = store.add_layer(new_id(), &scene.id, &effect, &zone, BlendMode::Override, "{}").unwrap();
    store.remove_layer(&layer.id, &scene.id).unwrap();
    assert!(store.get_layers(&scene.id).unwrap().is_empty());
}

#[test]
fn save_active_creates_named_scene() {
    let (mut store, effect, zone) = setup();
    store.add_layer(new_id(), ACTIVE_SCENE_ID, &effect, &zone, BlendMode::Override, SPEED).unwrap();
    let saved = store.save_active_as_scene(new_id(), "my scene", &new_ids(store.get_active_layers().unwrap().len())).unwrap();
    assert_eq!(saved.name, "my scene");
    let layers = store.get_layers(&saved.id).unwrap();
    assert_eq!(layers.len(), 1);
    assert_eq!(layers[0].params, SPEED);
}

#[test]
fn load_scene_replaces_active() {
    let (mut store, effect, zone) = setup();
    let scene = store.create_scene(new_id(), "s").unwrap();
    store.add_layer(new_id(), &scene.id, &effect, &zone, BlendMode::Add, SPEED).unwrap();
    store.add_layer(new_id(), ACTIVE_SCENE_ID, &effect, &zone, BlendMode::Override, "{}").unwrap();
    store.load_scene_into_active(&scene.id, &new_ids(store.get_layers(&scene.id).unwrap().len())).unwrap();
    let active = store.get_active_layers().unwrap();
    assert_eq!(active.len(), 1);
    assert!(matches!(active[0].blend_mode, BlendMode::Add));
    assert_eq!(active[0].params, SPEED);
}

#[test]
fn clear_active_removes_all_layers() {
    let (mut store, effect, zone) = setup();
    store.add_layer(new_id(), ACTIVE_SCENE_ID, &effect, &zone, BlendMode::Override, "{}").unwrap();
    store.add_layer(new_id(), ACTIVE_SCENE_ID, &effect, &zone, BlendMode::Add, "{}").unwrap();
    store.clear_active_scene().unwrap();
    assert!(store.get_active_layers().unwrap().is_empty());
}

#[test]
fn overwrite_scene_from_active() {
    let (mut store, effect, zone) = setup();
    let scene = store.create_scene(new_id(), "s").unwrap();
    store.add_layer(new_id(), &scene.id, &effect, &zone, BlendMode::Override, "{}").unwrap();
    store.add_layer(new_id(), ACTIVE_SCENE_ID, &effect, &zone, BlendMode::Add, SPEED).unwrap();
    store.add_layer(new_id(), ACTIVE_SCENE_ID, &effect, &zone, BlendMode::Screen, "{}").unwrap();
    store.overwrite_scene_from_active(&scene.id, &new_ids(store.get_active_layers().unwrap().len())).unwrap();
    let layers = store.get_layers(&scene.id).unwrap();
    assert_eq!(layers.len(), 2);
    assert!(matches!(layers[0].blend_mode, BlendMode::Add));
}

#[test]
fn cannot_overwrite_active_with_itself() {
    let mut store = Store::new();
    let err = store.overwrite_scene_from_active(ACTIVE_SCENE_ID, &new_ids(store.get_active_layers().unwrap().len())).unwrap_err();
    assert!(matches!(err, StoreError::NotFound));
}

#[test]
fn store_deleting_scene_cascades_to_layers() {
    let (mut store, effect, zone) = setup();
    let scene = store.create_scene(new_id(), "s").unwrap();
    store.add_layer(new_id(), &scene.id, &effect, &zone, BlendMode::Override, "{}").unwrap();
    store.delete_scene(&scene.id).unwrap();
    assert!(store.get_layers(&scene.id).unwrap().is_empty());
}
