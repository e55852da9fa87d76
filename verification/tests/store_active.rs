use lumehub::model::BlendMode;
use lumehub::store::{NewLayer, Store, StoreError, ACTIVE_SCENE_ID};

fn new_id() -> String {
    uuid::Uuid::new_v4().to_string()
}

fn new_ids(n: usize) -> Vec<String> {
    (0..n).map(|_| new_id()).collect()
}

const SPEED: &str = r#"{"speed":2.0}"#;

fn setup() -> (Store, String, String) {
    let mut store = Store::new();
    let effect = store.create_effect(new_id(), "fx", "code", "[]").unwrap();
    let zone = store.create_zone(new_id(), "z", 0, 10, 4).unwrap();
    (store, effect.id, zone.id)
}

#[test]
fn starts_empty() {
    let store = Store::new();
    let active = store.get_active_layers().unwrap();
    assert!(active.is_empty());
}

#[test]
fn layer_lifecycle() {
    let (mut store, effect, zone) = setup();
    let layer = store.add_active_layer(new_id(), &effect, &zone, BlendMode::Override, SPEED).unwrap();
    assert_eq!(layer.params, SPEED);

    let updated = store.update_active_layer(&layer.id, &zone, false, BlendMode::Add, "{}").unwrap();
    assert!(!updated.enabled);
    assert!(matches!(updated.blend_mode, BlendMode::Add));

    store.remove_active_layer(&layer.id).unwrap();
    let active = store.get_active_layers().unwrap();
    assert!(active.is_empty());
}

#[test]
fn clear() {
    let (mut store, effect, zone) = setup();
    store.add_active_layer(new_id(), &effect, &zone, BlendMode::Override, "{}").unwrap();
    store.add_active_layer(new_id(), &effect, &zone, BlendMode::Add, "{}").unwrap();
    store.clear_active_scene().unwrap();
    let active = store.get_active_layers().unwrap();
    assert!(active.is_empty());
}

#[test]
fn save_and_load() {
    let (mut store, effect, zone) = setup();
    store.add_active_layer(new_id(), &effect, &zone, BlendMode::Override, SPEED).unwrap();

    let saved = store.save_active_as_scene(new_id(), "my scene", &new_ids(store.get_active_layers().unwrap().len())).unwrap();
    assert_eq!(saved.name, "my scene");
    let layers = store.get_layers(&saved.id).unwrap();
    assert_eq!(layers.len(), 1);
    assert_eq!(layers[0].params, SPEED);

    let other = store.create_scene(new_id(), "other").unwrap();
    store.add_layer(new_id(), &other.id, &effect, &zone, BlendMode::Add, "{}").unwrap();
    store.load_scene_into_active(&other.id, &new_ids(store.get_layers(&other.id).unwrap().len())).unwrap();

    let active = store.get_active_layers().unwrap();
    assert_eq!(active.len(), 1);
    assert!(matches!(active[0].blend_mode, BlendMode::Add));
}

#[test]
fn load_nonexistent_returns_not_found() {
    let mut store = Store::new();
    let err = store.load_scene_into_active("nonexistent", &new_ids(store.get_layers("nonexistent").unwrap().len())).unwrap_err();
    assert!(matches!(err, StoreError::NotFound));
}

#[test]
fn overwrite_and_cannot_overwrite_self() {
    let (mut store, effect, zone) = setup();
    let scene = store.create_scene(new_id(), "s").unwrap();
    store.add_layer(new_id(), &scene.id, &effect, &zone, BlendMode::Override, "{}").unwrap();
    store.add_active_layer(new_id(), &effect, &zone, BlendMode::Add, SPEED).unwrap();
    store.add_active_layer(new_id(), &effect, &zone, BlendMode::Screen, "{}").unwrap();

    store.overwrite_scene_from_active(&scene.id, &new_ids(store.get_active_layers().unwrap().len())).unwrap();

    let layers = store.get_layers(&scene.id).unwrap();
    assert_eq!(layers.len(), 2);
    assert!(matches!(layers[0].blend_mode, BlendMode::Add));

    let err = store.overwrite_scene_from_active(ACTIVE_SCENE_ID, &new_ids(store.get_active_layers().unwrap().len())).unwrap_err();
    assert!(matches!(err, StoreError::NotFound));
}

#[test]
fn loading_keeps_the_source_scene() {
    let (mut store, effect, zone) = setup();
    let scene = store.create_scene(new_id(), "s").unwrap();
    let source_layer = store.add_layer(new_id(), &scene.id, &effect, &zone, BlendMode::Multiply, SPEED).unwrap();
    store.load_scene_into_active(&scene.id, &new_ids(store.get_layers(&scene.id).unwrap().len())).unwrap();
    let src = store.get_layers(&scene.id).unwrap();
    assert_eq!(src.len(), 1);
    assert_eq!(src[0].id, source_layer.id);
    let active = store.get_active_layers().unwrap();
    assert_ne!(active[0].id, source_layer.id);
    assert_eq!(active[0].scene_id, ACTIVE_SCENE_ID);
    assert_eq!(active[0].params, SPEED);
    assert!(matches!(active[0].blend_mode, BlendMode::Multiply));
}

#[test]
fn load_active_into_itself_is_refused() {
    let (mut store, effect, zone) = setup();
    store.add_active_layer(new_id(), &effect, &zone, BlendMode::Override, "{}").unwrap();
    assert_eq!(store.load_scene_into_active(ACTIVE_SCENE_ID, &new_ids(store.get_layers(ACTIVE_SCENE_ID).unwrap().len())).unwrap_err(), StoreError::Db);
    assert_eq!(store.get_active_layers().unwrap().len(), 1);
}

#[test]
fn replace_active_layers_numbers_from_zero() {
    let (mut store, effect, zone) = setup();
    store.add_active_layer(new_id(), &effect, &zone, BlendMode::Override, "{}").unwrap();
    let layers = vec![
        NewLayer {
            effect_id: effect.clone(),
            zone_id: "all".to_string(),
            blend_mode: BlendMode::Add,
            params: SPEED.to_string(),
        },
        NewLayer {
            effect_id: effect.clone(),
            zone_id: zone.clone(),
            blend_mode: BlendMode::Screen,
            params: "{}".to_string(),
        },
    ];
    store.replace_active_layers(&layers, &new_ids(layers.len())).unwrap();
    let active = store.get_active_layers().unwrap();
    assert_eq!(active.len(), 2);
    assert_eq!(active[0].position, 0);
    assert_eq!(active[0].zone_id, "all");
    assert_eq!(active[0].params, SPEED);
    assert!(active[0].enabled);
    assert_eq!(active[1].position, 1);
    assert!(matches!(active[1].blend_mode, BlendMode::Screen));
}

#[test]
fn active_layer_lookups() {
    let (mut store, effect, zone) = setup();
    let scene = store.create_scene(new_id(), "s").unwrap();
    let other = store.add_layer(new_id(), &scene.id, &effect, &zone, BlendMode::Override, "{}").unwrap();
    let mine = store.add_active_layer(new_id(), &effect, &zone, BlendMode::Override, "{}").unwrap();
    assert_eq!(store.get_active_layer(&mine.id).unwrap().id, mine.id);
    assert_eq!(store.get_active_layer(&other.id).unwrap_err(), StoreError::NotFound);
    assert_eq!(store.get_layer_by_id(&other.id).unwrap().scene_id, scene.id);
    assert_eq!(store.remove_active_layer(&other.id).unwrap_err(), StoreError::NotFound);
}

#[test]
fn save_active_under_a_taken_name_still_creates() {
    let (mut store, effect, zone) = setup();
    store.add_active_layer(new_id(), &effect, &zone, BlendMode::Override, "{}").unwrap();
    let a = store.save_active_as_scene(new_id(), "same", &new_ids(store.get_active_layers().unwrap().len())).unwrap();
    let b = store.save_active_as_scene(new_id(), "same", &new_ids(store.get_active_layers().unwrap().len())).unwrap();
    assert_ne!(a.id, b.id);
    assert_eq!(store.get_scenes().unwrap().len(), 2);
}
