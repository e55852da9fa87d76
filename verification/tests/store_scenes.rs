use lumehub::store::{Store, StoreError, ACTIVE_SCENE_ID};

fn new_id() -> String {
    uuid::Uuid::new_v4().to_string()
}

#[test]
fn active_excluded_from_list() {
    let store = Store::new();
    let scenes = store.get_scenes().unwrap();
    assert!(scenes.iter().all(|s| s.id != ACTIVE_SCENE_ID));
}

#[test]
fn create_and_list() {
    let mut store = Store::new();
    store.create_scene(new_id(), "night").unwrap();
    store.create_scene(new_id(), "party").unwrap();
    let scenes = store.get_scenes().unwrap();
    assert_eq!(scenes.len(), 2);
}

#[test]
fn scenes_update_scene() {
    let mut store = Store::new();
    let scene = store.create_scene(new_id(), "old").unwrap();
    let updated = store.update_scene(&scene.id, "new").unwrap();
    assert_eq!(updated.name, "new");
}

#[test]
fn scenes_delete_scene() {
    let mut store = Store::new();
    let scene = store.create_scene(new_id(), "tmp").unwrap();
    store.delete_scene(&scene.id).unwrap();
    let err = store.get_scene(&scene.id).unwrap_err();
    assert!(matches!(err, StoreError::NotFound));
}

#[test]
fn cannot_delete_active() {
    let mut store = Store::new();
    let err = store.delete_scene(ACTIVE_SCENE_ID).unwrap_err();
    assert!(matches!(err, StoreError::NotFound));
}

#[test]
fn active_scene_cannot_be_read_or_renamed() {
    let mut store = Store::new();
    assert_eq!(store.get_scene(ACTIVE_SCENE_ID).unwrap_err(), StoreError::Db);
    assert_eq!(store.update_scene(ACTIVE_SCENE_ID, "x").unwrap_err(), StoreError::NotFound);
    assert_eq!(
        store.create_scene(ACTIVE_SCENE_ID.to_string(), "x").unwrap_err(),
        StoreError::Db
    );
}

#[test]
fn scenes_listed_by_name() {
    let mut store = Store::new();
    store.create_scene(new_id(), "party").unwrap();
    store.create_scene(new_id(), "night").unwrap();
    store.create_scene(new_id(), "morning").unwrap();
    let names: Vec<String> = store.get_scenes().unwrap().into_iter().map(|s| s.name).collect();
    assert_eq!(names, vec!["morning", "night", "party"]);
}
