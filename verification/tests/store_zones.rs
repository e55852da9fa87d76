use lumehub::store::{Store, StoreError};

fn new_id() -> String {
    uuid::Uuid::new_v4().to_string()
}

#[test]
fn zones_create_and_get_zone() {
    let mut store = Store::new();
    let zone = store.create_zone(new_id(), "living room", 0, 59, 8).unwrap();
    assert_eq!(zone.name, "living room");
    assert_eq!(zone.start_pixel, 0);
    assert_eq!(zone.end_pixel, 59);
    assert_eq!(zone.transition_length, 8);

    let fetched = store.get_zone(&zone.id).unwrap();
    assert_eq!(fetched.id, zone.id);
    assert_eq!(fetched.name, "living room");
}

#[test]
fn zones_list_zones() {
    let mut store = Store::new();
    store.create_zone(new_id(), "a", 0, 10, 4).unwrap();
    store.create_zone(new_id(), "b", 11, 20, 4).unwrap();
    let zones = store.get_zones().unwrap();
    assert_eq!(zones.len(), 2);
}

#[test]
fn zones_update_zone() {
    let mut store = Store::new();
    let zone = store.create_zone(new_id(), "old", 0, 10, 8).unwrap();
    let updated = store.update_zone(&zone.id, "new", 5, 50, 16).unwrap();
    assert_eq!(updated.name, "new");
    assert_eq!(updated.start_pixel, 5);
    assert_eq!(updated.end_pixel, 50);
    assert_eq!(updated.transition_length, 16);
}

#[test]
fn zones_delete_zone() {
    let mut store = Store::new();
    let zone = store.create_zone(new_id(), "tmp", 0, 10, 8).unwrap();
    store.delete_zone(&zone.id).unwrap();
    let err = store.get_zone(&zone.id).unwrap_err();
    assert!(matches!(err, StoreError::NotFound));
}

#[test]
fn get_nonexistent_returns_404() {
    let store = Store::new();
    let err = store.get_zone("nonexistent").unwrap_err();
    assert!(matches!(err, StoreError::NotFound));
}

#[test]
fn zones_listed_by_name() {
    let mut store = Store::new();
    store.create_zone(new_id(), "window", 30, 59, 0).unwrap();
    store.create_zone(new_id(), "Desk", 0, 29, 0).unwrap();
    store.create_zone(new_id(), "bed", 60, 99, 0).unwrap();
    let names: Vec<String> = store.get_zones().unwrap().into_iter().map(|z| z.name).collect();
    // Code-point order: upper case sorts before lower case.
    assert_eq!(names, vec!["Desk", "bed", "window"]);
}

#[test]
fn zone_keeps_the_id_it_was_given() {
    let mut store = Store::new();
    let a = store.create_zone("zone-a".to_string(), "a", 0, 1, 0).unwrap();
    assert_eq!(a.id, "zone-a");
    assert_eq!(store.get_zone("zone-a").unwrap().name, "a");
}

#[test]
fn update_and_delete_unknown_zone_fail() {
    let mut store = Store::new();
    assert_eq!(store.update_zone("nope", "x", 0, 1, 0).unwrap_err(), StoreError::NotFound);
    assert_eq!(store.delete_zone("nope").unwrap_err(), StoreError::NotFound);
}

#[test]
fn create_zone_with_taken_id_fails() {
    let mut store = Store::new();
    store.create_zone("z1".to_string(), "a", 0, 1, 0).unwrap();
    let err = store.create_zone("z1".to_string(), "b", 0, 1, 0).unwrap_err();
    assert_eq!(err, StoreError::Db);
    assert_eq!(store.get_zones().unwrap().len(), 1);
}

#[test]
fn updated_zone_reads_back() {
    let mut store = Store::new();
    let keep = store.create_zone(new_id(), "keep", 0, 1, 0).unwrap();
    let zone = store.create_zone(new_id(), "old", 0, 10, 8).unwrap();
    store.update_zone(&zone.id, "new", 5, 50, 16).unwrap();
    let read = store.get_zone(&zone.id).unwrap();
    assert_eq!(read.name, "new");
    assert_eq!(read.start_pixel, 5);
    assert_eq!(read.end_pixel, 50);
    assert_eq!(read.transition_length, 16);
    assert_eq!(store.get_zone(&keep.id).unwrap().name, "keep");
}
