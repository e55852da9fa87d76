use lumehub::store::{Store, StoreError};

fn new_id() -> String {
    uuid::Uuid::new_v4().to_string()
}

fn sample_params() -> String {
    [
        r#"[{"name":"speed","label":"Speed","control":{"type":"slider","min":0.5,"max":5.0,"step":0.5},"default":1.0},"#,
        r#"{"name":"color","label":"Color","control":{"type":"color"},"default":{"r":255,"g":0,"b":0}},"#,
        r#"{"name":"reverse","label":"Reverse","control":{"type":"toggle"},"default":false},"#,
        r#"{"name":"mode","label":"Mode","control":{"type":"select","options":["linear","ease"]},"default":"linear"}]"#,
    ]
    .concat()
}

fn param_count(json: &str) -> usize {
    serde_json::from_str::<serde_json::Value>(json).unwrap().as_array().unwrap().len()
}

#[test]
fn create_with_params_round_trips() {
    let mut store = Store::new();
    let params = sample_params();
    let effect = store.create_effect(new_id(), "wave", "let c = primary_color; c", &params).unwrap();

    assert_eq!(effect.name, "wave");
    assert_eq!(effect.script, "let c = primary_color; c");
    assert_eq!(param_count(&effect.params), 4);

    let fetched = store.get_effect(&effect.id).unwrap();
    assert_eq!(fetched.params, params);
    let v: serde_json::Value = serde_json::from_str(&fetched.params).unwrap();
    assert_eq!(v[0]["name"], "speed");
    assert_eq!(v[0]["control"]["min"], 0.5);
    assert_eq!(v[0]["control"]["max"], 5.0);
    assert_eq!(v[0]["default"], 1.0);
    assert_eq!(v[1]["default"]["r"], 255);
    assert_eq!(v[2]["default"], false);
    assert_eq!(v[3]["default"], "linear");
}

#[test]
fn effects_list_effects() {
    let mut store = Store::new();
    store.create_effect(new_id(), "a", "#{r:0,g:0,b:0}", "[]").unwrap();
    store.create_effect(new_id(), "b", "#{r:0,g:0,b:0}", "[]").unwrap();
    let effects = store.get_effects().unwrap();
    assert_eq!(effects.len(), 2);
}

#[test]
fn effects_update_effect() {
    let mut store = Store::new();
    let effect = store.create_effect(new_id(), "old", "code", "[]").unwrap();
    let updated = store.update_effect(&effect.id, "new", "new_code", &sample_params()).unwrap();
    assert_eq!(updated.name, "new");
    assert_eq!(updated.script, "new_code");
    assert_eq!(param_count(&updated.params), 4);
}

#[test]
fn effects_delete_effect() {
    let mut store = Store::new();
    let effect = store.create_effect(new_id(), "tmp", "code", "[]").unwrap();
    store.delete_effect(&effect.id).unwrap();
    let err = store.get_effect(&effect.id).unwrap_err();
    assert!(matches!(err, StoreError::NotFound));
}

#[test]
fn unknown_effect_is_not_found() {
    let mut store = Store::new();
    assert_eq!(store.get_effect("nope").unwrap_err(), StoreError::NotFound);
    assert_eq!(store.update_effect("nope", "a", "b", "[]").unwrap_err(), StoreError::NotFound);
    assert_eq!(store.delete_effect("nope").unwrap_err(), StoreError::NotFound);
}
