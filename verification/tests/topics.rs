use lumehub::topics::Topics;

fn t() -> Topics {
    Topics::new("lumehub")
}

#[test]
fn device_topics() {
    let t = t();
    assert_eq!(t.device_state(), "lumehub/device/state");
    assert_eq!(t.device_set(), "lumehub/device/set");
}

#[test]
fn zone_topics() {
    let t = t();
    assert_eq!(t.zones(), "lumehub/zones");
    assert_eq!(t.zones_create(), "lumehub/zones/create");
    assert_eq!(t.zone("abc"), "lumehub/zones/abc");
    assert_eq!(t.zones_update_wildcard(), "lumehub/zones/+/update");
    assert_eq!(t.zones_delete_wildcard(), "lumehub/zones/+/delete");
}

#[test]
fn extract_id_success() {
    let t = t();
    assert_eq!(
        t.extract_id("lumehub/zones/abc123/update", "zones", "update"),
        Some("abc123")
    );
    assert_eq!(
        t.extract_id("lumehub/zones/xyz/delete", "zones", "delete"),
        Some("xyz")
    );
    assert_eq!(
        t.extract_id("lumehub/scenes/scene-1/load", "scenes", "load"),
        Some("scene-1")
    );
    assert_eq!(
        t.extract_id(
            "lumehub/active_layers/layer-id/update",
            "active_layers",
            "update"
        ),
        Some("layer-id")
    );
}

#[test]
fn extract_id_wrong_action() {
    let t = t();
    assert_eq!(
        t.extract_id("lumehub/zones/abc/update", "zones", "delete"),
        None
    );
}

#[test]
fn extract_id_wrong_resource() {
    let t = t();
    assert_eq!(
        t.extract_id("lumehub/scenes/abc/update", "zones", "update"),
        None
    );
}

#[test]
fn extract_id_rejects_nested_segments() {
    let t = t();
    // "a/b" as the ID segment should not match since it contains a slash
    assert_eq!(
        t.extract_id("lumehub/zones/a/b/update", "zones", "update"),
        None
    );
}

#[test]
fn extract_id_wrong_prefix() {
    let t = t();
    assert_eq!(
        t.extract_id("other/zones/abc/update", "zones", "update"),
        None
    );
}

#[test]
fn custom_prefix() {
    let t = Topics::new("myhome/lights");
    assert_eq!(t.device_state(), "myhome/lights/device/state");
    assert_eq!(t.zones_create(), "myhome/lights/zones/create");
    assert_eq!(
        t.extract_id("myhome/lights/zones/id1/update", "zones", "update"),
        Some("id1")
    );
}

#[test]
fn scene_effect_and_layer_topics() {
    let t = t();
    assert_eq!(t.scenes(), "lumehub/scenes");
    assert_eq!(t.scenes_create(), "lumehub/scenes/create");
    assert_eq!(t.scene("s1"), "lumehub/scenes/s1");
    assert_eq!(t.scenes_update_wildcard(), "lumehub/scenes/+/update");
    assert_eq!(t.scenes_delete_wildcard(), "lumehub/scenes/+/delete");
    assert_eq!(t.scenes_load_wildcard(), "lumehub/scenes/+/load");
    assert_eq!(t.scenes_save_wildcard(), "lumehub/scenes/+/save");
    assert_eq!(t.active_layers(), "lumehub/active_layers");
    assert_eq!(t.active_layers_set(), "lumehub/active_layers/set");
    assert_eq!(t.active_layers_clear(), "lumehub/active_layers/clear");
    assert_eq!(t.active_layers_add(), "lumehub/active_layers/add");
    assert_eq!(t.active_layers_reorder(), "lumehub/active_layers/reorder");
    assert_eq!(t.active_layers_update_wildcard(), "lumehub/active_layers/+/update");
    assert_eq!(t.active_layers_delete_wildcard(), "lumehub/active_layers/+/delete");
    assert_eq!(t.active_layer("l1"), "lumehub/active_layers/l1");
    assert_eq!(t.effects(), "lumehub/effects");
    assert_eq!(t.effects_create(), "lumehub/effects/create");
    assert_eq!(t.effect("e1"), "lumehub/effects/e1");
    assert_eq!(t.effects_update_wildcard(), "lumehub/effects/+/update");
    assert_eq!(t.effects_delete_wildcard(), "lumehub/effects/+/delete");
    assert_eq!(t.active_scene_set(), "lumehub/active_scene/set");
    assert_eq!(t.active_scene_state(), "lumehub/active_scene/state");
}

#[test]
fn extract_id_of_built_topic_round_trips() {
    let t = t();
    let topic = format!("{}/update", t.zone("zone-7"));
    assert_eq!(t.extract_id(&topic, "zones", "update"), Some("zone-7"));
    assert_eq!(t.extract_id("lumehub/zones//update", "zones", "update"), Some(""));
    assert_eq!(t.extract_id("lumehub/zones/update", "zones", "update"), None);
}
