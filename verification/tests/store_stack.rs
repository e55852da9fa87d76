use lumehub::model::Rgb;
use lumehub::store::{StackDevice, Store};

fn sample_layers() -> String {
    r#"[{"effect_id":"builtin:rainbow","zone_id":"all","blend_mode":"override","enabled":true,"params":{}}]"#
        .to_string()
}

fn sample_device() -> StackDevice {
    StackDevice { on: true, brightness: 200, color: Rgb::new(10, 20, 30) }
}

#[test]
fn depth_starts_at_zero() {
    let store = Store::new();
    assert_eq!(store.state_stack_depth().unwrap(), 0);
}

#[test]
fn push_increments_depth() {
    let mut store = Store::new();
    store.push_state(&sample_layers(), &sample_device(), 1_700_000_000).unwrap();
    store.push_state(&sample_layers(), &sample_device(), 1_700_000_000).unwrap();
    assert_eq!(store.state_stack_depth().unwrap(), 2);
}

#[test]
fn pop_returns_last_pushed_entry() {
    let mut store = Store::new();
    let layers_a = sample_layers();
    let device_a = sample_device();
    let layers_b =
        r#"[{"effect_id":"builtin:aurora","zone_id":"all","blend_mode":"add","enabled":false,"params":{}}]"#
            .to_string();
    let device_b = StackDevice { on: false, brightness: 50, color: Rgb::new(255, 0, 0) };

    store.push_state(&layers_a, &device_a, 1_700_000_000).unwrap();
    store.push_state(&layers_b, &device_b, 1_700_000_000).unwrap();

    let popped = store.pop_state().unwrap().expect("entry expected");
    assert_eq!(popped.layers, layers_b);
    assert_eq!(popped.device, device_b);
    assert_eq!(store.state_stack_depth().unwrap(), 1);
}

#[test]
fn pop_returns_none_when_empty() {
    let mut store = Store::new();
    assert!(store.pop_state().unwrap().is_none());
}

#[test]
fn peek_returns_last_pushed_without_removing() {
    let mut store = Store::new();
    store.push_state(&sample_layers(), &sample_device(), 1_700_000_000).unwrap();
    let peeked = store.peek_state().unwrap().expect("entry expected");
    assert_eq!(peeked.device, sample_device());
    assert_eq!(store.state_stack_depth().unwrap(), 1);
}

#[test]
fn list_returns_entries_in_lifo_order() {
    let mut store = Store::new();
    let device_first = sample_device();
    let device_second = StackDevice { on: false, brightness: 0, color: Rgb::black() };
    store.push_state(&sample_layers(), &device_first, 1_700_000_000).unwrap();
    store.push_state(&sample_layers(), &device_second, 1_700_000_000).unwrap();

    let entries = store.list_state_stack().unwrap();
    assert_eq!(entries.len(), 2);
    assert_eq!(entries[0].device, device_second);
    assert_eq!(entries[1].device, device_first);
}

#[test]
fn clear_drops_every_entry() {
    let mut store = Store::new();
    store.push_state(&sample_layers(), &sample_device(), 1_700_000_000).unwrap();
    store.push_state(&sample_layers(), &sample_device(), 1_700_000_000).unwrap();
    store.clear_state_stack().unwrap();
    assert_eq!(store.state_stack_depth().unwrap(), 0);
    assert!(store.peek_state().unwrap().is_none());
}

#[test]
fn pushed_at_is_populated_with_unix_timestamp() {
    let mut store = Store::new();
    store.push_state(&sample_layers(), &sample_device(), chrono::Utc::now().timestamp()).unwrap();
    let entry = store.peek_state().unwrap().unwrap();
    assert!(entry.pushed_at > 0);
}

#[test]
fn positions_keep_growing_after_pop() {
    let mut store = Store::new();
    store.push_state("a", &sample_device(), 10).unwrap();
    store.push_state("b", &sample_device(), 11).unwrap();
    let b = store.pop_state().unwrap().unwrap();
    store.push_state("c", &sample_device(), 12).unwrap();
    let c = store.peek_state().unwrap().unwrap();
    assert!(c.position > b.position);
    assert_eq!(c.layers, "c");
    assert_eq!(c.pushed_at, 12);
    let a = store.pop_state().unwrap();
    assert_eq!(a.unwrap().layers, "c");
    assert_eq!(store.pop_state().unwrap().unwrap().layers, "a");
    assert!(store.pop_state().unwrap().is_none());
}
