use auto_xkbmap::config::{Config, WatchedDevice};
use auto_xkbmap::device::{Device, Event, EventKind, is_product};
use auto_xkbmap::manager::{Action, DeviceManager};

fn wd(product: &str, on_plugged: &str, on_unplugged: &str) -> WatchedDevice {
    WatchedDevice {
        product: product.to_string(),
        on_plugged: on_plugged.to_string(),
        on_unplugged: on_unplugged.to_string(),
    }
}

fn device_with_product(value: &str) -> Device {
    Device {
        properties: vec![
            ("DEVNAME".to_string(), "/dev/input/event7".to_string()),
            ("PRODUCT".to_string(), value.to_string()),
        ],
    }
}

#[test]
fn matching_exact_product() {
    let dev = device_with_product("3/feed/1307/111");
    assert!(is_product(&"3/feed/1307/111".to_string(), &dev));
    assert!(!is_product(&"1/2/3/4".to_string(), &dev));
}

#[test]
fn matching_needs_product_property() {
    let dev = Device {
        properties: vec![("NAME".to_string(), "3/feed/1307/111".to_string())],
    };
    assert!(!is_product(&"3/feed/1307/111".to_string(), &dev));
}

#[test]
fn non_exclusive_dispatch_fires_all_matching_entries() {
    let config = Config {
        devices: vec![
            ("first".to_string(), wd("3/feed/1307/111", "cmd one", "undo one")),
            ("second".to_string(), wd("3/feed/1307/111", "cmd two", "undo two")),
        ],
    };
    let manager = DeviceManager::new(config);
    let actions = manager.handle_device(&device_with_product("3/feed/1307/111"));
    assert_eq!(
        actions,
        vec![
            Action::Notify("first plugged".to_string()),
            Action::Run("cmd one".to_string()),
            Action::Notify("second plugged".to_string()),
            Action::Run("cmd two".to_string()),
        ]
    );
}

#[test]
fn initial_scan_without_match_does_nothing() {
    let manager = DeviceManager::new(Config::default());
    let actions = manager.handle_device(&device_with_product("1/2/3/4"));
    assert_eq!(actions, vec![]);
}

#[test]
fn event_add_runs_plugged_action() {
    let manager = DeviceManager::new(Config::default());
    let event = Event {
        device: device_with_product("3/feed/1307/111"),
        kind: EventKind::Add,
    };
    let actions = manager.handle_change(&event);
    assert_eq!(
        actions,
        vec![
            Action::Notify("ergodox plugged".to_string()),
            Action::Run("setxkbmap us".to_string()),
        ]
    );
}

#[test]
fn event_remove_runs_unplugged_action() {
    let manager = DeviceManager::new(Config::default());
    let event = Event {
        device: device_with_product("3/feed/1307/111"),
        kind: EventKind::Remove,
    };
    let actions = manager.handle_change(&event);
    assert_eq!(
        actions,
        vec![
            Action::Notify("ergodox unplugged".to_string()),
            Action::Run("setxkbmap fr oss -option ctrl:nocaps".to_string()),
        ]
    );
}

#[test]
fn other_event_kind_stops_all_evaluation() {
    let config = Config {
        devices: vec![
            ("first".to_string(), wd("3/feed/1307/111", "cmd one", "undo one")),
            ("second".to_string(), wd("3/feed/1307/111", "cmd two", "undo two")),
        ],
    };
    let manager = DeviceManager::new(config);
    let event = Event {
        device: device_with_product("3/feed/1307/111"),
        kind: EventKind::Other,
    };
    let actions = manager.handle_change(&event);
    assert_eq!(actions, vec![]);
}

#[test]
fn other_event_kind_skips_past_non_matching_entries() {
    let config = Config {
        devices: vec![
            ("first".to_string(), wd("1/2/3/4", "cmd one", "undo one")),
            ("second".to_string(), wd("3/feed/1307/111", "cmd two", "undo two")),
        ],
    };
    let manager = DeviceManager::new(config);
    // The non-matching first entry is passed over; the evaluation stops only
    // at the matching second entry.
    let event = Event {
        device: device_with_product("3/feed/1307/111"),
        kind: EventKind::Other,
    };
    assert_eq!(manager.handle_change(&event), vec![]);
    // An Add event for the same device fires the second entry alone.
    let add = Event {
        device: device_with_product("3/feed/1307/111"),
        kind: EventKind::Add,
    };
    assert_eq!(
        manager.handle_change(&add),
        vec![
            Action::Notify("second plugged".to_string()),
            Action::Run("cmd two".to_string()),
        ]
    );
}
