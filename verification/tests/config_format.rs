use auto_xkbmap::config::{Config, WatchedDevice};
use auto_xkbmap::parse::ParseError;

fn wd(product: &str, on_plugged: &str, on_unplugged: &str) -> WatchedDevice {
    WatchedDevice {
        product: product.to_string(),
        on_plugged: on_plugged.to_string(),
        on_unplugged: on_unplugged.to_string(),
    }
}

const DEFAULT_TEXT: &str = "[devices.ergodox]\nproduct = \"3/feed/1307/111\"\non_plugged = \"setxkbmap us\"\non_unplugged = \"setxkbmap fr oss -option ctrl:nocaps\"\n";

#[test]
fn default_config_values() {
    let c = Config::default();
    assert_eq!(c.devices.len(), 1);
    assert_eq!(c.devices[0].0, "ergodox");
    assert_eq!(c.devices[0].1.product, "3/feed/1307/111");
    assert_eq!(c.devices[0].1.on_plugged, "setxkbmap us");
    assert_eq!(c.devices[0].1.on_unplugged, "setxkbmap fr oss -option ctrl:nocaps");
}

#[test]
fn default_serializes_to_exact_text() {
    assert_eq!(Config::default().to_toml(), DEFAULT_TEXT);
}

#[test]
fn default_text_parses_back() {
    let c = Config::parse(DEFAULT_TEXT).unwrap();
    assert_eq!(c, Config::default());
}

#[test]
fn round_trip_two_entries() {
    let c = Config {
        devices: vec![
            ("ergodox".to_string(), wd("3/feed/1307/111", "setxkbmap us", "setxkbmap fr")),
            ("spare_kbd-2".to_string(), wd("1/2/3/4", "echo plugged", "")),
        ],
    };
    assert!(c.is_representable());
    let text = c.to_toml();
    let back = Config::parse(&text).unwrap();
    assert_eq!(back, c);
}

#[test]
fn parse_empty_is_empty_config() {
    let c = Config::parse("").unwrap();
    assert_eq!(c.devices.len(), 0);
}

#[test]
fn parse_skips_blank_lines() {
    let text = "\n[devices.kb]\nproduct = \"1/2/3/4\"\n\non_plugged = \"a\"\non_unplugged = \"b\"\n\n";
    let c = Config::parse(text).unwrap();
    assert_eq!(c.devices.len(), 1);
    assert_eq!(c.devices[0].0, "kb");
    assert_eq!(c.devices[0].1.product, "1/2/3/4");
}

#[test]
fn parse_error_truncated() {
    let r = Config::parse("[devices.kb]\nproduct = \"1/2/3/4\"\n");
    assert_eq!(r.unwrap_err(), ParseError::Truncated);
}

#[test]
fn parse_error_bad_header() {
    let text = "[device.kb]\nproduct = \"1\"\non_plugged = \"a\"\non_unplugged = \"b\"\n";
    assert_eq!(Config::parse(text).unwrap_err(), ParseError::BadHeader);
}

#[test]
fn parse_error_header_name_with_space() {
    let text = "[devices.my kb]\nproduct = \"1\"\non_plugged = \"a\"\non_unplugged = \"b\"\n";
    assert_eq!(Config::parse(text).unwrap_err(), ParseError::BadHeader);
}

#[test]
fn parse_error_wrong_key_order() {
    let text = "[devices.kb]\non_plugged = \"a\"\nproduct = \"1\"\non_unplugged = \"b\"\n";
    assert_eq!(Config::parse(text).unwrap_err(), ParseError::BadKeyValue);
}

#[test]
fn parse_error_unquoted_value() {
    let text = "[devices.kb]\nproduct = 1\non_plugged = \"a\"\non_unplugged = \"b\"\n";
    assert_eq!(Config::parse(text).unwrap_err(), ParseError::BadKeyValue);
}

#[test]
fn parse_error_duplicate_device() {
    let text = "[devices.kb]\nproduct = \"1\"\non_plugged = \"a\"\non_unplugged = \"b\"\n[devices.kb]\nproduct = \"2\"\non_plugged = \"c\"\non_unplugged = \"d\"\n";
    assert_eq!(Config::parse(text).unwrap_err(), ParseError::DuplicateDevice);
}

#[test]
fn representable_rejects_bad_name_and_value() {
    let space_name = Config {
        devices: vec![("my kb".to_string(), wd("1", "a", "b"))],
    };
    assert!(!space_name.is_representable());
    let empty_name = Config {
        devices: vec![("".to_string(), wd("1", "a", "b"))],
    };
    assert!(!empty_name.is_representable());
    let quoted_value = Config {
        devices: vec![("kb".to_string(), wd("1", "echo \"hi\"", "b"))],
    };
    assert!(!quoted_value.is_representable());
    let dup = Config {
        devices: vec![
            ("kb".to_string(), wd("1", "a", "b")),
            ("kb".to_string(), wd("2", "c", "d")),
        ],
    };
    assert!(!dup.is_representable());
    assert!(Config::default().is_representable());
}

#[test]
fn serializes_empty_config_to_empty_text() {
    let c = Config { devices: vec![] };
    assert_eq!(c.to_toml(), "");
}
