use nks_smart_home::config::{
    canonical_device_type_id, canonical_module_type_id, canonical_role_id, default_resource_config_version,
    DeviceConfig, MqttConfig, PinBindingConfig, ResourceBindingTarget, ResourceConfig, WifiConfig,
    RESOURCE_CONFIG_VERSION,
};
use nks_smart_home::error::AppError;
use nks_smart_home::storage::{device_config_from_entries, StoredEntries};
use nks_smart_home::text::{
    contains_char, decimal_text, ends_with, eq_ignore_ascii_case, is_blank, join3, starts_with, text_eq,
    text_less, trim,
};

fn device_config(ssid: &str, host: &str, port: u16) -> DeviceConfig {
    DeviceConfig {
        wifi: WifiConfig { ssid: ssid.to_string(), password: "secret".to_string() },
        mqtt: MqttConfig {
            host: host.to_string(),
            port,
            username: "user".to_string(),
            password: "pass".to_string(),
            client_id: "node-1".to_string(),
            base_topic: "nks/home/node-1".to_string(),
        },
        resources: ResourceConfig::default(),
    }
}

#[test]
fn trim_removes_unicode_whitespace_on_both_ends() {
    assert_eq!(trim("  \t on \n"), "on");
    assert_eq!(trim("\u{3000}x\u{a0}"), "x");
    assert_eq!(trim("   "), "");
    assert_eq!(trim("a b"), "a b");
}

#[test]
fn trim_twice_is_trim_once() {
    for s in ["  x  ", "\u{2003}y", "", " \n "] {
        assert_eq!(trim(trim(s)), trim(s));
    }
}

#[test]
fn blank_texts() {
    assert!(is_blank(""));
    assert!(is_blank(" \t\r\n"));
    assert!(!is_blank(" a "));
}

#[test]
fn decimal_text_renders_numbers() {
    assert_eq!(decimal_text(0), "0");
    assert_eq!(decimal_text(7), "7");
    assert_eq!(decimal_text(1883), "1883");
    assert_eq!(decimal_text(u64::MAX), "18446744073709551615");
}

#[test]
fn text_helpers() {
    assert_eq!(nks_smart_home::text::concat("ab", "cd"), "abcd");
    assert_eq!(join3("a", "-", "b"), "a-b");
    assert!(text_eq("abc", "abc"));
    assert!(!text_eq("abc", "abd"));
    assert!(contains_char("a/b", '/'));
    assert!(!contains_char("ab", '/'));
    assert!(starts_with("nks/home", "nks/"));
    assert!(!starts_with("nk", "nks/"));
    assert!(ends_with("x/cmd", "/cmd"));
    assert!(!ends_with("cmd", "/cmd"));
    assert!(eq_ignore_ascii_case("SsL", "ssl"));
    assert!(!eq_ignore_ascii_case("ssl", "tls"));
    assert!(!eq_ignore_ascii_case("ss", "ssl"));
}

#[test]
fn text_order_is_code_point_order() {
    assert!(text_less("a", "b"));
    assert!(text_less("ab", "abc"));
    assert!(!text_less("abc", "ab"));
    assert!(!text_less("a", "a"));
    assert!(text_less("B", "a"));
}

#[test]
fn canonical_ids_map_legacy_names() {
    assert_eq!(canonical_module_type_id("switch".to_string()), "core:gpio_switch");
    assert_eq!(canonical_module_type_id("gpio_output".to_string()), "core:gpio_output");
    assert_eq!(canonical_module_type_id("core:gpio_switch".to_string()), "core:gpio_switch");
    assert_eq!(canonical_device_type_id("switch".to_string()), "core:switch");
    assert_eq!(canonical_device_type_id("other".to_string()), "other");
    assert_eq!(canonical_role_id("relay_output".to_string()), "core:relay_output");
    assert_eq!(canonical_role_id("wall_trigger_input".to_string()), "core:wall_trigger_input");
    assert_eq!(canonical_role_id("output".to_string()), "core:output");
    assert_eq!(canonical_role_id("x".to_string()), "x");
}

#[test]
fn resource_config_defaults() {
    assert_eq!(RESOURCE_CONFIG_VERSION, 1);
    assert_eq!(default_resource_config_version(), 1);
    let d = ResourceConfig::default();
    assert_eq!(d.version, 1);
    assert!(d.module_instances.is_empty());
    assert!(d.device_instances.is_empty());
}

#[test]
fn completeness_of_device_configs() {
    assert!(device_config("home", "10.0.0.2", 1883).is_complete());
    assert!(!device_config("  ", "10.0.0.2", 1883).is_complete());
    assert!(!device_config("home", "", 1883).is_complete());
    assert!(!device_config("home", "10.0.0.2", 0).is_complete());
    let mut c = device_config("home", "h", 1);
    c.mqtt.client_id = " ".to_string();
    assert!(!c.is_complete());
    let mut c = device_config("home", "h", 1);
    c.mqtt.base_topic = String::new();
    assert!(!c.is_complete());
}

#[test]
fn demo_seed_configs_are_recognised() {
    assert!(device_config("eps-rust-test", "h", 1).is_demo_seed_config());
    assert!(device_config("esp-rust-test", "h", 1).is_demo_seed_config());
    let seed = DeviceConfig {
        wifi: WifiConfig { ssid: "other".to_string(), password: "asdfg43v34t34f34t3".to_string() },
        mqtt: MqttConfig {
            host: "10.0.0.1".to_string(),
            port: 1883,
            username: "testuser".to_string(),
            password: "testpassword".to_string(),
            client_id: "esp32-test-node".to_string(),
            base_topic: "nks/home/test-node".to_string(),
        },
        resources: ResourceConfig::default(),
    };
    assert!(seed.is_demo_seed_config());
    let mut not_seed = seed.clone();
    not_seed.mqtt.port = 1884;
    assert!(!not_seed.is_demo_seed_config());
    assert!(!device_config("home", "h", 1).is_demo_seed_config());
}

#[test]
fn binding_pin_and_copies() {
    let b = PinBindingConfig { role_id: "core:output".to_string(), target: ResourceBindingTarget::Gpio { pin: 23 } };
    assert_eq!(b.pin(), Ok(23));
    assert_eq!(b.duplicate(), b);
    let w = WifiConfig { ssid: "a".to_string(), password: "b".to_string() };
    assert_eq!(w.duplicate(), w);
    let m = device_config("a", "b", 3).mqtt;
    assert_eq!(m.duplicate(), m);
}

#[test]
fn error_texts_and_codes() {
    assert_eq!(AppError::Message("boom".to_string()).display_text(), "boom");
    let esp = AppError::Esp { code: 12, text: "ESP_FAIL".to_string() };
    assert_eq!(esp.display_text(), "ESP error: ESP_FAIL");
    assert_eq!(esp.esp_code(), Some(12));
    let io = AppError::EspIo { code: -1, text: "io".to_string() };
    assert_eq!(io.display_text(), "ESP I/O error: io");
    assert_eq!(io.esp_code(), Some(-1));
    assert_eq!(AppError::Json("bad".to_string()).display_text(), "JSON error: bad");
    assert_eq!(AppError::Utf8("bad".to_string()).display_text(), "UTF-8 error: bad");
    assert_eq!(AppError::ParseInt("bad".to_string()).display_text(), "Parse int error: bad");
    assert_eq!(AppError::Json("x".to_string()).esp_code(), None);
    assert_eq!(AppError::message("m".to_string()), AppError::Message("m".to_string()));
}

fn entries() -> StoredEntries {
    StoredEntries {
        wifi_ssid: Some("home".to_string()),
        wifi_password: Some("pw".to_string()),
        mqtt_host: Some("broker".to_string()),
        mqtt_port: Some(1883),
        mqtt_username: Some("u".to_string()),
        mqtt_password: Some("p".to_string()),
        mqtt_client_id: Some("c".to_string()),
        mqtt_base_topic: Some("nks/home/c".to_string()),
    }
}

#[test]
fn stored_entries_make_a_config_only_when_complete() {
    let cfg = device_config_from_entries(entries(), ResourceConfig::default()).unwrap();
    assert_eq!(cfg.wifi.ssid, "home");
    assert_eq!(cfg.mqtt.port, 1883);
    assert_eq!(cfg.mqtt.base_topic, "nks/home/c");
    let mut e = entries();
    e.mqtt_port = None;
    assert!(device_config_from_entries(e, ResourceConfig::default()).is_none());
    let mut e = entries();
    e.wifi_password = None;
    assert!(device_config_from_entries(e, ResourceConfig::default()).is_none());
}

#[test]
fn stored_configs_read_back() {
    let cfg = device_config("home", "broker", 8883);
    let entries = nks_smart_home::storage::stored_entries(&cfg);
    let back = device_config_from_entries(entries, cfg.resources.clone()).unwrap();
    assert_eq!(back, cfg);
}
