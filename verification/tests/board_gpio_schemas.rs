use nks_smart_home::board::BoardProfile;
use nks_smart_home::config::{
    ExternalModuleTriggerConfig, ModuleInstanceConfig, ModuleSettings, PinBindingConfig, ResourceBindingTarget,
    ResourceConfig, ResourceUsage,
};
use nks_smart_home::error::AppError;
use nks_smart_home::gpio::GpioManager;
use nks_smart_home::schemas::registry::SchemaRegistry;
use nks_smart_home::schemas::types::DeviceBindingMode;
use nks_smart_home::schemas::validate::validate_module_instance;

fn binding(role: &str, pin: u8) -> PinBindingConfig {
    PinBindingConfig { role_id: role.to_string(), target: ResourceBindingTarget::Gpio { pin } }
}

fn switch_module(id: &str, relay_pin: u8) -> ModuleInstanceConfig {
    ModuleInstanceConfig {
        id: id.to_string(),
        module_type_id: "core:gpio_switch".to_string(),
        display_name: None,
        bindings: vec![binding("core:relay_output", relay_pin)],
        settings: ModuleSettings::default(),
    }
}

fn msg(e: AppError) -> String {
    match e {
        AppError::Message(m) => m,
        other => panic!("unexpected error {other:?}"),
    }
}

#[test]
fn devkit_board_profile() {
    let b = BoardProfile::esp32_devkit_v1();
    assert_eq!(b.id, "esp32-devkit-v1");
    assert_eq!(b.name, "ESP32 DevKit V1");
    let numbers: Vec<u8> = b.gpio_pins.iter().map(|p| p.number).collect();
    assert_eq!(numbers, vec![4, 5, 12, 13, 14, 16, 17, 18, 19, 21, 22, 23, 25, 26, 27, 32, 33, 34, 35]);
    assert_eq!(b.gpio_pins[0].label, "GPIO4");
    assert_eq!(b.gpio_pins[18].label, "GPIO35");
    assert!(b.supports(23, ResourceUsage::Output));
    assert!(b.supports(34, ResourceUsage::Input));
    assert!(!b.supports(34, ResourceUsage::Output));
    assert!(!b.supports(2, ResourceUsage::Input));
    assert_eq!(b.gpio_pin(35).map(|p| p.number), Some(35));
    assert!(b.gpio_pin(1).is_none());
    let s = b.snapshot();
    assert_eq!(s.gpio_pins.len(), 19);
    assert!(!s.gpio_pins[17].output);
    assert!(s.gpio_pins[0].pull_down);
}

#[test]
fn built_in_registry() {
    let r = SchemaRegistry::built_in().unwrap();
    assert!(r.validate_internal().is_ok());
    assert_eq!(r.protocol_version(), "1");
    assert_eq!(r.schema_registry_version(), "builtin-1");
    assert_eq!(r.loaded_schema_packages(), vec!["core".to_string()]);
    assert_eq!(r.supported_module_types(), vec!["core:gpio_output".to_string(), "core:gpio_switch".to_string()]);
    assert_eq!(r.lookup_module_type("core:gpio_switch").unwrap().runtime_driver, "relay_gpio");
    assert!(r.lookup_module_type("core:nothing").is_none());
    assert_eq!(r.lookup_binding_role("core:wall_trigger_input").unwrap().resource_usage, ResourceUsage::Input);
    assert_eq!(r.lookup_device_type("core:switch").unwrap().display_name, "Switch");
    assert_eq!(r.role_usage_or_output("core:wall_trigger_input"), ResourceUsage::Input);
    assert_eq!(r.role_usage_or_output("unknown"), ResourceUsage::Output);
    assert_eq!(DeviceBindingMode::Single.as_str(), "single");
    assert_eq!(DeviceBindingMode::Multi.as_str(), "multi");
}

#[test]
fn required_lookups_report_unknown_ids() {
    let r = SchemaRegistry::built_in().unwrap();
    assert_eq!(msg(r.lookup_module_type_required("x").unwrap_err()), "Unknown module schema 'x'");
    assert_eq!(msg(r.lookup_device_type_required("y").unwrap_err()), "Unknown device schema 'y'");
    assert_eq!(msg(r.lookup_binding_role_required("z").unwrap_err()), "Unknown binding role schema 'z'");
}

#[test]
fn schema_snapshots_are_sorted_by_id() {
    let r = SchemaRegistry::built_in().unwrap();
    let modules = r.module_type_snapshots();
    let ids: Vec<&str> = modules.iter().map(|m| m.id.as_str()).collect();
    assert_eq!(ids, vec!["core:gpio_output", "core:gpio_switch"]);
    let switch = &modules[1];
    assert_eq!(switch.device_binding_mode, "single");
    assert_eq!(switch.default_device_type_id.as_deref(), Some("core:switch"));
    let roles: Vec<&str> = switch.bindings.iter().map(|b| b.role_id.as_str()).collect();
    assert_eq!(roles, vec!["core:relay_output", "core:wall_trigger_input"]);
    assert!(switch.bindings[0].required);
    assert!(!switch.bindings[1].required);
    let devices = r.device_type_snapshots();
    assert_eq!(devices.len(), 1);
    assert_eq!(devices[0].commands.iter().map(|c| c.name.as_str()).collect::<Vec<_>>(), vec!["ON", "OFF", "TOGGLE"]);
}

#[test]
fn module_instance_validation() {
    let r = SchemaRegistry::built_in().unwrap();
    assert!(validate_module_instance(&r, &switch_module("relay", 23)).is_ok());
    let mut unknown = switch_module("relay", 23);
    unknown.module_type_id = "core:dimmer".to_string();
    assert_eq!(msg(validate_module_instance(&r, &unknown).unwrap_err()), "Unknown module schema 'core:dimmer'");
    let mut missing = switch_module("relay", 23);
    missing.bindings = vec![binding("core:wall_trigger_input", 34)];
    assert_eq!(
        msg(validate_module_instance(&r, &missing).unwrap_err()),
        "Module 'relay' is missing required binding 'core:relay_output'"
    );
    let mut foreign = switch_module("relay", 23);
    foreign.bindings.push(binding("core:output", 22));
    assert_eq!(
        msg(validate_module_instance(&r, &foreign).unwrap_err()),
        "Module 'relay' does not allow binding 'core:output'"
    );
}

#[test]
fn claims_conflict_and_release_undoes_claim() {
    let r = SchemaRegistry::built_in().unwrap();
    let mut g = GpioManager::new(BoardProfile::esp32_devkit_v1());
    let claimed = g.claim_module_instance(&switch_module("a", 23), &r).unwrap();
    assert_eq!(claimed.module_id(), "a");
    assert_eq!(claimed.pin_for_schema_role("core:relay_output"), Some(23));
    assert_eq!(claimed.pin_for_schema_role("core:wall_trigger_input"), None);
    let err = g.claim_module_instance(&switch_module("b", 23), &r).unwrap_err();
    assert_eq!(msg(err), "GPIO23 is already claimed by module 'a' role core:relay_output");
    g.release_module("a");
    assert!(g.claim_module_instance(&switch_module("b", 23), &r).is_ok());
}

#[test]
fn claims_refuse_pins_the_board_cannot_drive() {
    let r = SchemaRegistry::built_in().unwrap();
    let mut g = GpioManager::new(BoardProfile::esp32_devkit_v1());
    let err = g.claim_module_instance(&switch_module("a", 34), &r).unwrap_err();
    assert_eq!(msg(err), "GPIO34 does not support Output for module 'a' role 'core:relay_output'");
}

#[test]
fn resource_config_validation() {
    let r = SchemaRegistry::built_in().unwrap();
    let g = GpioManager::new(BoardProfile::esp32_devkit_v1());
    let mut c = ResourceConfig::default();
    c.module_instances = vec![switch_module("a", 23), switch_module("b", 22)];
    assert!(g.validate_config(&c, &r).is_ok());
    c.module_instances = vec![switch_module("a", 23), switch_module("a", 22)];
    assert_eq!(msg(g.validate_config(&c, &r).unwrap_err()), "Module instance 'a' is defined more than once");
    c.module_instances = vec![switch_module("a", 23), switch_module("b", 23)];
    assert_eq!(msg(g.validate_config(&c, &r).unwrap_err()), "GPIO23 is assigned to both 'a' and 'b'");
    c.module_instances = vec![switch_module(" ", 23)];
    assert_eq!(msg(g.validate_config(&c, &r).unwrap_err()), "Module instance id cannot be empty");
}

#[test]
fn resource_snapshot_describes_bindings() {
    let r = SchemaRegistry::built_in().unwrap();
    let g = GpioManager::new(BoardProfile::esp32_devkit_v1());
    let mut m = switch_module("a", 23);
    m.bindings.push(binding("core:wall_trigger_input", 34));
    m.settings = ModuleSettings {
        auto_off_ms: Some(500),
        external_on_triggers: vec![ExternalModuleTriggerConfig { source_module_id: "b".to_string() }],
    };
    let mut c = ResourceConfig::default();
    c.module_instances = vec![m];
    let s = g.snapshot(&c, &r);
    assert_eq!(s.version, 1);
    assert_eq!(s.board.id, "esp32-devkit-v1");
    assert_eq!(s.module_instances[0].bindings[0].usage, ResourceUsage::Output);
    assert_eq!(s.module_instances[0].bindings[1].usage, ResourceUsage::Input);
    assert_eq!(s.module_instances[0].bindings[1].pin, 34);
    assert_eq!(s.module_instances[0].settings.auto_off_ms, Some(500));
}
