use nks_smart_home::board::BoardProfile;
use nks_smart_home::config::{
    DeviceInstanceConfig, ExternalModuleTriggerConfig, ModuleInstanceConfig, ModuleSettings, PinBindingConfig,
    ResourceBindingTarget, ResourceConfig,
};
use nks_smart_home::devices::{normalize_switch_command, parse_switch_command, DeviceCommand, DeviceRegistry, SwitchController};
use nks_smart_home::error::AppError;
use nks_smart_home::gpio::GpioManager;
use nks_smart_home::modules::{
    DebouncedToggleInput, DriverBinaryState, ModuleCommand, ModuleEvent, ModuleManager, PinWrite, PinWrites,
    RelayGpioModule, RelayStateChangeSource, TRIGGER_DEBOUNCE_MS,
};
use nks_smart_home::schemas::registry::SchemaRegistry;

fn binding(role: &str, pin: u8) -> PinBindingConfig {
    PinBindingConfig { role_id: role.to_string(), target: ResourceBindingTarget::Gpio { pin } }
}

fn switch_module(id: &str, relay_pin: u8, settings: ModuleSettings) -> ModuleInstanceConfig {
    ModuleInstanceConfig {
        id: id.to_string(),
        module_type_id: "core:gpio_switch".to_string(),
        display_name: None,
        bindings: vec![binding("core:relay_output", relay_pin)],
        settings,
    }
}

fn ok() -> PinWrites {
    PinWrites::succeeding()
}

fn msg(e: AppError) -> String {
    match e {
        AppError::Message(m) => m,
        other => panic!("unexpected error {other:?}"),
    }
}

fn relay(auto_off: Option<u64>, triggers: &[&str]) -> RelayGpioModule {
    let settings = ModuleSettings {
        auto_off_ms: auto_off,
        external_on_triggers: triggers
            .iter()
            .map(|t| ExternalModuleTriggerConfig { source_module_id: t.to_string() })
            .collect(),
    };
    RelayGpioModule::new("relay".to_string(), settings, 23, None)
}

#[test]
fn relay_commands() {
    let mut m = relay(None, &[]);
    assert_eq!(m.binary_state(), Some(DriverBinaryState::Off));
    let x = m.handle_command("ON", 0, &mut ok()).unwrap();
    assert!(x.state_changed);
    assert_eq!(x.events, vec![ModuleEvent { source_module_id: "relay".to_string(), state: DriverBinaryState::On }]);
    let again = m.handle_command("ON", 1, &mut ok()).unwrap();
    assert!(!again.state_changed);
    assert!(again.events.is_empty());
    assert!(m.handle_command("OFF", 2, &mut ok()).unwrap().state_changed);
    assert_eq!(msg(m.handle_command("on", 3, &mut ok()).unwrap_err()), "Unsupported command 'on' for module 'relay'");
}

#[test]
fn toggle_twice_restores_state() {
    let mut m = relay(Some(1000), &[]);
    m.handle_command("TOGGLE", 0, &mut ok()).unwrap();
    assert_eq!(m.binary_state(), Some(DriverBinaryState::On));
    m.handle_command("TOGGLE", 10, &mut ok()).unwrap();
    assert_eq!(m.binary_state(), Some(DriverBinaryState::Off));
}

#[test]
fn auto_off_switches_off_at_deadline() {
    let mut m = relay(Some(500), &[]);
    m.handle_command("ON", 1000, &mut ok()).unwrap();
    assert!(!m.poll(1499, false, &mut ok()).unwrap().state_changed);
    let x = m.poll(1500, false, &mut ok()).unwrap();
    assert!(x.state_changed);
    assert_eq!(m.binary_state(), Some(DriverBinaryState::Off));
}

#[test]
fn external_on_trigger_toggles() {
    let mut m = relay(None, &["button"]);
    let on = ModuleEvent { source_module_id: "button".to_string(), state: DriverBinaryState::On };
    let off = ModuleEvent { source_module_id: "button".to_string(), state: DriverBinaryState::Off };
    let other = ModuleEvent { source_module_id: "lamp".to_string(), state: DriverBinaryState::On };
    assert!(!m.handle_event(&off, 0, &mut ok()).unwrap().state_changed);
    assert!(!m.handle_event(&other, 0, &mut ok()).unwrap().state_changed);
    assert!(m.handle_event(&on, 0, &mut ok()).unwrap().state_changed);
    assert_eq!(m.binary_state(), Some(DriverBinaryState::On));
}

#[test]
fn debounce_reports_settled_changes_only() {
    let mut d = DebouncedToggleInput::new(false, 0);
    assert!(!d.poll(true, 10));
    assert!(!d.poll(true, 10 + TRIGGER_DEBOUNCE_MS - 1));
    assert!(d.poll(true, 10 + TRIGGER_DEBOUNCE_MS));
    assert!(!d.poll(true, 1000));
    // a glitch that comes back before it settles is never reported
    assert!(!d.poll(false, 2000));
    assert!(!d.poll(true, 2010));
    assert!(!d.poll(true, 5000));
}

#[test]
fn change_source_labels() {
    assert_eq!(RelayStateChangeSource::MqttCommand("ON".to_string()).label(), "mqtt_on");
    assert_eq!(RelayStateChangeSource::MqttCommand("OFF".to_string()).label(), "mqtt_off");
    assert_eq!(RelayStateChangeSource::MqttCommand("TOGGLE".to_string()).label(), "mqtt_toggle");
    assert_eq!(RelayStateChangeSource::GpioTrigger.label(), "gpio_trigger");
    assert_eq!(RelayStateChangeSource::AutoOffTimer.label(), "auto_off");
    assert_eq!(RelayStateChangeSource::ExternalModule.label(), "module_trigger");
}

fn two_module_config() -> ResourceConfig {
    let mut c = ResourceConfig::default();
    let follower = ModuleSettings {
        auto_off_ms: None,
        external_on_triggers: vec![ExternalModuleTriggerConfig { source_module_id: "a".to_string() }],
    };
    c.module_instances = vec![switch_module("a", 23, ModuleSettings::default()), switch_module("b", 22, follower)];
    c
}

#[test]
fn manager_loads_and_propagates_events() {
    let r = SchemaRegistry::built_in().unwrap();
    let mut g = GpioManager::new(BoardProfile::esp32_devkit_v1());
    let mut mgr = ModuleManager::load(&two_module_config(), &mut g, &r).unwrap();
    assert_eq!(mgr.len(), 2);
    assert_eq!(mgr.module_at(1).output_pin(), 22);
    let changed = mgr.execute_command("a", "ON", 0, &mut ok()).unwrap();
    assert_eq!(changed, vec!["a".to_string(), "b".to_string()]);
    assert_eq!(mgr.binary_state("b"), Some(DriverBinaryState::On));
    assert_eq!(mgr.state_to_publish("a"), Ok(DriverBinaryState::On));
    assert_eq!(msg(mgr.state_to_publish("zz").unwrap_err()), "Unknown module 'zz'");
    assert_eq!(msg(mgr.execute_command("zz", "ON", 0, &mut ok()).unwrap_err()), "Unknown module 'zz'");
    let levels = vec![false, false];
    assert!(mgr.poll_changes(10, &levels, &mut ok()).unwrap().is_empty());
}

#[test]
fn manager_command_payloads_are_trimmed_and_upper_cased() {
    let r = SchemaRegistry::built_in().unwrap();
    let mut g = GpioManager::new(BoardProfile::esp32_devkit_v1());
    let mut mgr = ModuleManager::load(&two_module_config(), &mut g, &r).unwrap();
    let cmd = ModuleCommand { module_id: "a".to_string(), payload: b"  toggle \n".to_vec() };
    assert_eq!(mgr.handle_command(&cmd, 0, &mut ok()).unwrap(), vec!["a".to_string(), "b".to_string()]);
    let bad = ModuleCommand { module_id: "a".to_string(), payload: vec![0xff, 0xfe] };
    assert!(matches!(mgr.handle_command(&bad, 0, &mut ok()), Err(AppError::Utf8(_))));
}

#[test]
fn manager_load_refuses_conflicting_pins() {
    let r = SchemaRegistry::built_in().unwrap();
    let mut g = GpioManager::new(BoardProfile::esp32_devkit_v1());
    let mut c = ResourceConfig::default();
    c.module_instances = vec![
        switch_module("a", 23, ModuleSettings::default()),
        switch_module("b", 23, ModuleSettings::default()),
    ];
    let err = ModuleManager::load(&c, &mut g, &r).err().unwrap();
    assert_eq!(msg(err), "GPIO23 is already claimed by module 'a' role core:relay_output");
    assert_eq!(ModuleManager::empty().len(), 0);
}

#[test]
fn switch_commands_are_normalized() {
    assert_eq!(normalize_switch_command(" on ").unwrap(), "ON");
    assert_eq!(normalize_switch_command("Toggle").unwrap(), "TOGGLE");
    assert_eq!(msg(normalize_switch_command("dim").unwrap_err()), "Unsupported switch command 'dim'");
    assert_eq!(parse_switch_command(b"off", Err("unused".to_string())).unwrap(), "OFF");
    assert_eq!(parse_switch_command(b"{\"state\":\"on\"}", Ok("on".to_string())).unwrap(), "ON");
    assert!(matches!(parse_switch_command(b"{x", Err("bad".to_string())), Err(AppError::Json(t)) if t == "bad"));
    assert_eq!(msg(parse_switch_command(b"", Ok("ON".to_string())).unwrap_err()), "Switch command payload cannot be empty");
    let e = msg(parse_switch_command(&[0xc3], Err(String::new())).unwrap_err());
    assert!(e.starts_with("Invalid switch command UTF-8: "));
}

fn device(id: &str, driver: &str) -> DeviceInstanceConfig {
    DeviceInstanceConfig {
        id: id.to_string(),
        device_type_id: "core:switch".to_string(),
        display_name: None,
        driver_module_id: driver.to_string(),
    }
}

#[test]
fn normalize_provisions_one_device_per_single_module_and_is_idempotent() {
    let r = SchemaRegistry::built_in().unwrap();
    let mut c = two_module_config();
    c.module_instances[1].display_name = Some("Lamp".to_string());
    let (n, changed) = DeviceRegistry::normalize_config(&c, &r).unwrap();
    assert!(changed);
    let ids: Vec<&str> = n.device_instances.iter().map(|d| d.id.as_str()).collect();
    assert_eq!(ids, vec!["a__device", "b__device"]);
    assert_eq!(n.device_instances[0].display_name.as_deref(), Some("a"));
    assert_eq!(n.device_instances[1].display_name.as_deref(), Some("Lamp"));
    let (again, changed_again) = DeviceRegistry::normalize_config(&n, &r).unwrap();
    assert!(!changed_again);
    assert_eq!(again, n);
    assert!(DeviceRegistry::validate_config(&n, &r).is_ok());
}

#[test]
fn normalize_refuses_taken_default_device_id() {
    let r = SchemaRegistry::built_in().unwrap();
    let mut c = two_module_config();
    c.device_instances = vec![device("a__device", "b")];
    assert_eq!(
        msg(DeviceRegistry::normalize_config(&c, &r).unwrap_err()),
        "Cannot auto-provision device for module 'a' because device id 'a__device' is already in use"
    );
}

#[test]
fn device_validation_errors() {
    let r = SchemaRegistry::built_in().unwrap();
    let mut c = two_module_config();
    c.device_instances = vec![device("d1", "a"), device("d1", "b")];
    assert_eq!(msg(DeviceRegistry::validate_config(&c, &r).unwrap_err()), "Device instance 'd1' is defined more than once");
    c.device_instances = vec![device("", "a")];
    assert_eq!(msg(DeviceRegistry::validate_config(&c, &r).unwrap_err()), "Device instance id cannot be empty");
    c.device_instances = vec![device("d1", "zz")];
    assert_eq!(
        msg(DeviceRegistry::validate_config(&c, &r).unwrap_err()),
        "Device 'd1' references unknown driver module 'zz'"
    );
    c.device_instances = vec![device("d1", "a")];
    assert_eq!(
        msg(DeviceRegistry::validate_config(&c, &r).unwrap_err()),
        "Module 'b' requires exactly one logical device, found 0"
    );
}

#[test]
fn devices_follow_their_driver_modules() {
    let r = SchemaRegistry::built_in().unwrap();
    let (c, _) = DeviceRegistry::normalize_config(&two_module_config(), &r).unwrap();
    let reg = DeviceRegistry::load(&c, &r).unwrap();
    assert_eq!(reg.device_ids(), vec!["a__device".to_string(), "b__device".to_string()]);
    assert_eq!(reg.device("b__device").unwrap().driver_module_id(), "b");
    assert!(reg.device("x").is_none());
    let changed = vec!["b".to_string(), "a".to_string(), "b".to_string()];
    assert_eq!(reg.devices_for_modules(&changed), vec!["b__device".to_string(), "a__device".to_string()]);
    let snap = reg.snapshot(&c);
    assert_eq!(snap.device_instances.len(), 2);
    assert_eq!(reg.type_schemas(&r).len(), 1);

    let mut g = GpioManager::new(BoardProfile::esp32_devkit_v1());
    let mut mgr = ModuleManager::load(&c, &mut g, &r).unwrap();
    let cmd = DeviceCommand { device_id: "a__device".to_string(), payload: b"on".to_vec() };
    let changed = reg.handle_command(&cmd, Err(String::new()), &mut mgr, 0, &mut ok()).unwrap();
    assert_eq!(changed, vec!["a".to_string(), "b".to_string()]);
    assert_eq!(reg.device("a__device").unwrap().state_payload(&mgr).unwrap(), "ON");
    let unknown = DeviceCommand { device_id: "nope".to_string(), payload: b"on".to_vec() };
    assert_eq!(msg(reg.handle_command(&unknown, Err(String::new()), &mut mgr, 0, &mut ok()).unwrap_err()), "Unknown device 'nope'");
    let orphan = SwitchController::new("s".to_string(), "missing".to_string());
    assert_eq!(msg(orphan.state_payload(&mgr).unwrap_err()), "Driver module 'missing' not available for device 's'");
    assert!(DeviceRegistry::empty().device_ids().is_empty());
}

#[test]
fn device_load_refuses_unsupported_controllers() {
    let r = SchemaRegistry::built_in().unwrap();
    let mut c = ResourceConfig::default();
    c.device_instances = vec![DeviceInstanceConfig {
        id: "d".to_string(),
        device_type_id: "core:dimmer".to_string(),
        display_name: None,
        driver_module_id: "a".to_string(),
    }];
    assert!(DeviceRegistry::load(&c, &r).is_err());
}

fn pin_error() -> AppError {
    AppError::Esp { code: 258, text: "ESP_ERR_INVALID_ARG".to_string() }
}

#[test]
fn relay_write_failure_keeps_state() {
    let mut m = relay(Some(500), &[]);
    let mut pins = PinWrites::failing_at(0, pin_error());
    assert_eq!(m.handle_command("ON", 0, &mut pins).unwrap_err(), pin_error());
    assert_eq!(m.binary_state(), Some(DriverBinaryState::Off));
    assert!(pins.made.is_empty());
    // no deadline was started: a later poll does nothing
    assert!(!m.poll(10_000, false, &mut ok()).unwrap().state_changed);
    let mut pins = ok();
    assert!(m.handle_command("ON", 0, &mut pins).unwrap().state_changed);
    assert_eq!(pins.made, vec![PinWrite { pin: 23, high: true }]);
    // a repeated state is written again
    assert!(!m.handle_command("ON", 1, &mut pins).unwrap().state_changed);
    assert_eq!(pins.made, vec![PinWrite { pin: 23, high: true }, PinWrite { pin: 23, high: true }]);
}

#[test]
fn manager_write_failure_stops_propagation() {
    let r = SchemaRegistry::built_in().unwrap();
    let mut g = GpioManager::new(BoardProfile::esp32_devkit_v1());
    let mut mgr = ModuleManager::load(&two_module_config(), &mut g, &r).unwrap();
    let mut plan = ok();
    let saved = mgr.runtime_states();
    assert_eq!(mgr.execute_command("a", "ON", 0, &mut plan).unwrap(), vec!["a".to_string(), "b".to_string()]);
    assert_eq!(plan.made, vec![PinWrite { pin: 23, high: true }, PinWrite { pin: 22, high: true }]);
    // the second write fails: put the states back and run again with it failing
    mgr.restore_runtime_states(&saved);
    assert_eq!(mgr.binary_state("a"), Some(DriverBinaryState::Off));
    assert_eq!(mgr.binary_state("b"), Some(DriverBinaryState::Off));
    let mut pins = PinWrites::failing_at(1, pin_error());
    assert_eq!(mgr.execute_command("a", "ON", 0, &mut pins).unwrap_err(), pin_error());
    assert_eq!(pins.made, vec![PinWrite { pin: 23, high: true }]);
    assert_eq!(mgr.binary_state("a"), Some(DriverBinaryState::On));
    assert_eq!(mgr.binary_state("b"), Some(DriverBinaryState::Off));
}

#[test]
fn normalizing_an_empty_built_in_config_changes_nothing_and_validates() {
    let r = SchemaRegistry::built_in().unwrap();
    let (n, changed) = DeviceRegistry::normalize_config(&ResourceConfig::default(), &r).unwrap();
    assert!(!changed);
    assert!(n.device_instances.is_empty());
    assert!(DeviceRegistry::validate_config(&n, &r).is_ok());
}
