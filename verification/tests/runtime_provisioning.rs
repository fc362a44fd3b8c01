use nks_smart_home::board::BoardProfile;
use nks_smart_home::config::{
    DeviceConfig, ModuleInstanceConfig, ModuleSettings, MqttConfig, PinBindingConfig, ResourceBindingTarget,
    ResourceConfig, WifiConfig,
};
use nks_smart_home::control::{
    check_resources, get_config_result, plan_set_resources, set_resources_saved_result, validate_resources_result,
    ResourceProposal,
};
use nks_smart_home::error::AppError;
use nks_smart_home::gpio::GpioManager;
use nks_smart_home::indicator::{indicator_steps, IndicatorMode, LedIndicator, LedStep, RuntimeSignals};
use nks_smart_home::portal::{
    portal_route, request_path, server_route, ActionResponse, HttpMethod, PortalRoute, RequestBody, ServerRoute,
};
use nks_smart_home::provisioning::{build_mqtt_config, same_mqtt_config, MqttPayload, ProvisioningController};
use nks_smart_home::runtime::{
    detect_boot_mode, BootMode, ConnectivityStep, DegradedReason, OperationalStatus, RuntimeAction, RuntimeMonitor,
    RuntimeState, RETRY_DELAY_MS,
};
use nks_smart_home::schemas::registry::SchemaRegistry;

fn msg(e: AppError) -> String {
    match e {
        AppError::Message(m) => m,
        other => panic!("unexpected error {other:?}"),
    }
}

fn degraded(reason: DegradedReason, action: Option<RuntimeAction>) -> RuntimeState {
    RuntimeState { status: OperationalStatus::Degraded, reason: Some(reason), action }
}

fn complete_config() -> DeviceConfig {
    DeviceConfig {
        wifi: WifiConfig { ssid: "home".to_string(), password: "pw".to_string() },
        mqtt: MqttConfig {
            host: "h".to_string(),
            port: 1883,
            username: String::new(),
            password: String::new(),
            client_id: "c".to_string(),
            base_topic: "b".to_string(),
        },
        resources: ResourceConfig::default(),
    }
}

#[test]
fn boot_mode_follows_stored_config() {
    assert_eq!(detect_boot_mode(&None), BootMode::Provisioning);
    assert_eq!(detect_boot_mode(&Some(complete_config())), BootMode::Normal);
    let mut partial = complete_config();
    partial.wifi.ssid = String::new();
    assert_eq!(detect_boot_mode(&Some(partial)), BootMode::Provisioning);
}

#[test]
fn state_changes_are_reported_once() {
    let mut m = RuntimeMonitor::new();
    assert_eq!(m.state, degraded(DegradedReason::Unknown, None));
    assert!(m.set_operational_action(Some(RuntimeAction::WifiConnecting)));
    assert!(!m.set_operational_action(Some(RuntimeAction::WifiConnecting)));
    assert_eq!(m.reason_for_current_action(), DegradedReason::WifiDisconnected);
    assert!(m.set_provisioning_action(None));
    assert!(m.set_degraded(DegradedReason::MqttDisconnected, Some(RuntimeAction::MqttConnecting)));
}

#[test]
fn failed_runs_are_put_down_to_the_action() {
    let mut m = RuntimeMonitor::new();
    m.set_operational_action(Some(RuntimeAction::MqttConnecting));
    let r = m.finish_result(Err(AppError::Message("x".to_string())));
    assert!(r.is_err());
    assert_eq!(m.state, degraded(DegradedReason::MqttDisconnected, None));
    let mut ok = RuntimeMonitor::new();
    ok.set_operational_action(None);
    assert!(ok.finish_result(Ok(())).is_ok());
    assert_eq!(ok.state.status, OperationalStatus::Operational);
}

#[test]
fn wifi_retry_waits_for_the_delay() {
    let mut m = RuntimeMonitor::new();
    assert_eq!(m.check_connectivity(false, None, 1000), ConnectivityStep::Continue);
    assert_eq!(m.wifi_retry_at, Some(1000 + RETRY_DELAY_MS));
    assert_eq!(m.state, degraded(DegradedReason::WifiDisconnected, Some(RuntimeAction::WifiConnecting)));
    assert_eq!(m.check_connectivity(false, None, 2999), ConnectivityStep::Continue);
    assert_eq!(m.check_connectivity(false, None, 3000), ConnectivityStep::ReconnectWifi);
    assert!(!m.wifi_reconnect_finished(false, 3500));
    assert_eq!(m.check_connectivity(false, None, 5499), ConnectivityStep::Continue);
    assert_eq!(m.check_connectivity(false, None, 5500), ConnectivityStep::ReconnectWifi);
    assert!(m.wifi_reconnect_finished(true, 5600));
    assert_eq!(m.state, degraded(DegradedReason::MqttDisconnected, Some(RuntimeAction::MqttConnecting)));
    assert_eq!(m.wifi_retry_at, None);
    m.mqtt_attempt_finished(true, true, 5700);
    assert_eq!(m.state.status, OperationalStatus::Operational);
    assert_eq!(m.mqtt_retry_at, None);
    assert_eq!(m.check_connectivity(true, Some(true), 6000), ConnectivityStep::Continue);
    assert_eq!(m.state.status, OperationalStatus::Operational);
}

#[test]
fn mqtt_retry_and_recovery() {
    let mut m = RuntimeMonitor::new();
    m.set_operational_action(None);
    assert_eq!(m.check_connectivity(true, Some(false), 100), ConnectivityStep::Continue);
    assert_eq!(m.check_connectivity(true, Some(false), 2100), ConnectivityStep::WaitForMqtt);
    m.mqtt_attempt_finished(false, false, 2200);
    assert_eq!(m.state, degraded(DegradedReason::WifiDisconnected, Some(RuntimeAction::MqttConnecting)));
    m.mqtt_attempt_finished(false, true, 2300);
    assert_eq!(m.mqtt_retry_at, Some(2300 + RETRY_DELAY_MS));
    assert_eq!(m.state, degraded(DegradedReason::MqttDisconnected, Some(RuntimeAction::MqttConnecting)));
    // the session reconnected by itself
    assert_eq!(m.check_connectivity(true, Some(true), 2400), ConnectivityStep::Continue);
    assert_eq!(m.state.status, OperationalStatus::Operational);
}

#[test]
fn indicator_patterns() {
    let on = |ms| LedStep { on: true, duration_ms: ms };
    let off = |ms| LedStep { on: false, duration_ms: ms };
    assert_eq!(indicator_steps(IndicatorMode::Off), vec![off(200)]);
    let prov = RuntimeState { status: OperationalStatus::Provisioning, reason: None, action: None };
    assert_eq!(indicator_steps(IndicatorMode::State(prov)), vec![on(120), off(120)]);
    let connecting = RuntimeState {
        status: OperationalStatus::Operational,
        reason: None,
        action: Some(RuntimeAction::MqttConnecting),
    };
    assert_eq!(indicator_steps(IndicatorMode::State(connecting)), vec![on(500), off(500)]);
    let running = RuntimeState { status: OperationalStatus::Operational, reason: None, action: None };
    assert_eq!(indicator_steps(IndicatorMode::State(running)), vec![on(200)]);
    let wifi = indicator_steps(IndicatorMode::State(degraded(DegradedReason::WifiDisconnected, None)));
    assert_eq!(wifi, vec![off(2000), on(200), off(200), on(200), off(200)]);
    assert_eq!(indicator_steps(IndicatorMode::State(degraded(DegradedReason::MqttDisconnected, None))).len(), 9);
    assert_eq!(indicator_steps(IndicatorMode::State(degraded(DegradedReason::Unknown, None))).len(), 17);
    let no_reason = RuntimeState { status: OperationalStatus::Degraded, reason: None, action: None };
    assert_eq!(indicator_steps(IndicatorMode::State(no_reason)).len(), 17);
}

#[test]
fn indicator_and_signals() {
    let mut led = LedIndicator::new();
    assert_eq!(led.mode(), IndicatorMode::Off);
    led.set_mode(IndicatorMode::State(RuntimeState::initial()));
    led.tick();
    assert_eq!(led.mode(), IndicatorMode::State(RuntimeState::initial()));
    let s = RuntimeSignals::new();
    let shared = s.clone();
    assert!(!s.is_restart_pending());
    shared.mark_restart_pending();
    assert!(s.is_restart_pending());
    assert!(shared.is_restart_pending());
    assert!(!RuntimeSignals::default().is_restart_pending());
}

fn payload(protocol: &str) -> MqttPayload {
    MqttPayload {
        protocol: protocol.to_string(),
        broker: "broker.lan".to_string(),
        username: "u".to_string(),
        password: "p".to_string(),
    }
}

#[test]
fn broker_configs_from_portal_details() {
    let c = build_mqtt_config("H0m3-AB12", payload("SSL"));
    assert_eq!(c.port, 8883);
    assert_eq!(c.client_id, "h0m3-ab12");
    assert_eq!(c.base_topic, "nks/home/h0m3-ab12");
    assert_eq!(c.host, "broker.lan");
    assert_eq!(build_mqtt_config("X", payload("tcp")).port, 1883);
    assert!(same_mqtt_config(&c, &build_mqtt_config("H0m3-AB12", payload("ssl"))));
    assert!(!same_mqtt_config(&c, &build_mqtt_config("H0m3-AB12", payload("tcp"))));
}

#[test]
fn wifi_provisioning_flow() {
    let mut p = ProvisioningController::new("H0m3-1".to_string());
    assert_eq!(p.wifi_test_status().state, "idle");
    assert_eq!(p.wifi_test_status().message, "Ready to connect H0m3.");
    assert_eq!(p.mqtt_test_status().message, "Ready to connect H0m3 to your broker.");
    assert_eq!(p.ap_ssid(), "H0m3-1");
    let wifi = WifiConfig { ssid: "home".to_string(), password: "pw".to_string() };
    assert_eq!(msg(p.confirm_tested_wifi(&wifi).unwrap_err()), "Please confirm your Wi-Fi connection before continuing.");
    assert_eq!(msg(p.wifi_for_mqtt_test().unwrap_err()), "Please finish the Wi-Fi step before broker setup.");
    p.schedule_wifi_test(wifi.clone());
    assert_eq!(p.wifi_test_status().state, "scheduled");
    let pending = p.take_pending_wifi_test().unwrap();
    assert!(p.take_pending_wifi_test().is_none());
    p.mark_wifi_test_running(&pending.ssid);
    assert_eq!(p.wifi_test_status().message, "Checking connection to 'home'");
    p.mark_wifi_test_success(pending, "192.168.1.7".to_string());
    assert_eq!(p.wifi_test_status().ip.as_deref(), Some("192.168.1.7"));
    assert!(p.confirm_tested_wifi(&wifi).is_ok());
    let other = WifiConfig { ssid: "home".to_string(), password: "other".to_string() };
    assert_eq!(msg(p.confirm_tested_wifi(&other).unwrap_err()), "Please use the same Wi-Fi details you just confirmed.");
    p.mark_wifi_saved();
    assert_eq!(p.wifi_test_status().state, "saved");
    assert_eq!(p.wifi_for_mqtt_test().unwrap(), wifi);
    p.mark_wifi_test_error(&AppError::Esp { code: 261, text: "ESP_ERR_NOT_FOUND".to_string() });
    let st = p.wifi_test_status();
    assert_eq!(st.state, "error");
    assert_eq!(st.message, "ESP error: ESP_ERR_NOT_FOUND");
    assert_eq!(st.error_code, Some(261));
}

#[test]
fn broker_provisioning_flow() {
    let mut p = ProvisioningController::new("H0m3-1".to_string());
    assert_eq!(msg(p.confirm_tested_mqtt(payload("ssl")).unwrap_err()), "Please confirm your broker connection before finishing.");
    p.schedule_mqtt_test(payload("ssl"));
    assert_eq!(p.mqtt_test_status().message, "Connecting H0m3 to your broker.");
    let cfg = p.take_pending_mqtt_test().unwrap();
    assert_eq!(cfg.client_id, "h0m3-1");
    p.mark_mqtt_test_running(&cfg.host);
    assert_eq!(p.mqtt_test_status().message, "Checking broker connection to 'broker.lan'");
    p.mark_mqtt_test_success(cfg);
    assert_eq!(p.mqtt_test_status().state, "success");
    let saved = p.confirm_tested_mqtt(payload("SSL")).unwrap();
    assert_eq!(saved.port, 8883);
    assert_eq!(
        msg(p.confirm_tested_mqtt(payload("tcp")).unwrap_err()),
        "Please use the same broker details you just confirmed."
    );
    assert_eq!(p.mark_mqtt_saved(), "H0m3 is ready and will reboot to apply your settings.");
    assert_eq!(p.mqtt_test_status().state, "saved");
    p.mark_mqtt_test_error(&AppError::Message("Unable to reach your broker.".to_string()));
    assert_eq!(p.mqtt_test_status().error_code, None);
}

#[test]
fn portal_routes() {
    assert_eq!(portal_route(HttpMethod::Get, "/"), PortalRoute::ProvisioningPage);
    assert_eq!(portal_route(HttpMethod::Get, "/assets/provisioning.css"), PortalRoute::Stylesheet);
    assert_eq!(portal_route(HttpMethod::Get, "/assets/provisioning.js"), PortalRoute::Script);
    assert_eq!(portal_route(HttpMethod::Get, "/api/provisioning/status"), PortalRoute::ProvisioningStatus);
    assert_eq!(portal_route(HttpMethod::Get, "/api/networks"), PortalRoute::Networks);
    assert_eq!(portal_route(HttpMethod::Get, "/api/wifi-status"), PortalRoute::WifiStatus);
    assert_eq!(portal_route(HttpMethod::Get, "/api/mqtt-status"), PortalRoute::MqttStatus);
    assert_eq!(portal_route(HttpMethod::Get, "/generate_204"), PortalRoute::ProvisioningPage);
    assert_eq!(portal_route(HttpMethod::Post, "/api/test-wifi"), PortalRoute::TestWifi);
    assert_eq!(portal_route(HttpMethod::Post, "/api/save-wifi"), PortalRoute::SaveWifi);
    assert_eq!(portal_route(HttpMethod::Post, "/api/test-mqtt"), PortalRoute::TestMqtt);
    assert_eq!(portal_route(HttpMethod::Post, "/api/save-mqtt"), PortalRoute::SaveMqtt);
    assert_eq!(portal_route(HttpMethod::Post, "/"), PortalRoute::MethodNotAllowed);
    assert_eq!(portal_route(HttpMethod::Post, "/unknown"), PortalRoute::MethodNotAllowed);
    assert_eq!(portal_route(HttpMethod::Other, "/"), PortalRoute::MethodNotAllowed);
    assert_eq!(server_route(HttpMethod::Get, "/"), ServerRoute::Index);
    assert_eq!(server_route(HttpMethod::Post, "/api/reset-configuration"), ServerRoute::ResetConfiguration);
    assert_eq!(server_route(HttpMethod::Get, "/api/reset-configuration"), ServerRoute::MethodNotAllowed);
    assert_eq!(server_route(HttpMethod::Post, "/"), ServerRoute::MethodNotAllowed);
    assert_eq!(server_route(HttpMethod::Other, "/"), ServerRoute::MethodNotAllowed);
    assert_eq!(server_route(HttpMethod::Get, "/missing"), ServerRoute::NotFound);
    assert_eq!(server_route(HttpMethod::Post, "/missing"), ServerRoute::NotFound);
    assert_eq!(request_path("/api/networks?x=1"), "/api/networks");
    assert_eq!(request_path("/plain"), "/plain");
    assert_eq!(request_path("?q"), "");
}

#[test]
fn action_responses() {
    assert_eq!(ActionResponse::wifi_test_started().message, "Wi-Fi test started. Polling for result.");
    assert_eq!(ActionResponse::wifi_saved().message, "Wi-Fi configuration saved. MQTT setup is next.");
    assert_eq!(ActionResponse::mqtt_test_started().message, "Broker connection check started.");
    assert_eq!(ActionResponse::configuration_cleared().message, "Configuration cleared. Rebooting device.");
    let r = ActionResponse::mqtt_saved("done".to_string());
    assert!(r.ok);
    assert_eq!(r.message, "done");
}

#[test]
fn request_bodies_are_bounded() {
    let mut b = RequestBody::new();
    assert!(b.append_chunk(&[b'a'; 4000]).is_ok());
    assert!(b.append_chunk(&[b'b'; 96]).is_ok());
    assert_eq!(b.finish().unwrap().len(), 4096);
    let mut big = RequestBody::new();
    assert!(big.append_chunk(&[0; 4096]).is_ok());
    assert_eq!(msg(big.append_chunk(&[0]).unwrap_err()), "Request body too large");
    assert_eq!(msg(RequestBody::new().finish().unwrap_err()), "Request body is empty");
}

fn switch_module(id: &str, pin: u8) -> ModuleInstanceConfig {
    ModuleInstanceConfig {
        id: id.to_string(),
        module_type_id: "core:gpio_switch".to_string(),
        display_name: None,
        bindings: vec![PinBindingConfig {
            role_id: "core:relay_output".to_string(),
            target: ResourceBindingTarget::Gpio { pin },
        }],
        settings: ModuleSettings::default(),
    }
}

#[test]
fn validate_and_set_resources_agree() {
    let r = SchemaRegistry::built_in().unwrap();
    let mut gpio = GpioManager::new(BoardProfile::esp32_devkit_v1());
    let mut good = ResourceConfig::default();
    good.module_instances = vec![switch_module("a", 23)];
    let v = validate_resources_result(&gpio, Some("1".to_string()), &good, &r).unwrap();
    assert!(v.ok);
    assert_eq!(v.message, "Resource configuration is valid.");
    assert_eq!(v.command, "validate_resources");
    match plan_set_resources(&mut gpio, Some("2".to_string()), &good, &r).unwrap() {
        ResourceProposal::Accepted { resources, modules, devices } => {
            assert_eq!(resources.device_instances.len(), 1);
            assert_eq!(modules.len(), 1);
            assert_eq!(devices.device_ids(), vec!["a__device".to_string()]);
        }
        ResourceProposal::Rejected(p) => panic!("{p:?}"),
    }
    let mut bad = ResourceConfig::default();
    bad.module_instances = vec![switch_module("a", 23), switch_module("b", 23)];
    let v = validate_resources_result(&gpio, None, &bad, &r).unwrap();
    assert!(!v.ok);
    assert_eq!(v.message, "GPIO23 is assigned to both 'a' and 'b'");
    match plan_set_resources(&mut gpio, None, &bad, &r).unwrap() {
        ResourceProposal::Rejected(p) => {
            assert_eq!(p.command, "set_resources");
            assert_eq!(p.message, v.message);
        }
        ResourceProposal::Accepted { .. } => panic!("accepted a conflicting configuration"),
    }
    assert!(check_resources(&gpio, &bad, &r).is_err());
    let mut unknown = ResourceConfig::default();
    unknown.module_instances = vec![switch_module("a", 23)];
    unknown.module_instances[0].module_type_id = "core:x".to_string();
    assert_eq!(msg(validate_resources_result(&gpio, None, &unknown, &r).unwrap_err()), "Unknown module schema 'core:x'");
    assert_eq!(get_config_result(None).message, "Published current board, resource, and device configuration.");
    assert_eq!(set_resources_saved_result(None).message, "Resource configuration saved successfully.");
}

#[test]
fn clock_bound_for_retries() {
    assert!(nks_smart_home::runtime::time_fits_at(0));
    assert!(nks_smart_home::runtime::time_fits_at(u64::MAX - nks_smart_home::runtime::RETRY_DELAY_MS));
    assert!(!nks_smart_home::runtime::time_fits_at(u64::MAX - nks_smart_home::runtime::RETRY_DELAY_MS + 1));
}
