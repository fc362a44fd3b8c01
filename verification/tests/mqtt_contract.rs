use nks_smart_home::board::BoardProfile;
use nks_smart_home::config::{MqttConfig, ResourceConfig};
use nks_smart_home::mqtt::{
    broker_url, matching_subscriptions, optional_str, received_message, topic_matches, ContractAction,
    ContractCommand, DecodedRequest, DeviceAvailabilityPayload, MqttContract, MqttSessionState, MqttTopics,
    PublishedDocument, WaitStep, FIRMWARE_VERSION,
};

fn mqtt_config(port: u16) -> MqttConfig {
    MqttConfig {
        host: "broker.local".to_string(),
        port,
        username: "u".to_string(),
        password: "p".to_string(),
        client_id: "node-7".to_string(),
        base_topic: "nks/home/node-7".to_string(),
    }
}

fn contract() -> MqttContract {
    MqttContract::new(&mqtt_config(1883), &BoardProfile::esp32_devkit_v1())
}

#[test]
fn topic_layout() {
    let t = MqttTopics::new("base".to_string());
    assert_eq!(t.availability(), "base/status/availability");
    assert_eq!(t.info(), "base/status/info");
    assert_eq!(t.board_config(), "base/config/board");
    assert_eq!(t.resources_config(), "base/config/resources");
    assert_eq!(t.config_result(), "base/evt/config_result");
    assert_eq!(t.devices_config(), "base/config/devices");
    assert_eq!(t.module_types(), "base/schema/module_types");
    assert_eq!(t.device_types(), "base/schema/device_types");
    assert_eq!(t.get_config_command(), "base/cmd/get_config");
    assert_eq!(t.validate_resources_command(), "base/cmd/validate_resources");
    assert_eq!(t.set_resources_command(), "base/cmd/set_resources");
    assert_eq!(t.command_wildcard(), "base/cmd/#");
    assert_eq!(t.module_command("relay"), "base/mod/relay/cmd");
    assert_eq!(t.module_state("relay"), "base/mod/relay/state");
    assert_eq!(t.module_command_wildcard(), "base/mod/+/cmd");
    assert_eq!(t.device_state("lamp"), "base/dev/lamp/state");
    assert_eq!(t.device_command("lamp"), "base/dev/lamp/cmd");
    assert_eq!(t.device_command_wildcard(), "base/dev/+/cmd");
}

#[test]
fn command_topics_round_trip() {
    let t = MqttTopics::new("nks/home/a".to_string());
    for id in ["relay", "x", "kitchen_light"] {
        assert_eq!(t.parse_module_command_topic(&t.module_command(id)), Some(id.to_string()));
        assert_eq!(t.parse_device_command_topic(&t.device_command(id)), Some(id.to_string()));
    }
    assert_eq!(t.parse_module_command_topic("nks/home/a/mod//cmd"), None);
    assert_eq!(t.parse_module_command_topic("nks/home/a/mod/x/y/cmd"), None);
    assert_eq!(t.parse_module_command_topic("nks/home/a/mod/x/state"), None);
    assert_eq!(t.parse_module_command_topic("other/mod/x/cmd"), None);
}

#[test]
fn wildcards_cover_their_topics() {
    let t = MqttTopics::new("nks/home/a".to_string());
    assert!(topic_matches(&t.module_command_wildcard(), &t.module_command("relay")));
    assert!(topic_matches(&t.device_command_wildcard(), &t.device_command("lamp")));
    assert!(topic_matches(&t.command_wildcard(), &t.get_config_command()));
    assert!(topic_matches(&t.command_wildcard(), &t.set_resources_command()));
    assert!(!topic_matches(&t.module_command_wildcard(), &t.module_state("relay")));
    assert!(!topic_matches(&t.module_command_wildcard(), "nks/home/a/mod/x/y/cmd"));
    assert!(topic_matches("#", "anything/at/all"));
    assert!(topic_matches("a/+", "a/"));
    assert!(!topic_matches("a/#/b", "a/x/b"));
    assert!(!topic_matches("a/b", "a/b/c"));
}

#[test]
fn subscriptions_matching_a_topic() {
    let filters = vec!["x/cmd/#".to_string(), "x/mod/+/cmd".to_string(), "x/#".to_string()];
    assert_eq!(matching_subscriptions(&filters, "x/mod/r/cmd"), vec![1, 2]);
    assert_eq!(matching_subscriptions(&filters, "x/cmd/get_config"), vec![0, 2]);
    assert!(matching_subscriptions(&filters, "y").is_empty());
}

#[test]
fn broker_urls_and_optional_credentials() {
    assert_eq!(broker_url(&mqtt_config(1883)), "mqtt://broker.local:1883");
    assert_eq!(broker_url(&mqtt_config(8883)), "mqtts://broker.local:8883");
    assert_eq!(optional_str("  user "), Some("user"));
    assert_eq!(optional_str("   "), None);
}

#[test]
fn contract_info_and_publications() {
    let c = contract();
    assert_eq!(c.topics().availability(), "nks/home/node-7/status/availability");
    let info = c.info();
    assert_eq!(info.device_id, "node-7");
    assert_eq!(info.client_id, "node-7");
    assert_eq!(info.board_id, "esp32-devkit-v1");
    assert_eq!(info.board_name, "ESP32 DevKit V1");
    assert_eq!(info.firmware_version, FIRMWARE_VERSION);
    assert_eq!(info.topic_root, "nks/home/node-7");
    let birth = c.birth_publications();
    let topics: Vec<&str> = birth.iter().map(|p| p.topic.as_str()).collect();
    assert_eq!(
        topics,
        vec![
            "nks/home/node-7/status/availability",
            "nks/home/node-7/status/info",
            "nks/home/node-7/config/board",
            "nks/home/node-7/config/resources",
            "nks/home/node-7/config/devices",
            "nks/home/node-7/schema/module_types",
            "nks/home/node-7/schema/device_types",
        ]
    );
    assert!(matches!(birth[4].document, PublishedDocument::DevicesConfig));
    assert!(matches!(birth[5].document, PublishedDocument::ModuleTypes));
    assert!(matches!(birth[6].document, PublishedDocument::DeviceTypes));
    assert!(birth.iter().all(|p| p.retain));
    assert!(matches!(&birth[0].document, PublishedDocument::Availability(a) if a.state == "online"));
    let will = c.last_will();
    assert!(matches!(&will.document, PublishedDocument::Availability(a) if a.state == "offline"));
    assert!(will.retain);
    let result = c.config_result_publication(MqttContract::ok_result("get_config", None, "m".to_string()));
    assert_eq!(result.topic, "nks/home/node-7/evt/config_result");
    assert!(!result.retain);
    assert!(c.resources_snapshot_publication().retain);
    assert_eq!(DeviceAvailabilityPayload::online().state, "online");
}

#[test]
fn command_dispatch() {
    let c = contract();
    assert_eq!(c.command_for_topic("nks/home/node-7/cmd/get_config"), ContractCommand::GetConfig);
    assert_eq!(c.command_for_topic("nks/home/node-7/cmd/validate_resources"), ContractCommand::ValidateResources);
    assert_eq!(c.command_for_topic("nks/home/node-7/cmd/set_resources"), ContractCommand::SetResources);
    assert_eq!(c.command_for_topic("nks/home/node-7/cmd/reboot"), ContractCommand::Unsupported);
}

#[test]
fn parse_action_outcomes() {
    let c = contract();
    let get = "nks/home/node-7/cmd/get_config";
    match c.parse_action(get, b"", DecodedRequest::Invalid("ignored".to_string())) {
        ContractAction::GetConfig { request_id } => assert_eq!(request_id, None),
        other => panic!("{other:?}"),
    }
    match c.parse_action(get, b"{}", DecodedRequest::RequestId(Some("r1".to_string()))) {
        ContractAction::GetConfig { request_id } => assert_eq!(request_id.as_deref(), Some("r1")),
        other => panic!("{other:?}"),
    }
    match c.parse_action(get, b"{", DecodedRequest::Invalid("EOF".to_string())) {
        ContractAction::PublishResult(p) => {
            assert_eq!(p.command, "get_config");
            assert!(!p.ok);
            assert_eq!(p.request_id, None);
            assert_eq!(p.message, "Invalid get_config request: EOF");
        }
        other => panic!("{other:?}"),
    }
    let set = "nks/home/node-7/cmd/set_resources";
    let decoded = DecodedRequest::Resources { request_id: Some("r2".to_string()), resources: ResourceConfig::default() };
    match c.parse_action(set, b"{...}", decoded) {
        ContractAction::SetResources { request_id, resources } => {
            assert_eq!(request_id.as_deref(), Some("r2"));
            assert_eq!(resources, ResourceConfig::default());
        }
        other => panic!("{other:?}"),
    }
    match c.parse_action("nks/home/node-7/cmd/validate_resources", b"x", DecodedRequest::Invalid("bad".to_string())) {
        ContractAction::PublishResult(p) => assert_eq!(p.message, "Invalid validate_resources request: bad"),
        other => panic!("{other:?}"),
    }
    match c.parse_action("nks/home/node-7/cmd/reboot", b"", DecodedRequest::Invalid(String::new())) {
        ContractAction::PublishResult(p) => {
            assert_eq!(p.command, "unknown");
            assert_eq!(p.message, "Unsupported MQTT command topic 'nks/home/node-7/cmd/reboot'");
        }
        other => panic!("{other:?}"),
    }
}

#[test]
fn result_payloads() {
    let ok = MqttContract::ok_result("set_resources", Some("id".to_string()), "done".to_string());
    assert!(ok.ok);
    assert_eq!(ok.command, "set_resources");
    assert_eq!(ok.request_id.as_deref(), Some("id"));
    let err = MqttContract::error_result("set_resources", None, "no".to_string());
    assert!(!err.ok);
    assert_eq!(err.message, "no");
}

#[test]
fn received_messages() {
    let m = received_message(true, Some("a/b"), b"xy").unwrap();
    assert_eq!(m.topic, "a/b");
    assert_eq!(m.payload, b"xy".to_vec());
    assert!(received_message(false, Some("a/b"), b"xy").is_none());
    assert!(received_message(true, None, b"xy").is_none());
}

#[test]
fn session_wait_steps() {
    let mut s = MqttSessionState::new();
    assert_eq!(s.wait_step(true), WaitStep::KeepWaiting);
    assert_eq!(
        s.wait_step(false),
        WaitStep::Failed("Unable to reach your broker. Please check the MQTT details and try again.".to_string())
    );
    s.on_error("ESP_ERR_TIMEOUT");
    assert_eq!(s.wait_step(true), WaitStep::Failed("MQTT connection error: ESP_ERR_TIMEOUT".to_string()));
    s.on_connected();
    assert_eq!(s.wait_step(true), WaitStep::Connected);
    assert!(s.last_error.is_none());
    s.on_disconnected();
    assert_eq!(s.wait_step(true), WaitStep::KeepWaiting);
}

#[test]
fn module_state_matches_no_command_filter_on_any_base() {
    for base in ["home/node", "home/+", "#", "+/x/#/y"] {
        let t = MqttTopics::new(base.to_string());
        let state = t.module_state("relay");
        assert!(!topic_matches(&t.module_command_wildcard(), &state));
        assert!(!topic_matches(&t.command_wildcard(), &state));
        assert!(!topic_matches(&t.command_wildcard(), &t.module_command("relay")));
    }
}
