//! The stored device configuration: the entries that the store reads, one
//! per key, and the configuration they make when every one is present.

use vstd::prelude::*;

use crate::config::{DeviceConfig, MqttConfig, ResourceConfig, WifiConfig};

verus! {

/// The stored entries of the Wi-Fi and MQTT namespaces; a missing key reads as none.
#[derive(Debug, Clone, PartialEq, Eq)]
pub struct StoredEntries {
    pub wifi_ssid: Option<String>,
    pub wifi_password: Option<String>,
    pub mqtt_host: Option<String>,
    pub mqtt_port: Option<u16>,
    pub mqtt_username: Option<String>,
    pub mqtt_password: Option<String>,
    pub mqtt_client_id: Option<String>,
    pub mqtt_base_topic: Option<String>,
}

/// Every entry is present.
pub open spec fn entries_complete(e: StoredEntries) -> bool {
    &&& e.wifi_ssid is Some
    &&& e.wifi_password is Some
    &&& e.mqtt_host is Some
    &&& e.mqtt_port is Some
    &&& e.mqtt_username is Some
    &&& e.mqtt_password is Some
    &&& e.mqtt_client_id is Some
    &&& e.mqtt_base_topic is Some
}

/// The configuration that complete entries make, with the stored resources.
pub open spec fn config_from(e: StoredEntries, resources: ResourceConfig) -> DeviceConfig {
    DeviceConfig {
        wifi: WifiConfig { ssid: e.wifi_ssid->0, password: e.wifi_password->0 },
        mqtt: MqttConfig {
            host: e.mqtt_host->0,
            port: e.mqtt_port->0,
            username: e.mqtt_username->0,
            password: e.mqtt_password->0,
            client_id: e.mqtt_client_id->0,
            base_topic: e.mqtt_base_topic->0,
        },
        resources,
    }
}

/// The stored configuration: none unless every entry is present.
pub fn device_config_from_entries(entries: StoredEntries, resources: ResourceConfig) -> (res: Option<DeviceConfig>)
    ensures
        entries_complete(entries) ==> res == Some(config_from(entries, resources)),
        !entries_complete(entries) ==> res is None,
{
    let StoredEntries {
        wifi_ssid,
        wifi_password,
        mqtt_host,
        mqtt_port,
        mqtt_username,
        mqtt_password,
        mqtt_client_id,
        mqtt_base_topic,
    } = entries;
    match (wifi_ssid, wifi_password, mqtt_host, mqtt_port) {
        (Some(ssid), Some(password), Some(host), Some(port)) => match (mqtt_username, mqtt_password, mqtt_client_id, mqtt_base_topic) {
            (Some(username), Some(mqtt_password), Some(client_id), Some(base_topic)) => Some(DeviceConfig {
                wifi: WifiConfig { ssid, password },
                mqtt: MqttConfig { host, port, username, password: mqtt_password, client_id, base_topic },
                resources,
            }),
            _ => None,
        },
        _ => None,
    }
}


/// The entries that storing a configuration writes, one per key.
pub open spec fn entries_of(c: DeviceConfig) -> StoredEntries {
    StoredEntries {
        wifi_ssid: Some(c.wifi.ssid),
        wifi_password: Some(c.wifi.password),
        mqtt_host: Some(c.mqtt.host),
        mqtt_port: Some(c.mqtt.port),
        mqtt_username: Some(c.mqtt.username),
        mqtt_password: Some(c.mqtt.password),
        mqtt_client_id: Some(c.mqtt.client_id),
        mqtt_base_topic: Some(c.mqtt.base_topic),
    }
}

/// The same entries, key by key, by their texts.
pub open spec fn same_entries(a: StoredEntries, b: StoredEntries) -> bool {
    &&& crate::config::opt_text(a.wifi_ssid) == crate::config::opt_text(b.wifi_ssid)
    &&& crate::config::opt_text(a.wifi_password) == crate::config::opt_text(b.wifi_password)
    &&& crate::config::opt_text(a.mqtt_host) == crate::config::opt_text(b.mqtt_host)
    &&& a.mqtt_port == b.mqtt_port
    &&& crate::config::opt_text(a.mqtt_username) == crate::config::opt_text(b.mqtt_username)
    &&& crate::config::opt_text(a.mqtt_password) == crate::config::opt_text(b.mqtt_password)
    &&& crate::config::opt_text(a.mqtt_client_id) == crate::config::opt_text(b.mqtt_client_id)
    &&& crate::config::opt_text(a.mqtt_base_topic) == crate::config::opt_text(b.mqtt_base_topic)
}

/// The entries that storing `cfg` writes.
pub fn stored_entries(cfg: &DeviceConfig) -> (res: StoredEntries)
    ensures
        same_entries(res, entries_of(*cfg)),
{
    StoredEntries {
        wifi_ssid: Some(cfg.wifi.ssid.clone()),
        wifi_password: Some(cfg.wifi.password.clone()),
        mqtt_host: Some(cfg.mqtt.host.clone()),
        mqtt_port: Some(cfg.mqtt.port),
        mqtt_username: Some(cfg.mqtt.username.clone()),
        mqtt_password: Some(cfg.mqtt.password.clone()),
        mqtt_client_id: Some(cfg.mqtt.client_id.clone()),
        mqtt_base_topic: Some(cfg.mqtt.base_topic.clone()),
    }
}

/// A stored configuration reads back as itself: its entries are complete
/// and make the configuration again, with the stored resources.
pub proof fn law_stored_config_reads_back(c: DeviceConfig)
    ensures
        entries_complete(entries_of(c)),
        config_from(entries_of(c), c.resources) == c,
{
}

} // verus!
