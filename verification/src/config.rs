//! The device configuration: Wi-Fi and MQTT credentials, and the resource
//! configuration that binds module instances to GPIO pins and logical devices
//! to driver modules.

use vstd::prelude::*;

use crate::error::AppError;
use crate::text::{is_blank, is_blank_text, owned, text_eq};

verus! {

/// The version of the resource configuration layout.
pub const RESOURCE_CONFIG_VERSION: u32 = 1;

/// The version a stored resource configuration has when it names none.
pub fn default_resource_config_version() -> (res: u32)
    ensures
        res == RESOURCE_CONFIG_VERSION,
{
    RESOURCE_CONFIG_VERSION
}

#[derive(Debug, Clone, PartialEq, Eq)]
pub struct WifiConfig {
    pub ssid: String,
    pub password: String,
}

#[derive(Debug, Clone, PartialEq, Eq)]
pub struct MqttConfig {
    pub host: String,
    pub port: u16,
    pub username: String,
    pub password: String,
    pub client_id: String,
    pub base_topic: String,
}

#[derive(Debug, Clone, PartialEq, Eq)]
pub struct DeviceConfig {
    pub wifi: WifiConfig,
    pub mqtt: MqttConfig,
    pub resources: ResourceConfig,
}

#[derive(Debug, Clone, PartialEq, Eq)]
pub struct ResourceConfig {
    pub version: u32,
    pub module_instances: Vec<ModuleInstanceConfig>,
    pub device_instances: Vec<DeviceInstanceConfig>,
}

#[derive(Debug, Clone, PartialEq, Eq)]
pub struct ModuleInstanceConfig {
    pub id: String,
    pub module_type_id: String,
    pub display_name: Option<String>,
    pub bindings: Vec<PinBindingConfig>,
    pub settings: ModuleSettings,
}

#[derive(Debug, Clone, PartialEq, Eq)]
pub struct DeviceInstanceConfig {
    pub id: String,
    pub device_type_id: String,
    pub display_name: Option<String>,
    pub driver_module_id: String,
}

#[derive(Debug, Clone, Copy, PartialEq, Eq, Hash, Structural)]
pub enum ResourceUsage {
    Input,
    Output,
}

#[derive(Debug, Clone, PartialEq, Eq)]
pub struct PinBindingConfig {
    pub role_id: String,
    pub target: ResourceBindingTarget,
}

#[derive(Debug, Clone, Copy, PartialEq, Eq)]
pub enum ResourceBindingTarget {
    Gpio { pin: u8 },
}

#[derive(Debug, Clone, Default, PartialEq, Eq)]
pub struct ModuleSettings {
    pub auto_off_ms: Option<u64>,
    pub external_on_triggers: Vec<ExternalModuleTriggerConfig>,
}

#[derive(Debug, Clone, PartialEq, Eq)]
pub struct ExternalModuleTriggerConfig {
    pub source_module_id: String,
}

/// An optional text by its characters.
pub open spec fn opt_text(o: Option<String>) -> Option<Seq<char>> {
    match o {
        Some(s) => Some(s@),
        None => None,
    }
}

/// An owned copy of an optional text.
pub fn copy_opt_text(o: &Option<String>) -> (res: Option<String>)
    ensures
        opt_text(res) == opt_text(*o),
{
    match o {
        Some(s) => Some(s.clone()),
        None => None,
    }
}

/// The GPIO pin a binding targets.
pub open spec fn binding_pin(b: PinBindingConfig) -> u8 {
    match b.target {
        ResourceBindingTarget::Gpio { pin } => pin,
    }
}

pub struct ModuleSettingsView {
    pub auto_off_ms: Option<u64>,
    pub external_on_triggers: Seq<Seq<char>>,
}

pub struct PinBindingView {
    pub role_id: Seq<char>,
    pub pin: u8,
}

pub struct ModuleInstanceView {
    pub id: Seq<char>,
    pub module_type_id: Seq<char>,
    pub display_name: Option<Seq<char>>,
    pub bindings: Seq<PinBindingView>,
    pub settings: ModuleSettingsView,
}

pub struct DeviceInstanceView {
    pub id: Seq<char>,
    pub device_type_id: Seq<char>,
    pub display_name: Option<Seq<char>>,
    pub driver_module_id: Seq<char>,
}

pub struct ResourceConfigView {
    pub version: u32,
    pub module_instances: Seq<ModuleInstanceView>,
    pub device_instances: Seq<DeviceInstanceView>,
}

impl View for ExternalModuleTriggerConfig {
    type V = Seq<char>;

    open spec fn view(&self) -> Seq<char> {
        self.source_module_id@
    }
}

impl View for ModuleSettings {
    type V = ModuleSettingsView;

    open spec fn view(&self) -> ModuleSettingsView {
        ModuleSettingsView {
            auto_off_ms: self.auto_off_ms,
            external_on_triggers: self.external_on_triggers@.map_values(
                |t: ExternalModuleTriggerConfig| t@,
            ),
        }
    }
}

impl View for PinBindingConfig {
    type V = PinBindingView;

    open spec fn view(&self) -> PinBindingView {
        PinBindingView { role_id: self.role_id@, pin: binding_pin(*self) }
    }
}

impl View for ModuleInstanceConfig {
    type V = ModuleInstanceView;

    open spec fn view(&self) -> ModuleInstanceView {
        ModuleInstanceView {
            id: self.id@,
            module_type_id: self.module_type_id@,
            display_name: opt_text(self.display_name),
            bindings: self.bindings@.map_values(|b: PinBindingConfig| b@),
            settings: self.settings@,
        }
    }
}

impl View for DeviceInstanceConfig {
    type V = DeviceInstanceView;

    open spec fn view(&self) -> DeviceInstanceView {
        DeviceInstanceView {
            id: self.id@,
            device_type_id: self.device_type_id@,
            display_name: opt_text(self.display_name),
            driver_module_id: self.driver_module_id@,
        }
    }
}

impl View for ResourceConfig {
    type V = ResourceConfigView;

    open spec fn view(&self) -> ResourceConfigView {
        ResourceConfigView {
            version: self.version,
            module_instances: self.module_instances@.map_values(|m: ModuleInstanceConfig| m@),
            device_instances: self.device_instances@.map_values(|d: DeviceInstanceConfig| d@),
        }
    }
}

/// Whether a device configuration has every field the normal boot needs:
/// a Wi-Fi SSID, an MQTT host, port, client id and base topic.
pub open spec fn config_is_complete(c: DeviceConfig) -> bool {
    &&& !is_blank_text(c.wifi.ssid@)
    &&& !is_blank_text(c.mqtt.host@)
    &&& c.mqtt.port > 0
    &&& !is_blank_text(c.mqtt.client_id@)
    &&& !is_blank_text(c.mqtt.base_topic@)
}

/// Whether a device configuration is the demonstration configuration that an
/// earlier firmware seeded into storage.
pub open spec fn config_is_demo_seed(c: DeviceConfig) -> bool {
    ||| c.wifi.ssid@ == "eps-rust-test"@
    ||| c.wifi.ssid@ == "esp-rust-test"@
    ||| {
        &&& c.wifi.password@ == "asdfg43v34t34f34t3"@
        &&& c.mqtt.host@ == "10.0.0.1"@
        &&& c.mqtt.port == 1883
        &&& c.mqtt.username@ == "testuser"@
        &&& c.mqtt.password@ == "testpassword"@
        &&& c.mqtt.client_id@ == "esp32-test-node"@
        &&& c.mqtt.base_topic@ == "nks/home/test-node"@
    }
}

impl DeviceConfig {
    pub fn is_complete(&self) -> (res: bool)
        ensures
            res == config_is_complete(*self),
    {
        !is_blank(self.wifi.ssid.as_str()) && !is_blank(self.mqtt.host.as_str()) && self.mqtt.port
            > 0 && !is_blank(self.mqtt.client_id.as_str()) && !is_blank(
            self.mqtt.base_topic.as_str(),
        )
    }

    pub fn is_demo_seed_config(&self) -> (res: bool)
        ensures
            res == config_is_demo_seed(*self),
    {
        let is_demo_ssid = text_eq(self.wifi.ssid.as_str(), "eps-rust-test") || text_eq(
            self.wifi.ssid.as_str(),
            "esp-rust-test",
        );
        is_demo_ssid || (text_eq(self.wifi.password.as_str(), "asdfg43v34t34f34t3") && text_eq(
            self.mqtt.host.as_str(),
            "10.0.0.1",
        ) && self.mqtt.port == 1883 && text_eq(self.mqtt.username.as_str(), "testuser")
            && text_eq(self.mqtt.password.as_str(), "testpassword") && text_eq(
            self.mqtt.client_id.as_str(),
            "esp32-test-node",
        ) && text_eq(self.mqtt.base_topic.as_str(), "nks/home/test-node"))
    }
}

/// Two Wi-Fi configurations with the same SSID and password.
pub open spec fn same_wifi(a: WifiConfig, b: WifiConfig) -> bool {
    a.ssid@ == b.ssid@ && a.password@ == b.password@
}

/// Two MQTT configurations that agree in every field.
pub open spec fn same_mqtt(a: MqttConfig, b: MqttConfig) -> bool {
    &&& a.host@ == b.host@
    &&& a.port == b.port
    &&& a.username@ == b.username@
    &&& a.password@ == b.password@
    &&& a.client_id@ == b.client_id@
    &&& a.base_topic@ == b.base_topic@
}

impl WifiConfig {
    /// A copy of the configuration.
    pub fn duplicate(&self) -> (res: WifiConfig)
        ensures
            same_wifi(res, *self),
    {
        WifiConfig { ssid: self.ssid.clone(), password: self.password.clone() }
    }
}

impl MqttConfig {
    /// A copy of the configuration.
    pub fn duplicate(&self) -> (res: MqttConfig)
        ensures
            same_mqtt(res, *self),
    {
        MqttConfig {
            host: self.host.clone(),
            port: self.port,
            username: self.username.clone(),
            password: self.password.clone(),
            client_id: self.client_id.clone(),
            base_topic: self.base_topic.clone(),
        }
    }
}

impl PinBindingConfig {
    /// The GPIO pin the binding targets; every target kind names one.
    pub fn pin(&self) -> (res: Result<u8, AppError>)
        ensures
            res == Ok::<u8, AppError>(binding_pin(*self)),
    {
        match self.target {
            ResourceBindingTarget::Gpio { pin } => Ok(pin),
        }
    }

    /// A copy of the binding.
    pub fn duplicate(&self) -> (res: PinBindingConfig)
        ensures
            res@ == self@,
    {
        PinBindingConfig { role_id: self.role_id.clone(), target: self.target }
    }
}

impl Default for ResourceConfig {
    fn default() -> (res: Self)
        ensures
            res.version == RESOURCE_CONFIG_VERSION,
            res.module_instances@.len() == 0,
            res.device_instances@.len() == 0,
    {
        ResourceConfig {
            version: RESOURCE_CONFIG_VERSION,
            module_instances: Vec::new(),
            device_instances: Vec::new(),
        }
    }
}

impl ModuleSettings {
    /// A copy of the settings.
    pub fn duplicate(&self) -> (res: ModuleSettings)
        ensures
            res@ == self@,
    {
        let mut triggers: Vec<ExternalModuleTriggerConfig> = Vec::new();
        let n = self.external_on_triggers.len();
        for i in 0..n
            invariant
                n == self.external_on_triggers@.len(),
                triggers@.len() == i,
                forall|k: int|
                    0 <= k < i ==> (#[trigger] triggers@[k])@ == self.external_on_triggers@[k]@,
        {
            triggers.push(
                ExternalModuleTriggerConfig {
                    source_module_id: self.external_on_triggers[i].source_module_id.clone(),
                },
            );
        }
        let res = ModuleSettings { auto_off_ms: self.auto_off_ms, external_on_triggers: triggers };
        assert(res@.external_on_triggers =~= self@.external_on_triggers);
        res
    }
}

impl ModuleInstanceConfig {
    /// A copy of the module instance.
    pub fn duplicate(&self) -> (res: ModuleInstanceConfig)
        ensures
            res@ == self@,
    {
        let mut bindings: Vec<PinBindingConfig> = Vec::new();
        let n = self.bindings.len();
        for i in 0..n
            invariant
                n == self.bindings@.len(),
                bindings@.len() == i,
                forall|k: int| 0 <= k < i ==> (#[trigger] bindings@[k])@ == self.bindings@[k]@,
        {
            bindings.push(self.bindings[i].duplicate());
        }
        let res = ModuleInstanceConfig {
            id: self.id.clone(),
            module_type_id: self.module_type_id.clone(),
            display_name: copy_opt_text(&self.display_name),
            bindings,
            settings: self.settings.duplicate(),
        };
        assert(res@.bindings =~= self@.bindings);
        res
    }
}

impl DeviceInstanceConfig {
    /// A copy of the device instance.
    pub fn duplicate(&self) -> (res: DeviceInstanceConfig)
        ensures
            res@ == self@,
    {
        DeviceInstanceConfig {
            id: self.id.clone(),
            device_type_id: self.device_type_id.clone(),
            display_name: copy_opt_text(&self.display_name),
            driver_module_id: self.driver_module_id.clone(),
        }
    }
}

impl ResourceConfig {
    /// A copy of the resource configuration.
    pub fn duplicate(&self) -> (res: ResourceConfig)
        ensures
            res@ == self@,
    {
        let mut modules: Vec<ModuleInstanceConfig> = Vec::new();
        let n = self.module_instances.len();
        for i in 0..n
            invariant
                n == self.module_instances@.len(),
                modules@.len() == i,
                forall|k: int|
                    0 <= k < i ==> (#[trigger] modules@[k])@ == self.module_instances@[k]@,
        {
            modules.push(self.module_instances[i].duplicate());
        }
        let mut devices: Vec<DeviceInstanceConfig> = Vec::new();
        let m = self.device_instances.len();
        for i in 0..m
            invariant
                m == self.device_instances@.len(),
                devices@.len() == i,
                forall|k: int|
                    0 <= k < i ==> (#[trigger] devices@[k])@ == self.device_instances@[k]@,
        {
            devices.push(self.device_instances[i].duplicate());
        }
        let res = ResourceConfig {
            version: self.version,
            module_instances: modules,
            device_instances: devices,
        };
        assert(res@.module_instances =~= self@.module_instances);
        assert(res@.device_instances =~= self@.device_instances);
        res
    }
}

/// The canonical module type id for a stored one: the short names of the
/// first configuration layout are mapped to their `core:` schema ids.
pub open spec fn canonical_module_type_text(v: Seq<char>) -> Seq<char> {
    if v == "switch"@ {
        "core:gpio_switch"@
    } else if v == "gpio_output"@ {
        "core:gpio_output"@
    } else {
        v
    }
}

/// The canonical device type id for a stored one.
pub open spec fn canonical_device_type_text(v: Seq<char>) -> Seq<char> {
    if v == "switch"@ {
        "core:switch"@
    } else {
        v
    }
}

/// The canonical binding role id for a stored one.
pub open spec fn canonical_role_text(v: Seq<char>) -> Seq<char> {
    if v == "relay_output"@ {
        "core:relay_output"@
    } else if v == "wall_trigger_input"@ {
        "core:wall_trigger_input"@
    } else if v == "output"@ {
        "core:output"@
    } else {
        v
    }
}

/// The canonical module type id for a stored value.
pub fn canonical_module_type_id(value: String) -> (res: String)
    ensures
        res@ == canonical_module_type_text(value@),
{
    if text_eq(value.as_str(), "switch") {
        owned("core:gpio_switch")
    } else if text_eq(value.as_str(), "gpio_output") {
        owned("core:gpio_output")
    } else {
        value
    }
}

/// The canonical device type id for a stored value.
pub fn canonical_device_type_id(value: String) -> (res: String)
    ensures
        res@ == canonical_device_type_text(value@),
{
    if text_eq(value.as_str(), "switch") {
        owned("core:switch")
    } else {
        value
    }
}

/// The canonical binding role id for a stored value.
pub fn canonical_role_id(value: String) -> (res: String)
    ensures
        res@ == canonical_role_text(value@),
{
    if text_eq(value.as_str(), "relay_output") {
        owned("core:relay_output")
    } else if text_eq(value.as_str(), "wall_trigger_input") {
        owned("core:wall_trigger_input")
    } else if text_eq(value.as_str(), "output") {
        owned("core:output")
    } else {
        value
    }
}

} // verus!

verus! {

impl crate::keyed::Keyed for ModuleInstanceConfig {
    open spec fn key(&self) -> Seq<char> {
        self.id@
    }

    fn key_text(&self) -> (res: &str) {
        self.id.as_str()
    }
}

impl crate::keyed::Keyed for DeviceInstanceConfig {
    open spec fn key(&self) -> Seq<char> {
        self.id@
    }

    fn key_text(&self) -> (res: &str) {
        self.id.as_str()
    }
}

/// The role ids of a list of bindings.
pub open spec fn role_ids(bs: Seq<PinBindingConfig>) -> Seq<Seq<char>> {
    bs.map_values(|b: PinBindingConfig| b.role_id@)
}

} // verus!
