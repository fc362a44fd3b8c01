//! Schema records and the plain snapshots that are published of them.

use vstd::prelude::*;

use crate::config::ResourceUsage;
use crate::keyed::Keyed;

verus! {

#[derive(Debug, Clone, PartialEq, Eq)]
pub struct BindingRoleSchema {
    pub id: String,
    pub resource_usage: ResourceUsage,
}

#[derive(Debug, Clone, Copy, PartialEq, Eq, Structural)]
pub enum DeviceBindingMode {
    Single,
    Multi,
}

#[derive(Debug, Clone, PartialEq, Eq)]
pub struct ModuleSettingSchema {
    pub key: String,
    pub value_type: String,
    pub required: bool,
    pub ui_level: String,
}

#[derive(Debug, Clone, PartialEq, Eq)]
pub struct ModuleTypeSchema {
    pub id: String,
    pub display_name: String,
    pub runtime_driver: String,
    pub required_bindings: Vec<String>,
    pub optional_bindings: Vec<String>,
    pub output_binding: String,
    pub trigger_input_binding: Option<String>,
    pub device_binding_mode: DeviceBindingMode,
    pub default_device_type_id: Option<String>,
    pub compatible_device_types: Vec<String>,
    pub settings: Vec<ModuleSettingSchema>,
    pub capabilities: Vec<String>,
}

#[derive(Debug, Clone, PartialEq, Eq)]
pub struct DeviceCommandSchema {
    pub name: String,
    pub automation_callable: bool,
}

#[derive(Debug, Clone, PartialEq, Eq)]
pub struct DeviceStateFieldSchema {
    pub name: String,
    pub value_type: String,
    pub automation_readable: bool,
    pub operators: Vec<String>,
}

#[derive(Debug, Clone, PartialEq, Eq)]
pub struct DeviceTypeSchema {
    pub id: String,
    pub display_name: String,
    pub commands: Vec<DeviceCommandSchema>,
    pub state_fields: Vec<DeviceStateFieldSchema>,
    pub capabilities: Vec<String>,
}

#[derive(Debug, Clone, PartialEq, Eq)]
pub struct ModuleBindingSchemaSnapshot {
    pub role_id: String,
    pub usage: ResourceUsage,
    pub required: bool,
    pub multiple: bool,
}

#[derive(Debug, Clone, PartialEq, Eq)]
pub struct ModuleSettingSchemaSnapshot {
    pub key: String,
    pub value_type: String,
    pub required: bool,
    pub ui_level: String,
}

#[derive(Debug, Clone, PartialEq, Eq)]
pub struct ModuleTypeSchemaSnapshot {
    pub id: String,
    pub display_name: String,
    pub device_binding_mode: String,
    pub default_device_type_id: Option<String>,
    pub bindings: Vec<ModuleBindingSchemaSnapshot>,
    pub settings: Vec<ModuleSettingSchemaSnapshot>,
}

#[derive(Debug, Clone, PartialEq, Eq)]
pub struct DeviceCommandSchemaSnapshot {
    pub name: String,
    pub automation_callable: bool,
}

#[derive(Debug, Clone, PartialEq, Eq)]
pub struct DeviceStateFieldSchemaSnapshot {
    pub name: String,
    pub value_type: String,
    pub automation_readable: bool,
    pub operators: Vec<String>,
}

#[derive(Debug, Clone, PartialEq, Eq)]
pub struct DeviceTypeSchemaSnapshot {
    pub id: String,
    pub display_name: String,
    pub commands: Vec<DeviceCommandSchemaSnapshot>,
    pub state_fields: Vec<DeviceStateFieldSchemaSnapshot>,
    pub capabilities: Vec<String>,
}

/// The texts of a list of strings.
pub open spec fn texts(v: Seq<String>) -> Seq<Seq<char>> {
    v.map_values(|s: String| s@)
}

/// The name a device binding mode is published under.
pub open spec fn binding_mode_name(m: DeviceBindingMode) -> Seq<char> {
    match m {
        DeviceBindingMode::Single => "single"@,
        DeviceBindingMode::Multi => "multi"@,
    }
}

impl DeviceBindingMode {
    pub fn as_str(self) -> (res: &'static str)
        ensures
            res@ == binding_mode_name(self),
    {
        match self {
            DeviceBindingMode::Single => "single",
            DeviceBindingMode::Multi => "multi",
        }
    }
}

impl Keyed for BindingRoleSchema {
    open spec fn key(&self) -> Seq<char> {
        self.id@
    }

    fn key_text(&self) -> (res: &str) {
        self.id.as_str()
    }
}

impl Keyed for ModuleTypeSchema {
    open spec fn key(&self) -> Seq<char> {
        self.id@
    }

    fn key_text(&self) -> (res: &str) {
        self.id.as_str()
    }
}

impl Keyed for DeviceTypeSchema {
    open spec fn key(&self) -> Seq<char> {
        self.id@
    }

    fn key_text(&self) -> (res: &str) {
        self.id.as_str()
    }
}

impl Keyed for ModuleBindingSchemaSnapshot {
    open spec fn key(&self) -> Seq<char> {
        self.role_id@
    }

    fn key_text(&self) -> (res: &str) {
        self.role_id.as_str()
    }
}

impl Keyed for ModuleSettingSchemaSnapshot {
    open spec fn key(&self) -> Seq<char> {
        self.key@
    }

    fn key_text(&self) -> (res: &str) {
        self.key.as_str()
    }
}

impl Keyed for ModuleTypeSchemaSnapshot {
    open spec fn key(&self) -> Seq<char> {
        self.id@
    }

    fn key_text(&self) -> (res: &str) {
        self.id.as_str()
    }
}

impl Keyed for DeviceTypeSchemaSnapshot {
    open spec fn key(&self) -> Seq<char> {
        self.id@
    }

    fn key_text(&self) -> (res: &str) {
        self.id.as_str()
    }
}

impl Keyed for String {
    open spec fn key(&self) -> Seq<char> {
        self@
    }

    fn key_text(&self) -> (res: &str) {
        self.as_str()
    }
}

/// A copy of a list of strings.
pub fn copy_strings(v: &Vec<String>) -> (res: Vec<String>)
    ensures
        res@ == v@,
{
    let mut out: Vec<String> = Vec::new();
    let n = v.len();
    for i in 0..n
        invariant
            n == v@.len(),
            out@.len() == i,
            forall|k: int| 0 <= k < i ==> out@[k] == v@[k],
    {
        out.push(v[i].clone());
    }
    assert(out@ =~= v@);
    out
}

} // verus!
