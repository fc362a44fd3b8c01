//! The schemas that the firmware ships with.

use vstd::prelude::*;

use crate::config::ResourceUsage;
use crate::text::owned;

use super::types::{texts, DeviceBindingMode, DeviceCommandSchema, DeviceStateFieldSchema, DeviceTypeSchema, ModuleSettingSchema, ModuleTypeSchema, BindingRoleSchema};

verus! {

pub const PROTOCOL_VERSION: &'static str = "1";

pub const SCHEMA_REGISTRY_VERSION: &'static str = "builtin-1";

/// The schema packages that are loaded.
pub open spec fn loaded_schema_package_names() -> Seq<Seq<char>> {
    seq!["core"@]
}

/// The names of the loaded schema packages.
pub fn loaded_schema_packages() -> (res: Vec<String>)
    ensures
        texts(res@) == loaded_schema_package_names(),
{
    let res = vec![owned("core")];
    assert(texts(res@) =~= loaded_schema_package_names());
    res
}

/// A binding role with the given id and usage.
pub open spec fn is_role(r: BindingRoleSchema, id: Seq<char>, usage: ResourceUsage) -> bool {
    r.id@ == id && r.resource_usage == usage
}

pub fn role_relay_output() -> (res: BindingRoleSchema)
    ensures
        is_role(res, "core:relay_output"@, ResourceUsage::Output),
{
    BindingRoleSchema { id: owned("core:relay_output"), resource_usage: ResourceUsage::Output }
}

pub fn role_wall_trigger_input() -> (res: BindingRoleSchema)
    ensures
        is_role(res, "core:wall_trigger_input"@, ResourceUsage::Input),
{
    BindingRoleSchema { id: owned("core:wall_trigger_input"), resource_usage: ResourceUsage::Input }
}

pub fn role_output() -> (res: BindingRoleSchema)
    ensures
        is_role(res, "core:output"@, ResourceUsage::Output),
{
    BindingRoleSchema { id: owned("core:output"), resource_usage: ResourceUsage::Output }
}

/// The settings that switch-like modules take.
pub open spec fn is_switch_settings(s: Seq<ModuleSettingSchema>) -> bool {
    &&& s.len() == 2
    &&& s[0].key@ == "auto_off_ms"@
    &&& s[0].value_type@ == "integer"@
    &&& !s[0].required
    &&& s[0].ui_level@ == "basic"@
    &&& s[1].key@ == "external_on_triggers"@
    &&& s[1].value_type@ == "array"@
    &&& !s[1].required
    &&& s[1].ui_level@ == "advanced"@
}

fn module_switch_settings() -> (res: Vec<ModuleSettingSchema>)
    ensures
        is_switch_settings(res@),
{
    vec![
        ModuleSettingSchema {
            key: owned("auto_off_ms"),
            value_type: owned("integer"),
            required: false,
            ui_level: owned("basic"),
        },
        ModuleSettingSchema {
            key: owned("external_on_triggers"),
            value_type: owned("array"),
            required: false,
            ui_level: owned("advanced"),
        },
    ]
}

/// The switch device type: commands ON, OFF and TOGGLE, one `state` field.
pub open spec fn is_device_switch(d: DeviceTypeSchema) -> bool {
    &&& d.id@ == "core:switch"@
    &&& d.display_name@ == "Switch"@
    &&& d.commands@.len() == 3
    &&& d.commands@[0].name@ == "ON"@
    &&& d.commands@[1].name@ == "OFF"@
    &&& d.commands@[2].name@ == "TOGGLE"@
    &&& forall|i: int| 0 <= i < 3 ==> (#[trigger] d.commands@[i]).automation_callable
    &&& d.state_fields@.len() == 1
    &&& d.state_fields@[0].name@ == "state"@
    &&& d.state_fields@[0].value_type@ == "string"@
    &&& d.state_fields@[0].automation_readable
    &&& texts(d.state_fields@[0].operators@) == seq!["=="@]
    &&& texts(d.capabilities@) == seq!["binary_output"@, "retained_state"@]
}

pub fn device_switch() -> (res: DeviceTypeSchema)
    ensures
        is_device_switch(res),
{
    let commands = vec![
        DeviceCommandSchema { name: owned("ON"), automation_callable: true },
        DeviceCommandSchema { name: owned("OFF"), automation_callable: true },
        DeviceCommandSchema { name: owned("TOGGLE"), automation_callable: true },
    ];
    let state_fields = vec![
        DeviceStateFieldSchema {
            name: owned("state"),
            value_type: owned("string"),
            automation_readable: true,
            operators: vec![owned("==")],
        },
    ];
    let res = DeviceTypeSchema {
        id: owned("core:switch"),
        display_name: owned("Switch"),
        commands,
        state_fields,
        capabilities: vec![owned("binary_output"), owned("retained_state")],
    };
    assert(texts(res.state_fields@[0].operators@) =~= seq!["=="@]);
    assert(texts(res.capabilities@) =~= seq!["binary_output"@, "retained_state"@]);
    res
}

/// The GPIO switch module type: a relay output with an optional wall trigger input.
pub open spec fn is_module_gpio_switch(m: ModuleTypeSchema) -> bool {
    &&& m.id@ == "core:gpio_switch"@
    &&& m.display_name@ == "GPIO Switch"@
    &&& m.runtime_driver@ == "relay_gpio"@
    &&& texts(m.required_bindings@) == seq!["core:relay_output"@]
    &&& texts(m.optional_bindings@) == seq!["core:wall_trigger_input"@]
    &&& m.output_binding@ == "core:relay_output"@
    &&& m.trigger_input_binding matches Some(t) && t@ == "core:wall_trigger_input"@
    &&& m.device_binding_mode == DeviceBindingMode::Single
    &&& m.default_device_type_id matches Some(d) && d@ == "core:switch"@
    &&& texts(m.compatible_device_types@) == seq!["core:switch"@]
    &&& is_switch_settings(m.settings@)
    &&& texts(m.capabilities@) == seq!["binary_output"@, "auto_off"@, "gpio_toggle_trigger"@]
}

/// The GPIO output module type: a single output.
pub open spec fn is_module_gpio_output(m: ModuleTypeSchema) -> bool {
    &&& m.id@ == "core:gpio_output"@
    &&& m.display_name@ == "GPIO Output"@
    &&& m.runtime_driver@ == "relay_gpio"@
    &&& texts(m.required_bindings@) == seq!["core:output"@]
    &&& m.optional_bindings@.len() == 0
    &&& m.output_binding@ == "core:output"@
    &&& m.trigger_input_binding is None
    &&& m.device_binding_mode == DeviceBindingMode::Single
    &&& m.default_device_type_id matches Some(d) && d@ == "core:switch"@
    &&& texts(m.compatible_device_types@) == seq!["core:switch"@]
    &&& is_switch_settings(m.settings@)
    &&& texts(m.capabilities@) == seq!["binary_output"@]
}

pub fn module_gpio_switch() -> (res: ModuleTypeSchema)
    ensures
        is_module_gpio_switch(res),
{
    let res = ModuleTypeSchema {
        id: owned("core:gpio_switch"),
        display_name: owned("GPIO Switch"),
        runtime_driver: owned("relay_gpio"),
        required_bindings: vec![owned("core:relay_output")],
        optional_bindings: vec![owned("core:wall_trigger_input")],
        output_binding: owned("core:relay_output"),
        trigger_input_binding: Some(owned("core:wall_trigger_input")),
        device_binding_mode: DeviceBindingMode::Single,
        default_device_type_id: Some(owned("core:switch")),
        compatible_device_types: vec![owned("core:switch")],
        settings: module_switch_settings(),
        capabilities: vec![owned("binary_output"), owned("auto_off"), owned("gpio_toggle_trigger")],
    };
    assert(texts(res.required_bindings@) =~= seq!["core:relay_output"@]);
    assert(texts(res.optional_bindings@) =~= seq!["core:wall_trigger_input"@]);
    assert(texts(res.compatible_device_types@) =~= seq!["core:switch"@]);
    assert(texts(res.capabilities@) =~= seq!["binary_output"@, "auto_off"@, "gpio_toggle_trigger"@]);
    res
}

pub fn module_gpio_output() -> (res: ModuleTypeSchema)
    ensures
        is_module_gpio_output(res),
{
    let res = ModuleTypeSchema {
        id: owned("core:gpio_output"),
        display_name: owned("GPIO Output"),
        runtime_driver: owned("relay_gpio"),
        required_bindings: vec![owned("core:output")],
        optional_bindings: Vec::new(),
        output_binding: owned("core:output"),
        trigger_input_binding: None,
        device_binding_mode: DeviceBindingMode::Single,
        default_device_type_id: Some(owned("core:switch")),
        compatible_device_types: vec![owned("core:switch")],
        settings: module_switch_settings(),
        capabilities: vec![owned("binary_output")],
    };
    assert(texts(res.required_bindings@) =~= seq!["core:output"@]);
    assert(texts(res.compatible_device_types@) =~= seq!["core:switch"@]);
    assert(texts(res.capabilities@) =~= seq!["binary_output"@]);
    res
}

} // verus!
