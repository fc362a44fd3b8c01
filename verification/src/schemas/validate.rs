//! Validation of configured module and device instances against the schemas.

use vstd::prelude::*;

use crate::config::{role_ids, DeviceInstanceConfig, ModuleInstanceConfig, ResourceConfig};
use crate::error::{unit_outcome, AppError};
use crate::keyed::{find_key, first_index_of, keys_of};
use crate::text::{join3, join5, text_eq};

use super::registry::{contains_text, SchemaRegistry};
use super::types::{texts, ModuleTypeSchema};

verus! {

/// Whether `r` is among the allowed (required or optional) bindings of `s`.
pub open spec fn binding_allowed(s: ModuleTypeSchema, r: Seq<char>) -> bool {
    texts(s.required_bindings@).contains(r) || texts(s.optional_bindings@).contains(r)
}

/// The outcome of checking the bindings of `module` from position `k` on,
/// then its required bindings.
pub open spec fn bindings_check_from(
    reg: SchemaRegistry,
    s: ModuleTypeSchema,
    module: ModuleInstanceConfig,
    k: int,
) -> Result<(), Seq<char>>
    decreases module.bindings@.len() - k,
{
    let rs = role_ids(module.bindings@);
    if k < 0 || k >= rs.len() {
        required_check_from(s, module, 0)
    } else if reg.role_spec(rs[k]) is None {
        Err("Unknown binding role schema '"@ + rs[k] + "'"@)
    } else if !binding_allowed(s, rs[k]) {
        Err("Module '"@ + module.id@ + "' does not allow binding '"@ + rs[k] + "'"@)
    } else if rs.subrange(0, k).contains(rs[k]) {
        Err("Module '"@ + module.id@ + "' defines schema role '"@ + rs[k] + "' more than once"@)
    } else {
        bindings_check_from(reg, s, module, k + 1)
    }
}

/// The outcome of checking that the required bindings of `s` from position
/// `j` on are bound by `module`.
pub open spec fn required_check_from(s: ModuleTypeSchema, module: ModuleInstanceConfig, j: int) -> Result<(), Seq<char>>
    decreases s.required_bindings@.len() - j,
{
    let req = texts(s.required_bindings@);
    if j < 0 || j >= req.len() {
        Ok(())
    } else if !role_ids(module.bindings@).contains(req[j]) {
        Err("Module '"@ + module.id@ + "' is missing required binding '"@ + req[j] + "'"@)
    } else {
        required_check_from(s, module, j + 1)
    }
}

/// The outcome of validating a module instance against its module schema:
/// the schema must exist, every binding must name a known role that the
/// schema allows, no role may be bound twice, and every required binding
/// must be bound.
pub open spec fn module_instance_check(reg: SchemaRegistry, module: ModuleInstanceConfig) -> Result<(), Seq<char>> {
    match reg.module_spec(module.module_type_id@) {
        None => Err("Unknown module schema '"@ + module.module_type_id@ + "'"@),
        Some(s) => bindings_check_from(reg, s, module, 0),
    }
}

/// The outcome of validating a device instance: its device schema must
/// exist, its driver module must be configured, and the driver's module
/// schema must exist and list the device schema as compatible.
pub open spec fn device_instance_check(
    reg: SchemaRegistry,
    config: ResourceConfig,
    device: DeviceInstanceConfig,
) -> Result<(), Seq<char>> {
    match reg.device_spec(device.device_type_id@) {
        None => Err("Unknown device schema '"@ + device.device_type_id@ + "'"@),
        Some(ds) => match first_index_of(keys_of(config.module_instances@), device.driver_module_id@) {
            None => Err("Device '"@ + device.id@ + "' references unknown driver module '"@ + device.driver_module_id@ + "'"@),
            Some(i) => {
                let module = config.module_instances@[i];
                match reg.module_spec(module.module_type_id@) {
                    None => Err("Unknown module schema '"@ + module.module_type_id@ + "'"@),
                    Some(ms) => if texts(ms.compatible_device_types@).contains(ds.id@) {
                        Ok(())
                    } else {
                        Err("Module '"@ + module.id@ + "' is not compatible with device '"@ + device.id@ + "'"@)
                    },
                }
            },
        },
    }
}

fn role_seen_before(module: &ModuleInstanceConfig, k: usize, r: &str) -> (res: bool)
    requires
        k <= module.bindings@.len(),
    ensures
        res == role_ids(module.bindings@).subrange(0, k as int).contains(r@),
{
    let ghost rs = role_ids(module.bindings@).subrange(0, k as int);
    for i in 0..k
        invariant
            k <= module.bindings@.len(),
            rs == role_ids(module.bindings@).subrange(0, k as int),
            forall|j: int| 0 <= j < i ==> rs[j] != r@,
    {
        if text_eq(module.bindings[i].role_id.as_str(), r) {
            assert(rs[i as int] == r@);
            return true;
        }
    }
    false
}

fn role_bound(module: &ModuleInstanceConfig, r: &str) -> (res: bool)
    ensures
        res == role_ids(module.bindings@).contains(r@),
{
    let n = module.bindings.len();
    let res = role_seen_before(module, n, r);
    assert(role_ids(module.bindings@).subrange(0, n as int) =~= role_ids(module.bindings@));
    res
}

pub fn validate_module_instance(registry: &SchemaRegistry, module: &ModuleInstanceConfig) -> (res: Result<(), AppError>)
    ensures
        unit_outcome(res, module_instance_check(*registry, *module)),
{
    let schema = match registry.lookup_module_type_required(module.module_type_id.as_str()) {
        Ok(s) => s,
        Err(e) => {
            return Err(e);
        },
    };
    let n = module.bindings.len();
    for k in 0..n
        invariant
            n == module.bindings@.len(),
            registry.module_spec(module.module_type_id@) == Some(*schema),
            module_instance_check(*registry, *module) == bindings_check_from(*registry, *schema, *module, k as int),
    {
        let role_id = module.bindings[k].role_id.as_str();
        match registry.lookup_binding_role_required(role_id) {
            Ok(_) => {},
            Err(e) => {
                return Err(e);
            },
        }
        if !(contains_text(&schema.required_bindings, role_id) || contains_text(&schema.optional_bindings, role_id)) {
            return Err(AppError::Message(join5("Module '", module.id.as_str(), "' does not allow binding '", role_id, "'")));
        }
        if role_seen_before(module, k, role_id) {
            return Err(AppError::Message(join5("Module '", module.id.as_str(), "' defines schema role '", role_id, "' more than once")));
        }
    }
    let m = schema.required_bindings.len();
    for j in 0..m
        invariant
            m == schema.required_bindings@.len(),
            module_instance_check(*registry, *module) == required_check_from(*schema, *module, j as int),
    {
        let required = schema.required_bindings[j].as_str();
        if !role_bound(module, required) {
            return Err(AppError::Message(join5("Module '", module.id.as_str(), "' is missing required binding '", required, "'")));
        }
    }
    Ok(())
}

pub fn validate_device_instance(
    registry: &SchemaRegistry,
    config: &ResourceConfig,
    device: &DeviceInstanceConfig,
) -> (res: Result<(), AppError>)
    ensures
        unit_outcome(res, device_instance_check(*registry, *config, *device)),
{
    let device_schema = match registry.lookup_device_type_required(device.device_type_id.as_str()) {
        Ok(s) => s,
        Err(e) => {
            return Err(e);
        },
    };
    let module = match find_key(&config.module_instances, device.driver_module_id.as_str()) {
        Some(i) => &config.module_instances[i],
        None => {
            return Err(AppError::Message(join5("Device '", device.id.as_str(), "' references unknown driver module '", device.driver_module_id.as_str(), "'")));
        },
    };
    let module_schema = match registry.lookup_module_type_required(module.module_type_id.as_str()) {
        Ok(s) => s,
        Err(e) => {
            return Err(e);
        },
    };
    if !contains_text(&module_schema.compatible_device_types, device_schema.id.as_str()) {
        return Err(AppError::Message(join5("Module '", module.id.as_str(), "' is not compatible with device '", device.id.as_str(), "'")));
    }
    Ok(())
}

} // verus!
