//! What the runtime answers to the config commands: a proposed resource
//! configuration is normalised, checked against the board and the schemas,
//! and either refused with the reason or reloaded into fresh modules and
//! devices.

use vstd::prelude::*;

use crate::board::{is_esp32_devkit_v1, BoardProfile};
use crate::config::{ResourceConfig, ResourceConfigView};
use crate::devices::{device_checks_from, first_unsupported_from, normalize_from, DeviceRegistry};
use crate::error::{error_text, is_message, unit_outcome, AppError};
use crate::gpio::{config_check_from, GpioManager, RuntimeClaim};
use crate::modules::{is_loaded_module, load_from, module_slots, ModuleManager};
use crate::mqtt::{ConfigOperationResultPayload, MqttContract};
use crate::schemas::SchemaRegistry;
use crate::text::owned;

verus! {

/// The check of a resource configuration: its module instances against the
/// board and the schemas, then its device instances.
pub open spec fn resources_check(board: BoardProfile, reg: SchemaRegistry, c: ResourceConfig) -> Result<(), Seq<char>> {
    match config_check_from(board, reg, c.module_instances@, 0) {
        Err(m) => Err(m),
        Ok(()) => device_checks_from(reg, c, 0),
    }
}

/// A proposed configuration with its single-device modules provisioned.
pub open spec fn normalized_resources(reg: SchemaRegistry, p: ResourceConfig) -> Result<ResourceConfigView, Seq<char>> {
    match normalize_from(reg, p.module_instances@, 0, p@.device_instances, false) {
        Ok((ds, _)) => Ok(ResourceConfigView { version: p.version, module_instances: p@.module_instances, device_instances: ds }),
        Err(m) => Err(m),
    }
}

/// A result payload of `command` for `request_id`: successful with
/// `ok_message` when `check` passed, failed with its reason otherwise.
pub open spec fn check_result_is(
    p: ConfigOperationResultPayload,
    command: Seq<char>,
    request_id: Option<String>,
    check: Result<(), Seq<char>>,
    ok_message: Seq<char>,
) -> bool {
    &&& p.request_id == request_id
    &&& p.command@ == command
    &&& p.ok == (check is Ok)
    &&& match check {
        Ok(()) => p.message@ == ok_message,
        Err(m) => p.message@ == m,
    }
}

/// Runs the configuration check on a manager's board.
pub fn check_resources(gpio: &GpioManager, config: &ResourceConfig, schemas: &SchemaRegistry) -> (res: Result<(), AppError>)
    ensures
        unit_outcome(res, resources_check(gpio.board_spec(), *schemas, *config)),
{
    match gpio.validate_config(config, schemas) {
        Ok(()) => DeviceRegistry::validate_config(config, schemas),
        Err(e) => Err(e),
    }
}

/// The answer to `validate_resources`: the proposal is normalised (a
/// failure there is an error of the command itself), then checked.
pub fn validate_resources_result(
    gpio: &GpioManager,
    request_id: Option<String>,
    proposed: &ResourceConfig,
    schemas: &SchemaRegistry,
) -> (res: Result<ConfigOperationResultPayload, AppError>)
    ensures
        match normalized_resources(*schemas, *proposed) {
            Err(m) => res matches Err(e) && is_message(e, m),
            Ok(v) => res matches Ok(p) && exists|c: ResourceConfig| c@ == v && #[trigger] check_result_is(
                p,
                "validate_resources"@,
                request_id,
                resources_check(gpio.board_spec(), *schemas, c),
                "Resource configuration is valid."@,
            ),
        },
{
    let (normalized, _) = match DeviceRegistry::normalize_config(proposed, schemas) {
        Ok(n) => n,
        Err(e) => return Err(e),
    };
    let checked = check_resources(gpio, &normalized, schemas);
    let res = match &checked {
        Ok(()) => MqttContract::ok_result("validate_resources", request_id, owned("Resource configuration is valid.")),
        Err(e) => MqttContract::error_result("validate_resources", request_id, e.display_text()),
    };
    proof {
        assert(check_result_is(
            res,
            "validate_resources"@,
            request_id,
            resources_check(gpio.board_spec(), *schemas, normalized),
            "Resource configuration is valid."@,
        ));
    }
    Ok(res)
}

/// What `set_resources` makes of a checked proposal.
pub enum ResourceProposal {
    /// The proposal failed its check; the result says why.
    Rejected(ConfigOperationResultPayload),
    /// The proposal passed and was loaded; it is stored and put in place next.
    Accepted { resources: ResourceConfig, modules: ModuleManager, devices: DeviceRegistry },
}

/// The devices that a registry loaded from `c` holds.
pub open spec fn devices_loaded_from(c: ResourceConfig, r: DeviceRegistry) -> bool {
    &&& r.devices_spec().len() == c.device_instances@.len()
    &&& forall|i: int| 0 <= i < r.devices_spec().len() ==> {
        &&& (#[trigger] r.devices_spec()[i]).id_spec() == c.device_instances@[i].id@
        &&& r.devices_spec()[i].driver_spec() == c.device_instances@[i].driver_module_id@
    }
}

/// The modules that a manager loaded from `c` holds.
pub open spec fn modules_loaded_from(reg: SchemaRegistry, c: ResourceConfig, mgr: ModuleManager) -> bool {
    let slots = module_slots(c.module_instances@, c.module_instances@.len() as int);
    &&& mgr.modules_spec().len() == slots.len()
    &&& forall|j: int| 0 <= j < slots.len() ==> is_loaded_module(reg, c.module_instances@[slots[j]], #[trigger] mgr.modules_spec()[j])
}

/// What `set_resources` does with the normalised proposal `c`: refuse it
/// when its check fails; else load its modules on a fresh devkit board (the
/// manager then holds their claims) and its devices, failing as the loads fail.
pub open spec fn set_resources_outcome(
    reg: SchemaRegistry,
    before: GpioManager,
    after: GpioManager,
    c: ResourceConfig,
    request_id: Option<String>,
    res: Result<ResourceProposal, AppError>,
) -> bool {
    match resources_check(before.board_spec(), reg, c) {
        Err(m) => {
            &&& after == before
            &&& res matches Ok(ResourceProposal::Rejected(p))
            &&& check_result_is(p, "set_resources"@, request_id, Err(m), ""@)
        },
        Ok(()) => exists|b: BoardProfile| #[trigger] is_esp32_devkit_v1(b) && {
            let (r, claims) = load_from(b, reg, Seq::<RuntimeClaim>::empty(), c.module_instances@, 0);
            match r {
                Err(e) => after == before && (res matches Err(x) && is_message(x, e)),
                Ok(()) => {
                    &&& after.wf()
                    &&& after.board_spec() == b
                    &&& after.claims_spec() == claims
                    &&& match first_unsupported_from(c.device_instances@, 0) {
                        Some(k) => res matches Err(x) && is_message(x, "Unsupported device controller type '"@ + c.device_instances@[k].device_type_id@ + "'"@),
                        None => res matches Ok(ResourceProposal::Accepted { resources, modules, devices })
                            && resources == c && modules_loaded_from(reg, c, modules) && devices_loaded_from(c, devices),
                    }
                },
            }
        },
    }
}

/// The answer to `set_resources`, up to storing the accepted configuration:
/// the proposal is normalised (a failure there is an error of the command
/// itself), checked on the current board, and on success loaded into fresh
/// modules, which replace `gpio` with their board and claims, and devices.
pub fn plan_set_resources(
    gpio: &mut GpioManager,
    request_id: Option<String>,
    proposed: &ResourceConfig,
    schemas: &SchemaRegistry,
) -> (res: Result<ResourceProposal, AppError>)
    ensures
        match normalized_resources(*schemas, *proposed) {
            Err(m) => *final(gpio) == *old(gpio) && (res matches Err(e) && is_message(e, m)),
            Ok(v) => exists|c: ResourceConfig| c@ == v && #[trigger] set_resources_outcome(*schemas, *old(gpio), *final(gpio), c, request_id, res),
        },
{
    let (normalized, _) = match DeviceRegistry::normalize_config(proposed, schemas) {
        Ok(n) => n,
        Err(e) => return Err(e),
    };
    let ghost c = normalized;
    let ghost before = *gpio;
    match check_resources(gpio, &normalized, schemas) {
        Err(e) => {
            let payload = MqttContract::error_result("set_resources", request_id, e.display_text());
            proof {
                assert(set_resources_outcome(*schemas, before, *gpio, c, request_id, Ok(ResourceProposal::Rejected(payload))));
            }
            return Ok(ResourceProposal::Rejected(payload));
        },
        Ok(()) => {},
    }
    let board = BoardProfile::esp32_devkit_v1();
    let ghost b = board;
    let mut fresh = GpioManager::new(board);
    let modules = match ModuleManager::load(&normalized, &mut fresh, schemas) {
        Ok(m) => m,
        Err(e) => {
            let res: Result<ResourceProposal, AppError> = Err(e);
            proof {
                assert(set_resources_outcome(*schemas, before, *gpio, c, request_id, res));
            }
            return res;
        },
    };
    *gpio = fresh;
    let devices = match DeviceRegistry::load(&normalized, schemas) {
        Ok(d) => d,
        Err(e) => {
            let res: Result<ResourceProposal, AppError> = Err(e);
            proof {
                assert(set_resources_outcome(*schemas, before, *gpio, c, request_id, res));
            }
            return res;
        },
    };
    let res: Result<ResourceProposal, AppError> = Ok(ResourceProposal::Accepted { resources: normalized, modules, devices });
    proof {
        assert(set_resources_outcome(*schemas, before, *gpio, c, request_id, res));
    }
    res
}

/// The result of `get_config`, once the configuration is published.
pub fn get_config_result(request_id: Option<String>) -> (res: ConfigOperationResultPayload)
    ensures
        check_result_is(res, "get_config"@, request_id, Ok(()), "Published current board, resource, and device configuration."@),
{
    MqttContract::ok_result("get_config", request_id, owned("Published current board, resource, and device configuration."))
}

/// The result of `set_resources`, once the accepted configuration is stored.
pub fn set_resources_saved_result(request_id: Option<String>) -> (res: ConfigOperationResultPayload)
    ensures
        check_result_is(res, "set_resources"@, request_id, Ok(()), "Resource configuration saved successfully."@),
{
    MqttContract::ok_result("set_resources", request_id, owned("Resource configuration saved successfully."))
}

} // verus!

verus! {

/// `validate_resources` and `set_resources` agree on a configuration: one
/// that validates is not refused by `set_resources`, and one that does not
/// is refused with the same reason.
pub proof fn law_validate_and_set_agree(
    reg: SchemaRegistry,
    before: GpioManager,
    after: GpioManager,
    c: ResourceConfig,
    validate_id: Option<String>,
    set_id: Option<String>,
    p: ConfigOperationResultPayload,
    res: Result<ResourceProposal, AppError>,
)
    requires
        check_result_is(p, "validate_resources"@, validate_id, resources_check(before.board_spec(), reg, c), "Resource configuration is valid."@),
        set_resources_outcome(reg, before, after, c, set_id, res),
    ensures
        p.ok ==> !(res matches Ok(ResourceProposal::Rejected(_))),
        !p.ok ==> (res matches Ok(ResourceProposal::Rejected(q)) && !q.ok && q.message@ == p.message@),
{
}

} // verus!
