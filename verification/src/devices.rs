//! Logical devices: automatic provisioning of a device for each
//! single-device module, validation of the device instances, and the switch
//! device that drives a relay module.

use vstd::prelude::*;

use crate::config::{opt_text, copy_opt_text, DeviceInstanceConfig, DeviceInstanceView, ResourceConfig, ResourceConfigView, ModuleInstanceConfig};
use crate::error::{error_view, is_message, text_result, unit_outcome, AppError, ErrorView};
use crate::keyed::{first_index_of, keys_of, keys_sorted, lemma_first_index_of, lemma_first_index_of_at};
use crate::modules::{execute_result, id_texts, module_index, settle, DriverBinaryState, ModuleManager, PinWrites};
use crate::schemas::registry::is_device_type_snapshot;
use crate::schemas::types::{texts, DeviceBindingMode, DeviceTypeSchemaSnapshot};
use crate::schemas::validate::{device_instance_check, validate_device_instance};
use crate::schemas::SchemaRegistry;
use crate::text::{is_white_space, lemma_not_blank_when_last_not_space, concat, decimal, decimal_text, is_blank, is_blank_text, join3, join5, owned, text_eq, to_uppercase, trim, trimmed, spec_to_uppercase, spec_utf8_error_text, utf8_text};

verus! {

#[derive(Debug, Clone, PartialEq, Eq)]
pub struct DeviceConfigSnapshot {
    pub device_instances: Vec<DeviceInstanceSnapshot>,
}

#[derive(Debug, Clone, PartialEq, Eq)]
pub struct DeviceInstanceSnapshot {
    pub id: String,
    pub device_type_id: String,
    pub display_name: Option<String>,
    pub driver_module_id: String,
}

#[derive(Debug, Clone)]
pub struct DeviceCommand {
    pub device_id: String,
    pub payload: Vec<u8>,
}

/// The commands a switch takes, after trimming and upper-casing.
pub open spec fn is_switch_command(t: Seq<char>) -> bool {
    t == "ON"@ || t == "OFF"@ || t == "TOGGLE"@
}

/// The outcome of normalizing a switch command text.
pub open spec fn normalized_switch_command(value: Seq<char>) -> Result<Seq<char>, Seq<char>> {
    let n = spec_to_uppercase(trimmed(value));
    if is_switch_command(n) {
        Ok(n)
    } else {
        Err("Unsupported switch command '"@ + value + "'"@)
    }
}

/// Whether `res` is the outcome `expected`, an error being a message.
pub open spec fn text_outcome(res: Result<String, AppError>, expected: Result<Seq<char>, Seq<char>>) -> bool {
    match expected {
        Ok(t) => res matches Ok(s) && s@ == t,
        Err(m) => res matches Err(e) && is_message(e, m),
    }
}

/// Normalizes a switch command: trimmed and upper-cased, it must be `ON`,
/// `OFF` or `TOGGLE`.
pub fn normalize_switch_command(value: &str) -> (res: Result<String, AppError>)
    ensures
        text_outcome(res, normalized_switch_command(value@)),
{
    let normalized = to_uppercase(trim(value));
    if text_eq(normalized.as_str(), "ON") || text_eq(normalized.as_str(), "OFF") || text_eq(normalized.as_str(), "TOGGLE") {
        Ok(normalized)
    } else {
        Err(AppError::Message(join3("Unsupported switch command '", value, "'")))
    }
}

/// The outcome of parsing a switch command payload: an empty payload is
/// refused; a payload starting with `{` is a JSON object whose `state`
/// field, as decoded into `json_state`, is the command; any other payload is
/// UTF-8 text. The command is then normalized.
pub open spec fn switch_command_spec(payload: Seq<u8>, json_state: Result<String, String>) -> Result<Seq<char>, ErrorView> {
    let norm = |t: Seq<char>| match normalized_switch_command(t) {
        Ok(c) => Ok(c),
        Err(m) => Err(ErrorView::Message(m)),
    };
    if payload.len() == 0 {
        Err(ErrorView::Message("Switch command payload cannot be empty"@))
    } else if payload[0] == 123u8 {
        match json_state {
            Ok(state) => norm(state@),
            Err(t) => Err(ErrorView::Json(t@)),
        }
    } else if vstd::utf8::valid_utf8(payload) {
        norm(vstd::utf8::decode_utf8(payload))
    } else {
        Err(ErrorView::Message("Invalid switch command UTF-8: "@ + spec_utf8_error_text(payload)))
    }
}

/// Parses a switch command payload. `json_state` is what decoding the
/// payload as a JSON object with a string field `state` gave (the decoder's
/// error text on failure); it is read only for a payload that starts with `{`.
pub fn parse_switch_command(payload: &[u8], json_state: Result<String, String>) -> (res: Result<String, AppError>)
    ensures
        text_result(res) == switch_command_spec(payload@, json_state),
{
    if payload.len() == 0 {
        return Err(AppError::Message(owned("Switch command payload cannot be empty")));
    }
    if payload[0] == 123u8 {
        return match json_state {
            Ok(state) => normalize_switch_command(state.as_str()),
            Err(t) => Err(AppError::Json(t)),
        };
    }
    match utf8_text(payload) {
        Ok(text) => normalize_switch_command(text),
        Err(t) => Err(AppError::Message(concat("Invalid switch command UTF-8: ", t.as_str()))),
    }
}

/// A switch device driven by a relay module.
#[derive(Debug, Clone, PartialEq, Eq)]
pub struct SwitchController {
    id: String,
    driver_module_id: String,
}

/// The state text a switch publishes for its driver module's state.
pub open spec fn switch_state_text(s: DriverBinaryState) -> Seq<char> {
    match s {
        DriverBinaryState::On => "ON"@,
        DriverBinaryState::Off => "OFF"@,
    }
}

impl SwitchController {
    pub closed spec fn id_spec(self) -> Seq<char> {
        self.id@
    }

    pub closed spec fn driver_spec(self) -> Seq<char> {
        self.driver_module_id@
    }

    pub fn new(id: String, driver_module_id: String) -> (res: SwitchController)
        ensures
            res.id_spec() == id@,
            res.driver_spec() == driver_module_id@,
    {
        SwitchController { id, driver_module_id }
    }

    pub fn id(&self) -> (res: &str)
        ensures
            res@ == self.id_spec(),
    {
        self.id.as_str()
    }

    pub fn driver_module_id(&self) -> (res: &str)
        ensures
            res@ == self.driver_spec(),
    {
        self.driver_module_id.as_str()
    }

    /// The state the switch publishes: its driver module's state as `ON` or
    /// `OFF`, or an error when the driver module is not loaded.
    pub fn state_payload(&self, modules: &ModuleManager) -> (res: Result<&'static str, AppError>)
        ensures
            match module_index(modules.modules_spec(), self.driver_spec()) {
                Some(i) => res matches Ok(t) && t@ == switch_state_text(modules.modules_spec()[i].state_spec()),
                None => res matches Err(e) && is_message(e, "Driver module '"@ + self.driver_spec() + "' not available for device '"@ + self.id_spec() + "'"@),
            },
    {
        match modules.binary_state(self.driver_module_id.as_str()) {
            Some(DriverBinaryState::On) => Ok("ON"),
            Some(DriverBinaryState::Off) => Ok("OFF"),
            None => Err(AppError::Message(join5("Driver module '", self.driver_module_id.as_str(), "' not available for device '", self.id.as_str(), "'"))),
        }
    }

    /// Executes a switch command payload on the driver module.
    ///
    /// The events of a module step propagate for at most
    /// `MAX_PROPAGATED_EVENTS` events: with more still queued, the step stops
    /// with the error "Module events did not settle", keeping the states
    /// reached so far. Modules that
    /// trigger each other in a ring would otherwise propagate forever.
    pub fn handle_command(&self, payload: &[u8], json_state: Result<String, String>, modules: &mut ModuleManager, now: u64, pins: &mut PinWrites) -> (res: Result<Vec<String>, AppError>)
        requires
            old(modules).deadlines_fit(now),
        ensures
            final(modules).deadlines_fit(now),
            match switch_command_spec(payload@, json_state) {
                Err(ev) => res matches Err(e) && error_view(e) == ev && final(modules).modules_spec() == old(modules).modules_spec() && *final(pins) == *old(pins),
                Ok(cmd) => execute_result(old(modules).modules_spec(), self.driver_spec(), cmd, now, res, final(modules).modules_spec(), *old(pins), *final(pins)),
            },
    {
        let command = match parse_switch_command(payload, json_state) {
            Ok(c) => c,
            Err(e) => {
                return Err(e);
            },
        };
        modules.execute_command(self.driver_module_id.as_str(), command.as_str(), now, pins)
    }
}

/// The logical devices of the running firmware.
pub struct DeviceRegistry {
    devices: Vec<SwitchController>,
}

/// The driver module ids of device views.
pub open spec fn driver_ids(ds: Seq<DeviceInstanceView>) -> Seq<Seq<char>> {
    ds.map_values(|d: DeviceInstanceView| d.driver_module_id)
}

/// The ids of device views.
pub open spec fn device_ids(ds: Seq<DeviceInstanceView>) -> Seq<Seq<char>> {
    ds.map_values(|d: DeviceInstanceView| d.id)
}

/// The id of the device provisioned automatically for module `module_id`.
pub open spec fn default_device_id(module_id: Seq<char>) -> Seq<char> {
    module_id + "__device"@
}

/// What normalizing does for module `m`, with the devices so far: a
/// single-device module whose schema names a default device type and that
/// drives no device yet gets a device `<module id>__device` of that type,
/// named like the module (or by its id); the id must be free.
pub open spec fn normalize_step(reg: SchemaRegistry, m: ModuleInstanceConfig, devices: Seq<DeviceInstanceView>) -> Result<Option<DeviceInstanceView>, Seq<char>> {
    match reg.module_spec(m.module_type_id@) {
        None => Err("Unknown module schema '"@ + m.module_type_id@ + "'"@),
        Some(s) => if s.device_binding_mode != DeviceBindingMode::Single || driver_ids(devices).contains(m.id@) || s.default_device_type_id is None {
            Ok(None)
        } else if device_ids(devices).contains(default_device_id(m.id@)) {
            Err("Cannot auto-provision device for module '"@ + m.id@ + "' because device id '"@ + default_device_id(m.id@) + "' is already in use"@)
        } else {
            Ok(Some(DeviceInstanceView {
                id: default_device_id(m.id@),
                device_type_id: s.default_device_type_id->0@,
                display_name: Some(match opt_text(m.display_name) { Some(n) => n, None => m.id@ }),
                driver_module_id: m.id@,
            }))
        },
    }
}

/// Normalizing from module position `k` on, with the devices so far.
pub open spec fn normalize_from(reg: SchemaRegistry, ms: Seq<ModuleInstanceConfig>, k: int, devices: Seq<DeviceInstanceView>, changed: bool) -> Result<(Seq<DeviceInstanceView>, bool), Seq<char>>
    decreases ms.len() - k,
{
    if k < 0 || k >= ms.len() {
        Ok((devices, changed))
    } else {
        match normalize_step(reg, ms[k], devices) {
            Err(e) => Err(e),
            Ok(None) => normalize_from(reg, ms, k + 1, devices, changed),
            Ok(Some(d)) => normalize_from(reg, ms, k + 1, devices.push(d), true),
        }
    }
}

proof fn lemma_normalize_extends(reg: SchemaRegistry, ms: Seq<ModuleInstanceConfig>, k: int, d: Seq<DeviceInstanceView>, ch: bool)
    requires
        normalize_from(reg, ms, k, d, ch) is Ok,
    ensures
        ({
            let f = normalize_from(reg, ms, k, d, ch)->Ok_0.0;
            d.len() <= f.len() && f.subrange(0, d.len() as int) == d
        }),
    decreases ms.len() - k,
{
    if k < 0 || k >= ms.len() {
        assert(d.subrange(0, d.len() as int) =~= d);
    } else {
        match normalize_step(reg, ms[k], d) {
            Err(e) => {},
            Ok(None) => {
                lemma_normalize_extends(reg, ms, k + 1, d, ch);
            },
            Ok(Some(x)) => {
                lemma_normalize_extends(reg, ms, k + 1, d.push(x), true);
                let f = normalize_from(reg, ms, k, d, ch)->Ok_0.0;
                assert(f.subrange(0, d.len() as int) =~= f.subrange(0, d.len() + 1 as int).subrange(0, d.len() as int));
                assert(d.push(x).subrange(0, d.len() as int) =~= d);
            },
        }
    }
}

proof fn lemma_driver_in_extension(d: Seq<DeviceInstanceView>, f: Seq<DeviceInstanceView>, id: Seq<char>)
    requires
        d.len() <= f.len(),
        f.subrange(0, d.len() as int) == d,
        driver_ids(d).contains(id),
    ensures
        driver_ids(f).contains(id),
{
    let i = choose|i: int| 0 <= i < driver_ids(d).len() && driver_ids(d)[i] == id;
    assert(f[i] == f.subrange(0, d.len() as int)[i]);
    assert(driver_ids(f)[i] == id);
}

proof fn lemma_normalize_settled(reg: SchemaRegistry, ms: Seq<ModuleInstanceConfig>, k: int, d: Seq<DeviceInstanceView>, ch: bool)
    requires
        normalize_from(reg, ms, k, d, ch) is Ok,
    ensures
        ({
            let f = normalize_from(reg, ms, k, d, ch)->Ok_0.0;
            normalize_from(reg, ms, k, f, false) == Ok::<(Seq<DeviceInstanceView>, bool), Seq<char>>((f, false))
        }),
    decreases ms.len() - k,
{
    if k >= 0 && k < ms.len() {
        let f = normalize_from(reg, ms, k, d, ch)->Ok_0.0;
        match normalize_step(reg, ms[k], d) {
            Err(e) => {},
            Ok(None) => {
                lemma_normalize_settled(reg, ms, k + 1, d, ch);
                lemma_normalize_extends(reg, ms, k + 1, d, ch);
                if driver_ids(d).contains(ms[k].id@) {
                    lemma_driver_in_extension(d, f, ms[k].id@);
                }
                assert(normalize_step(reg, ms[k], f) == Ok::<Option<DeviceInstanceView>, Seq<char>>(None));
            },
            Ok(Some(x)) => {
                lemma_normalize_settled(reg, ms, k + 1, d.push(x), true);
                lemma_normalize_extends(reg, ms, k + 1, d.push(x), true);
                assert(driver_ids(d.push(x))[d.len() as int] == ms[k].id@);
                lemma_driver_in_extension(d.push(x), f, ms[k].id@);
                assert(normalize_step(reg, ms[k], f) == Ok::<Option<DeviceInstanceView>, Seq<char>>(None));
            },
        }
    }
}

/// Normalizing is idempotent: normalizing the devices that normalizing gave
/// adds nothing and reports no change.
pub proof fn law_normalize_idempotent(reg: SchemaRegistry, ms: Seq<ModuleInstanceConfig>, devices: Seq<DeviceInstanceView>)
    requires
        normalize_from(reg, ms, 0, devices, false) is Ok,
    ensures
        ({
            let f = normalize_from(reg, ms, 0, devices, false)->Ok_0.0;
            normalize_from(reg, ms, 0, f, false) == Ok::<(Seq<DeviceInstanceView>, bool), Seq<char>>((f, false))
        }),
{
    lemma_normalize_settled(reg, ms, 0, devices, false);
}

/// Normalizing reads the module instances only by their views.
proof fn lemma_normalize_by_views(reg: SchemaRegistry, ms1: Seq<ModuleInstanceConfig>, ms2: Seq<ModuleInstanceConfig>, k: int, d: Seq<DeviceInstanceView>, ch: bool)
    requires
        ms1.map_values(|m: ModuleInstanceConfig| m@) == ms2.map_values(|m: ModuleInstanceConfig| m@),
    ensures
        normalize_from(reg, ms1, k, d, ch) == normalize_from(reg, ms2, k, d, ch),
    decreases ms1.len() - k,
{
    assert(ms1.len() == ms1.map_values(|m: ModuleInstanceConfig| m@).len());
    if k >= 0 && k < ms1.len() {
        assert(ms1[k]@ == ms1.map_values(|m: ModuleInstanceConfig| m@)[k]);
        assert(ms2[k]@ == ms2.map_values(|m: ModuleInstanceConfig| m@)[k]);
        assert(normalize_step(reg, ms1[k], d) == normalize_step(reg, ms2[k], d));
        match normalize_step(reg, ms1[k], d) {
            Err(e) => {},
            Ok(None) => lemma_normalize_by_views(reg, ms1, ms2, k + 1, d, ch),
            Ok(Some(x)) => lemma_normalize_by_views(reg, ms1, ms2, k + 1, d.push(x), true),
        }
    }
}

/// A configuration that `normalize_config` gave back normalizes to itself:
/// normalizing it again adds no device and reports no change.
pub proof fn law_normalize_config_idempotent(reg: SchemaRegistry, config: ResourceConfig, n: ResourceConfig)
    requires
        normalize_from(reg, config.module_instances@, 0, config@.device_instances, false) is Ok,
        n@ == (ResourceConfigView {
            version: config.version,
            module_instances: config@.module_instances,
            device_instances: normalize_from(reg, config.module_instances@, 0, config@.device_instances, false)->Ok_0.0,
        }),
    ensures
        normalize_from(reg, n.module_instances@, 0, n@.device_instances, false)
            == Ok::<(Seq<DeviceInstanceView>, bool), Seq<char>>((n@.device_instances, false)),
{
    law_normalize_idempotent(reg, config.module_instances@, config@.device_instances);
    lemma_normalize_by_views(reg, n.module_instances@, config.module_instances@, 0, n@.device_instances, false);
}

/// The number of devices among `ds` driven by module `id`.
pub open spec fn driver_count(ds: Seq<DeviceInstanceConfig>, id: Seq<char>) -> nat
    decreases ds.len(),
{
    if ds.len() == 0 {
        0
    } else {
        driver_count(ds.drop_last(), id) + if ds.last().driver_module_id@ == id { 1nat } else { 0nat }
    }
}

/// The outcome of validating the devices from position `k` on (non-blank,
/// distinct ids; each device valid), then the device counts of the modules.
pub open spec fn device_checks_from(reg: SchemaRegistry, c: ResourceConfig, k: int) -> Result<(), Seq<char>>
    decreases c.device_instances@.len() - k,
{
    let ds = c.device_instances@;
    if k < 0 || k >= ds.len() {
        module_count_checks_from(reg, c, 0)
    } else if is_blank_text(ds[k].id@) {
        Err("Device instance id cannot be empty"@)
    } else if ds.subrange(0, k).map_values(|d: DeviceInstanceConfig| d.id@).contains(ds[k].id@) {
        Err("Device instance '"@ + ds[k].id@ + "' is defined more than once"@)
    } else {
        match device_instance_check(reg, c, ds[k]) {
            Err(e) => Err(e),
            Ok(()) => device_checks_from(reg, c, k + 1),
        }
    }
}

/// The outcome of checking, from module position `j` on, that each module's
/// schema exists and that a single-device module drives exactly one device.
pub open spec fn module_count_checks_from(reg: SchemaRegistry, c: ResourceConfig, j: int) -> Result<(), Seq<char>>
    decreases c.module_instances@.len() - j,
{
    let ms = c.module_instances@;
    if j < 0 || j >= ms.len() {
        Ok(())
    } else {
        match reg.module_spec(ms[j].module_type_id@) {
            None => Err("Unknown module schema '"@ + ms[j].module_type_id@ + "'"@),
            Some(s) => {
                let n = driver_count(c.device_instances@, ms[j].id@);
                if s.device_binding_mode == DeviceBindingMode::Single && n != 1 {
                    Err("Module '"@ + ms[j].id@ + "' requires exactly one logical device, found "@ + decimal(n))
                } else {
                    module_count_checks_from(reg, c, j + 1)
                }
            },
        }
    }
}

/// The first device from position `k` on whose type has no controller (only
/// switches have one).
pub open spec fn first_unsupported_from(ds: Seq<DeviceInstanceConfig>, k: int) -> Option<int>
    decreases ds.len() - k,
{
    if k < 0 || k >= ds.len() {
        None
    } else if ds[k].device_type_id@ != "core:switch"@ {
        Some(k)
    } else {
        first_unsupported_from(ds, k + 1)
    }
}

/// Adding the devices from position `j` on driven by module `m` to the
/// published list `acc`, each once.
pub open spec fn add_devices_of(devs: Seq<SwitchController>, m: Seq<char>, j: int, acc: Seq<Seq<char>>) -> Seq<Seq<char>>
    decreases devs.len() - j,
{
    if j < 0 || j >= devs.len() {
        acc
    } else {
        add_devices_of(devs, m, j + 1, if devs[j].driver_spec() == m && !acc.contains(devs[j].id_spec()) {
            acc.push(devs[j].id_spec())
        } else {
            acc
        })
    }
}

/// The devices whose state is published after the modules `changed[i..]`
/// changed: for each module in order, the devices it drives, each device once.
pub open spec fn publish_from(devs: Seq<SwitchController>, changed: Seq<Seq<char>>, i: int, acc: Seq<Seq<char>>) -> Seq<Seq<char>>
    decreases changed.len() - i,
{
    if i < 0 || i >= changed.len() {
        acc
    } else {
        publish_from(devs, changed, i + 1, add_devices_of(devs, changed[i], 0, acc))
    }
}

proof fn lemma_add_devices_distinct(devs: Seq<SwitchController>, m: Seq<char>, j: int, acc: Seq<Seq<char>>)
    requires
        acc.no_duplicates(),
    ensures
        add_devices_of(devs, m, j, acc).no_duplicates(),
    decreases devs.len() - j,
{
    if j >= 0 && j < devs.len() {
        if devs[j].driver_spec() == m && !acc.contains(devs[j].id_spec()) {
            let next = acc.push(devs[j].id_spec());
            assert forall|a: int, b: int| 0 <= a < b < next.len() implies next[a] != next[b] by {
                if b == acc.len() {
                    assert(acc[a] == next[a]);
                }
            }
            lemma_add_devices_distinct(devs, m, j + 1, next);
        } else {
            lemma_add_devices_distinct(devs, m, j + 1, acc);
        }
    }
}

proof fn lemma_publish_distinct(devs: Seq<SwitchController>, changed: Seq<Seq<char>>, i: int, acc: Seq<Seq<char>>)
    requires
        acc.no_duplicates(),
    ensures
        publish_from(devs, changed, i, acc).no_duplicates(),
    decreases changed.len() - i,
{
    if i >= 0 && i < changed.len() {
        lemma_add_devices_distinct(devs, changed[i], 0, acc);
        lemma_publish_distinct(devs, changed, i + 1, add_devices_of(devs, changed[i], 0, acc));
    }
}

proof fn lemma_add_devices_covers(devs: Seq<SwitchController>, m: Seq<char>, j: int, acc: Seq<Seq<char>>)
    requires
        0 <= j,
    ensures
        forall|x: Seq<char>| acc.contains(x) ==> #[trigger] add_devices_of(devs, m, j, acc).contains(x),
        forall|k: int| j <= k < devs.len() && (#[trigger] devs[k]).driver_spec() == m ==> add_devices_of(devs, m, j, acc).contains(devs[k].id_spec()),
    decreases devs.len() - j,
{
    if j < devs.len() {
        let next = if devs[j].driver_spec() == m && !acc.contains(devs[j].id_spec()) {
            acc.push(devs[j].id_spec())
        } else {
            acc
        };
        assert forall|x: Seq<char>| acc.contains(x) implies next.contains(x) by {
            if next != acc {
                let q = choose|q: int| 0 <= q < acc.len() && acc[q] == x;
                assert(next[q] == x);
            }
        }
        if devs[j].driver_spec() == m {
            assert(next.contains(devs[j].id_spec())) by {
                if next != acc {
                    assert(next[acc.len() as int] == devs[j].id_spec());
                }
            }
        }
        lemma_add_devices_covers(devs, m, j + 1, next);
        assert(add_devices_of(devs, m, j, acc) == add_devices_of(devs, m, j + 1, next));
        assert forall|x: Seq<char>| acc.contains(x) implies #[trigger] add_devices_of(devs, m, j, acc).contains(x) by {
            assert(next.contains(x));
        }
    } else {
        assert(add_devices_of(devs, m, j, acc) == acc);
    }
}

proof fn lemma_publish_covers(devs: Seq<SwitchController>, changed: Seq<Seq<char>>, i: int, acc: Seq<Seq<char>>)
    requires
        0 <= i,
    ensures
        forall|x: Seq<char>| acc.contains(x) ==> #[trigger] publish_from(devs, changed, i, acc).contains(x),
        forall|k: int, c: int| 0 <= k < devs.len() && i <= c < changed.len() && (#[trigger] devs[k]).driver_spec() == #[trigger] changed[c]
            ==> publish_from(devs, changed, i, acc).contains(devs[k].id_spec()),
    decreases changed.len() - i,
{
    if i < changed.len() {
        let next = add_devices_of(devs, changed[i], 0, acc);
        lemma_add_devices_covers(devs, changed[i], 0, acc);
        lemma_publish_covers(devs, changed, i + 1, next);
        assert(publish_from(devs, changed, i, acc) == publish_from(devs, changed, i + 1, next));
        assert forall|x: Seq<char>| acc.contains(x) implies #[trigger] publish_from(devs, changed, i, acc).contains(x) by {
            assert(next.contains(x));
        }
        assert forall|k: int, c: int| 0 <= k < devs.len() && i <= c < changed.len() && (#[trigger] devs[k]).driver_spec() == #[trigger] changed[c]
            implies publish_from(devs, changed, i, acc).contains(devs[k].id_spec()) by {
            if c == i {
                assert(next.contains(devs[k].id_spec()));
            }
        }
    } else {
        assert(publish_from(devs, changed, i, acc) == acc);
    }
}

/// Every device whose driver module is among the changed modules is
/// published.
pub proof fn law_changed_devices_published(devs: Seq<SwitchController>, changed: Seq<Seq<char>>, k: int, c: int)
    requires
        0 <= k < devs.len(),
        0 <= c < changed.len(),
        devs[k].driver_spec() == changed[c],
    ensures
        publish_from(devs, changed, 0, seq![]).contains(devs[k].id_spec()),
{
    lemma_publish_covers(devs, changed, 0, seq![]);
}

/// A device whose driver module changed is published once, however many of
/// the changed modules (or repeats of one) lead to it.
pub proof fn law_devices_published_once(devs: Seq<SwitchController>, changed: Seq<Seq<char>>)
    ensures
        publish_from(devs, changed, 0, seq![]).no_duplicates(),
{
    lemma_publish_distinct(devs, changed, 0, seq![]);
}

/// Whether `s` is the published description of the devices of `c`.
pub open spec fn is_device_config_snapshot(c: ResourceConfig, s: DeviceConfigSnapshot) -> bool {
    &&& s.device_instances@.len() == c.device_instances@.len()
    &&& forall|i: int| 0 <= i < s.device_instances@.len() ==> {
        let d = c.device_instances@[i];
        let x = #[trigger] s.device_instances@[i];
        &&& x.id == d.id
        &&& x.device_type_id == d.device_type_id
        &&& opt_text(x.display_name) == opt_text(d.display_name)
        &&& x.driver_module_id == d.driver_module_id
    }
}

fn text_in(v: &Vec<String>, t: &str) -> (res: bool)
    ensures
        res == id_texts(v@).contains(t@),
{
    let n = v.len();
    for i in 0..n
        invariant
            n == v@.len(),
            forall|k: int| 0 <= k < i ==> id_texts(v@)[k] != t@,
    {
        if text_eq(v[i].as_str(), t) {
            assert(id_texts(v@)[i as int] == t@);
            return true;
        }
    }
    false
}

fn auto_provision(module: &ModuleInstanceConfig, schemas: &SchemaRegistry, devices: &Vec<DeviceInstanceConfig>) -> (res: Result<Option<DeviceInstanceConfig>, AppError>)
    ensures
        match normalize_step(*schemas, *module, devices@.map_values(|d: DeviceInstanceConfig| d@)) {
            Err(m) => res matches Err(e) && is_message(e, m),
            Ok(None) => res matches Ok(None),
            Ok(Some(v)) => res matches Ok(Some(d)) && d@ == v,
        },
{
    let ghost dv = devices@.map_values(|d: DeviceInstanceConfig| d@);
    let schema = match schemas.lookup_module_type_required(module.module_type_id.as_str()) {
        Ok(s) => s,
        Err(e) => {
            return Err(e);
        },
    };
    if schema.device_binding_mode != DeviceBindingMode::Single {
        return Ok(None);
    }
    let m = devices.len();
    let mut drives = false;
    for j in 0..m
        invariant
            m == devices@.len(),
            dv == devices@.map_values(|d: DeviceInstanceConfig| d@),
            drives == driver_ids(dv).subrange(0, j as int).contains(module.id@),
    {
        let ghost before = driver_ids(dv).subrange(0, j as int);
        assert(driver_ids(dv).subrange(0, j + 1) =~= before.push(dv[j as int].driver_module_id));
        if text_eq(devices[j].driver_module_id.as_str(), module.id.as_str()) {
            drives = true;
        }
        proof {
            let after = driver_ids(dv).subrange(0, j + 1);
            if drives {
                if before.contains(module.id@) {
                    let x = choose|x: int| 0 <= x < before.len() && before[x] == module.id@;
                    assert(after[x] == before[x]);
                } else {
                    assert(after[j as int] == module.id@);
                }
            } else {
                assert forall|x: int| 0 <= x < after.len() implies after[x] != module.id@ by {
                    if x < j {
                        assert(after[x] == before[x]);
                    }
                }
            }
        }
    }
    assert(driver_ids(dv).subrange(0, m as int) =~= driver_ids(dv));
    if drives {
        return Ok(None);
    }
    let default_type = match &schema.default_device_type_id {
        Some(d) => d,
        None => {
            return Ok(None);
        },
    };
    let default_device_id = concat(module.id.as_str(), "__device");
    let mut taken = false;
    for j in 0..m
        invariant
            m == devices@.len(),
            dv == devices@.map_values(|d: DeviceInstanceConfig| d@),
            taken == device_ids(dv).subrange(0, j as int).contains(default_device_id@),
    {
        let ghost before = device_ids(dv).subrange(0, j as int);
        assert(device_ids(dv).subrange(0, j + 1) =~= before.push(dv[j as int].id));
        if text_eq(devices[j].id.as_str(), default_device_id.as_str()) {
            taken = true;
        }
        proof {
            let after = device_ids(dv).subrange(0, j + 1);
            if taken {
                if before.contains(default_device_id@) {
                    let x = choose|x: int| 0 <= x < before.len() && before[x] == default_device_id@;
                    assert(after[x] == before[x]);
                } else {
                    assert(after[j as int] == default_device_id@);
                }
            } else {
                assert forall|x: int| 0 <= x < after.len() implies after[x] != default_device_id@ by {
                    if x < j {
                        assert(after[x] == before[x]);
                    }
                }
            }
        }
    }
    assert(device_ids(dv).subrange(0, m as int) =~= device_ids(dv));
    if taken {
        return Err(AppError::Message(join5("Cannot auto-provision device for module '", module.id.as_str(), "' because device id '", default_device_id.as_str(), "' is already in use")));
    }
    let display_name = match &module.display_name {
        Some(name) => Some(name.clone()),
        None => Some(module.id.clone()),
    };
    Ok(Some(DeviceInstanceConfig {
        id: default_device_id,
        device_type_id: default_type.clone(),
        display_name,
        driver_module_id: module.id.clone(),
    }))
}

impl DeviceRegistry {
    pub closed spec fn devices_spec(self) -> Seq<SwitchController> {
        self.devices@
    }

    pub fn empty() -> (res: DeviceRegistry)
        ensures
            res.devices_spec() == Seq::<SwitchController>::empty(),
    {
        DeviceRegistry { devices: Vec::new() }
    }

    /// The ids of the devices, in configuration order.
    pub fn device_ids(&self) -> (res: Vec<String>)
        ensures
            id_texts(res@) == self.devices_spec().map_values(|d: SwitchController| d.id_spec()),
    {
        let mut out: Vec<String> = Vec::new();
        let n = self.devices.len();
        for i in 0..n
            invariant
                n == self.devices@.len(),
                id_texts(out@) == self.devices@.subrange(0, i as int).map_values(|d: SwitchController| d.id_spec()),
        {
            let c = self.devices[i].id.clone();
            let ghost o0 = out@;
            out.push(c);
            proof {
                assert(id_texts(out@) =~= id_texts(o0).push(c@));
                assert(self.devices@.subrange(0, i + 1).map_values(|d: SwitchController| d.id_spec()) =~= self.devices@.subrange(0, i as int).map_values(|d: SwitchController| d.id_spec()).push(self.devices@[i as int].id_spec()));
            }
        }
        assert(self.devices@.subrange(0, n as int) =~= self.devices@);
        out
    }

    /// The device with id `device_id`.
    pub fn device(&self, device_id: &str) -> (res: Option<&SwitchController>)
        ensures
            match res {
                Some(d) => exists|i: int| 0 <= i < self.devices_spec().len() && *d == #[trigger] self.devices_spec()[i] && d.id_spec() == device_id@,
                None => forall|i: int| 0 <= i < self.devices_spec().len() ==> (#[trigger] self.devices_spec()[i]).id_spec() != device_id@,
            },
    {
        let n = self.devices.len();
        for i in 0..n
            invariant
                n == self.devices@.len(),
                forall|k: int| 0 <= k < i ==> (#[trigger] self.devices@[k]).id_spec() != device_id@,
        {
            if text_eq(self.devices[i].id.as_str(), device_id) {
                let d = &self.devices[i];
                assert(*d == self.devices_spec()[i as int] && d.id_spec() == device_id@);
                return Some(d);
            }
        }
        None
    }

    /// Adds a device for each single-device module that drives none yet;
    /// reports whether any was added.
    pub fn normalize_config(config: &ResourceConfig, schemas: &SchemaRegistry) -> (res: Result<(ResourceConfig, bool), AppError>)
        ensures
            match normalize_from(*schemas, config.module_instances@, 0, config@.device_instances, false) {
                Ok((ds, ch)) => res matches Ok((c, b)) && b == ch && c@ == (ResourceConfigView {
                    version: config.version,
                    module_instances: config@.module_instances,
                    device_instances: ds,
                }),
                Err(m) => res matches Err(e) && is_message(e, m),
            },
    {
        let mut normalized = config.duplicate();
        let mut changed = false;
        let n = config.module_instances.len();
        for k in 0..n
            invariant
                n == config.module_instances@.len(),
                normalized@.version == config.version,
                normalized@.module_instances == config@.module_instances,
                normalize_from(*schemas, config.module_instances@, 0, config@.device_instances, false)
                    == normalize_from(*schemas, config.module_instances@, k as int, normalized@.device_instances, changed),
        {
            let ghost dv = normalized@.device_instances;
            match auto_provision(&config.module_instances[k], schemas, &normalized.device_instances) {
                Err(e) => {
                    return Err(e);
                },
                Ok(None) => {},
                Ok(Some(device)) => {
                    normalized.device_instances.push(device);
                    changed = true;
                    proof {
                        assert(normalized@.device_instances =~= dv.push(device@));
                    }
                },
            }
        }
        Ok((normalized, changed))
    }

    /// Validates the device instances of a configuration: non-blank,
    /// distinct ids; each device's type known, its driver module configured
    /// and compatible; each single-device module driving exactly one device.
    pub fn validate_config(config: &ResourceConfig, schemas: &SchemaRegistry) -> (res: Result<(), AppError>)
        ensures
            unit_outcome(res, device_checks_from(*schemas, *config, 0)),
    {
        let n = config.device_instances.len();
        for k in 0..n
            invariant
                n == config.device_instances@.len(),
                device_checks_from(*schemas, *config, 0) == device_checks_from(*schemas, *config, k as int),
        {
            let device = &config.device_instances[k];
            if is_blank(device.id.as_str()) {
                return Err(AppError::Message(owned("Device instance id cannot be empty")));
            }
            let mut dup = false;
            for j in 0..k
                invariant
                    k < config.device_instances@.len(),
                    device == config.device_instances@[k as int],
                    dup == config.device_instances@.subrange(0, j as int).map_values(|d: DeviceInstanceConfig| d.id@).contains(device.id@),
            {
                let ghost before = config.device_instances@.subrange(0, j as int).map_values(|d: DeviceInstanceConfig| d.id@);
                let ghost after = config.device_instances@.subrange(0, j + 1).map_values(|d: DeviceInstanceConfig| d.id@);
                assert(after =~= before.push(config.device_instances@[j as int].id@));
                if text_eq(config.device_instances[j].id.as_str(), device.id.as_str()) {
                    dup = true;
                }
                proof {
                    if dup {
                        if before.contains(device.id@) {
                            let x = choose|x: int| 0 <= x < before.len() && before[x] == device.id@;
                            assert(after[x] == before[x]);
                        } else {
                            assert(after[j as int] == device.id@);
                        }
                    } else {
                        assert forall|x: int| 0 <= x < after.len() implies after[x] != device.id@ by {
                            if x < j {
                                assert(after[x] == before[x]);
                            }
                        }
                    }
                }
            }
            if dup {
                return Err(AppError::Message(join3("Device instance '", device.id.as_str(), "' is defined more than once")));
            }
            match validate_device_instance(schemas, config, device) {
                Ok(()) => {},
                Err(e) => {
                    return Err(e);
                },
            }
        }
        let m = config.module_instances.len();
        for j in 0..m
            invariant
                m == config.module_instances@.len(),
                device_checks_from(*schemas, *config, 0) == module_count_checks_from(*schemas, *config, j as int),
        {
            let module = &config.module_instances[j];
            let schema = match schemas.lookup_module_type_required(module.module_type_id.as_str()) {
                Ok(s) => s,
                Err(e) => {
                    return Err(e);
                },
            };
            let mut count: usize = 0;
            let d = config.device_instances.len();
            for i in 0..d
                invariant
                    d == config.device_instances@.len(),
                    count == driver_count(config.device_instances@.subrange(0, i as int), module.id@),
                    count <= i,
            {
                proof {
                    assert(config.device_instances@.subrange(0, i + 1).drop_last() =~= config.device_instances@.subrange(0, i as int));
                }
                if text_eq(config.device_instances[i].driver_module_id.as_str(), module.id.as_str()) {
                    count = count + 1;
                }
            }
            assert(config.device_instances@.subrange(0, d as int) =~= config.device_instances@);
            if schema.device_binding_mode == DeviceBindingMode::Single && count != 1 {
                let digits = decimal_text(count as u64);
                return Err(AppError::Message(join3("Module '", module.id.as_str(), "' requires exactly one logical device, found ").concat(digits.as_str())));
            }
        }
        Ok(())
    }

    /// Builds the registry of a configuration's devices after validating it.
    pub fn load(config: &ResourceConfig, schemas: &SchemaRegistry) -> (res: Result<DeviceRegistry, AppError>)
        ensures
            match device_checks_from(*schemas, *config, 0) {
                Err(m) => res matches Err(e) && is_message(e, m),
                Ok(()) => match first_unsupported_from(config.device_instances@, 0) {
                    Some(k) => res matches Err(e) && is_message(e, "Unsupported device controller type '"@ + config.device_instances@[k].device_type_id@ + "'"@),
                    None => res matches Ok(r) && r.devices_spec().len() == config.device_instances@.len() && forall|i: int| 0 <= i < r.devices_spec().len() ==> {
                        &&& (#[trigger] r.devices_spec()[i]).id_spec() == config.device_instances@[i].id@
                        &&& r.devices_spec()[i].driver_spec() == config.device_instances@[i].driver_module_id@
                    },
                },
            },
    {
        match Self::validate_config(config, schemas) {
            Ok(()) => {},
            Err(e) => {
                return Err(e);
            },
        }
        let mut devices: Vec<SwitchController> = Vec::new();
        let n = config.device_instances.len();
        for k in 0..n
            invariant
                n == config.device_instances@.len(),
                first_unsupported_from(config.device_instances@, 0) == first_unsupported_from(config.device_instances@, k as int),
                device_checks_from(*schemas, *config, 0) is Ok,
                devices@.len() == k,
                forall|i: int| 0 <= i < k ==> {
                    &&& (#[trigger] devices@[i]).id_spec() == config.device_instances@[i].id@
                    &&& devices@[i].driver_spec() == config.device_instances@[i].driver_module_id@
                },
        {
            let device = &config.device_instances[k];
            if !text_eq(device.device_type_id.as_str(), "core:switch") {
                return Err(AppError::Message(join3("Unsupported device controller type '", device.device_type_id.as_str(), "'")));
            }
            devices.push(SwitchController::new(device.id.clone(), device.driver_module_id.clone()));
        }
        Ok(DeviceRegistry { devices })
    }

    /// The published description of the devices of a configuration.
    pub fn snapshot(&self, config: &ResourceConfig) -> (res: DeviceConfigSnapshot)
        ensures
            is_device_config_snapshot(*config, res),
    {
        let mut out: Vec<DeviceInstanceSnapshot> = Vec::new();
        let n = config.device_instances.len();
        for i in 0..n
            invariant
                n == config.device_instances@.len(),
                out@.len() == i,
                forall|k: int| 0 <= k < i ==> {
                    let d = config.device_instances@[k];
                    let x = #[trigger] out@[k];
                    &&& x.id == d.id
                    &&& x.device_type_id == d.device_type_id
                    &&& opt_text(x.display_name) == opt_text(d.display_name)
                    &&& x.driver_module_id == d.driver_module_id
                },
        {
            let d = &config.device_instances[i];
            out.push(DeviceInstanceSnapshot {
                id: d.id.clone(),
                device_type_id: d.device_type_id.clone(),
                display_name: copy_opt_text(&d.display_name),
                driver_module_id: d.driver_module_id.clone(),
            });
        }
        DeviceConfigSnapshot { device_instances: out }
    }

    /// The published descriptions of the device schemas.
    pub fn type_schemas(&self, schemas: &SchemaRegistry) -> (res: Vec<DeviceTypeSchemaSnapshot>)
        ensures
            keys_sorted(keys_of(res@)),
            exists|u: Seq<DeviceTypeSchemaSnapshot>|
                #![trigger u.to_multiset()]
                {
                    &&& u.len() == schemas.devices().len()
                    &&& forall|j: int| 0 <= j < u.len() ==> is_device_type_snapshot(schemas.devices()[j], #[trigger] u[j])
                    &&& res@.to_multiset() =~= u.to_multiset()
                },
    {
        schemas.device_type_snapshots()
    }

    /// The ids of the devices whose state is published after the modules
    /// `changed_modules` changed: for each module in order, the devices it
    /// drives, each device once.
    pub fn devices_for_modules(&self, changed_modules: &Vec<String>) -> (res: Vec<String>)
        ensures
            id_texts(res@) == publish_from(self.devices_spec(), id_texts(changed_modules@), 0, seq![]),
    {
        let mut published: Vec<String> = Vec::new();
        let ghost goal = publish_from(self.devices@, id_texts(changed_modules@), 0, seq![]);
        assert(id_texts(published@) =~= Seq::<Seq<char>>::empty());
        let n = changed_modules.len();
        for i in 0..n
            invariant
                n == changed_modules@.len(),
                goal == publish_from(self.devices@, id_texts(changed_modules@), i as int, id_texts(published@)),
        {
            let module_id = changed_modules[i].as_str();
            let ghost start = id_texts(published@);
            let m = self.devices.len();
            for j in 0..m
                invariant
                    m == self.devices@.len(),
                    module_id@ == id_texts(changed_modules@)[i as int],
                    add_devices_of(self.devices@, module_id@, 0, start) == add_devices_of(self.devices@, module_id@, j as int, id_texts(published@)),
                    goal == publish_from(self.devices@, id_texts(changed_modules@), i + 1, add_devices_of(self.devices@, module_id@, 0, start)),
            {
                let device = &self.devices[j];
                let ghost before = id_texts(published@);
                if text_eq(device.driver_module_id.as_str(), module_id) && !text_in(&published, device.id.as_str()) {
                    let c = device.id.clone();
                    published.push(c);
                    assert(id_texts(published@) =~= before.push(device.id@));
                }
                assert(add_devices_of(self.devices@, module_id@, j as int, before) == add_devices_of(self.devices@, module_id@, j + 1, id_texts(published@)));
            }
        }
        published
    }

    /// Executes a device command: the device's switch command on its driver module.
    ///
    /// The events of a module step propagate for at most
    /// `MAX_PROPAGATED_EVENTS` events: with more still queued, the step stops
    /// with the error "Module events did not settle", keeping the states
    /// reached so far. Modules that
    /// trigger each other in a ring would otherwise propagate forever.
    pub fn handle_command(&self, command: &DeviceCommand, json_state: Result<String, String>, modules: &mut ModuleManager, now: u64, pins: &mut PinWrites) -> (res: Result<Vec<String>, AppError>)
        requires
            old(modules).deadlines_fit(now),
        ensures
            final(modules).deadlines_fit(now),
            match first_index_of(self.devices_spec().map_values(|d: SwitchController| d.id_spec()), command.device_id@) {
                None => res matches Err(e) && is_message(e, "Unknown device '"@ + command.device_id@ + "'"@) && final(modules).modules_spec() == old(modules).modules_spec() && *final(pins) == *old(pins),
                Some(i) => match switch_command_spec(command.payload@, json_state) {
                    Err(ev) => res matches Err(e) && error_view(e) == ev && final(modules).modules_spec() == old(modules).modules_spec() && *final(pins) == *old(pins),
                    Ok(cmd) => execute_result(old(modules).modules_spec(), self.devices_spec()[i].driver_spec(), cmd, now, res, final(modules).modules_spec(), *old(pins), *final(pins)),
                },
            },
    {
        let n = self.devices.len();
        for i in 0..n
            invariant
                n == self.devices@.len(),
                forall|k: int| 0 <= k < i ==> (#[trigger] self.devices@[k]).id_spec() != command.device_id@,
                *modules == *old(modules),
                *pins == *old(pins),
                old(modules).deadlines_fit(now),
        {
            if text_eq(self.devices[i].id.as_str(), command.device_id.as_str()) {
                proof {
                    let ids = self.devices@.map_values(|d: SwitchController| d.id_spec());
                    assert forall|k: int| 0 <= k < i implies ids[k] != command.device_id@ by {
                        assert(ids[k] == self.devices@[k].id_spec());
                    }
                    lemma_first_index_of_at(ids, command.device_id@, i as int);
                }
                return self.devices[i].handle_command(command.payload.as_slice(), json_state, modules, now, pins);
            }
        }
        proof {
            let ids = self.devices@.map_values(|d: SwitchController| d.id_spec());
            lemma_first_index_of(ids, command.device_id@);
            if let Some(f) = first_index_of(ids, command.device_id@) {
                assert(ids[f] == self.devices@[f].id_spec());
            }
        }
        Err(AppError::Message(join3("Unknown device '", command.device_id.as_str(), "'")))
    }
}

} // verus!

verus! {

/// Every module type of the built-in registry binds one device, provisions
/// a switch, and drives switches.
proof fn lemma_built_in_module_spec(reg: SchemaRegistry, id: Seq<char>)
    requires
        reg.is_built_in(),
        reg.module_spec(id) is Some,
    ensures
        reg.module_spec(id)->0.device_binding_mode == DeviceBindingMode::Single,
        reg.module_spec(id)->0.default_device_type_id matches Some(d) && d@ == "core:switch"@,
        texts(reg.module_spec(id)->0.compatible_device_types@).contains("core:switch"@),
{
    lemma_first_index_of(keys_of(reg.modules()), id);
    let i = first_index_of(keys_of(reg.modules()), id)->0;
    let s = reg.modules()[i];
    assert(texts(s.compatible_device_types@)[0] == "core:switch"@);
}

/// The built-in registry finds the switch device type.
proof fn lemma_built_in_switch(reg: SchemaRegistry)
    requires
        reg.is_built_in(),
    ensures
        reg.device_spec("core:switch"@) is Some,
        reg.device_spec("core:switch"@)->0.id@ == "core:switch"@,
{
    assert(keys_of(reg.devices())[0] == "core:switch"@);
    lemma_first_index_of_at(keys_of(reg.devices()), "core:switch"@, 0);
}

proof fn lemma_suffix_cancel(a: Seq<char>, b: Seq<char>, t: Seq<char>)
    requires
        a + t == b + t,
    ensures
        a == b,
{
    assert((a + t).len() == a.len() + t.len());
    assert((b + t).len() == b.len() + t.len());
    assert(a.len() == b.len());
    assert(a =~= (a + t).subrange(0, a.len() as int));
    assert(b =~= (b + t).subrange(0, b.len() as int));
}

/// What normalizing a device-less configuration has built after the modules
/// before position `k`: one switch `<id>__device` for each distinct module
/// id so far, each driven by its module.
pub open spec fn provisioned_so_far(ms: Seq<ModuleInstanceConfig>, k: int, d: Seq<DeviceInstanceView>) -> bool {
    &&& forall|a: int, b: int| 0 <= a < b < d.len() ==> (#[trigger] d[a]).driver_module_id != (#[trigger] d[b]).driver_module_id
    &&& forall|j: int| 0 <= j < d.len() ==> (#[trigger] d[j]).id == default_device_id(d[j].driver_module_id)
    &&& forall|j: int| 0 <= j < d.len() ==> (#[trigger] d[j]).device_type_id == "core:switch"@
    &&& forall|j: int| 0 <= j < k ==> driver_ids(d).contains(#[trigger] ms[j].id@)
    &&& forall|j: int| 0 <= j < d.len() ==> keys_of(ms).subrange(0, k).contains(#[trigger] d[j].driver_module_id)
}

proof fn lemma_normalize_built_in(reg: SchemaRegistry, ms: Seq<ModuleInstanceConfig>, k: int, d: Seq<DeviceInstanceView>, ch: bool)
    requires
        reg.is_built_in(),
        forall|j: int| 0 <= j < ms.len() ==> reg.module_spec((#[trigger] ms[j]).module_type_id@) is Some,
        0 <= k <= ms.len(),
        provisioned_so_far(ms, k, d),
    ensures
        normalize_from(reg, ms, k, d, ch) is Ok,
        provisioned_so_far(ms, ms.len() as int, normalize_from(reg, ms, k, d, ch)->Ok_0.0),
        normalize_from(reg, ms, k, d, ch)->Ok_0.0.len() >= d.len(),
        normalize_from(reg, ms, k, d, ch)->Ok_0.1 == (ch || normalize_from(reg, ms, k, d, ch)->Ok_0.0.len() > d.len()),
    decreases ms.len() - k,
{
    if k < ms.len() {
        let m = ms[k];
        lemma_built_in_module_spec(reg, m.module_type_id@);
        let ks = keys_of(ms);
        assert(ks[k] == m.id@);
        if driver_ids(d).contains(m.id@) {
            assert(normalize_step(reg, m, d) == Ok::<Option<DeviceInstanceView>, Seq<char>>(None));
            assert forall|j: int| 0 <= j < d.len() implies ks.subrange(0, k + 1).contains(#[trigger] d[j].driver_module_id) by {
                let q = choose|q: int| 0 <= q < ks.subrange(0, k).len() && ks.subrange(0, k)[q] == d[j].driver_module_id;
                assert(ks.subrange(0, k + 1)[q] == d[j].driver_module_id);
            }
            lemma_normalize_built_in(reg, ms, k + 1, d, ch);
        } else {
            assert(!device_ids(d).contains(default_device_id(m.id@))) by {
                if device_ids(d).contains(default_device_id(m.id@)) {
                    let q = choose|q: int| 0 <= q < device_ids(d).len() && device_ids(d)[q] == default_device_id(m.id@);
                    lemma_suffix_cancel(d[q].driver_module_id, m.id@, "__device"@);
                    assert(driver_ids(d)[q] == m.id@);
                }
            }
            let s = reg.module_spec(m.module_type_id@)->0;
            let x = DeviceInstanceView {
                id: default_device_id(m.id@),
                device_type_id: s.default_device_type_id->0@,
                display_name: Some(match opt_text(m.display_name) { Some(nm) => nm, None => m.id@ }),
                driver_module_id: m.id@,
            };
            assert(normalize_step(reg, m, d) == Ok::<Option<DeviceInstanceView>, Seq<char>>(Some(x)));
            let d2 = d.push(x);
            assert forall|a: int, b: int| 0 <= a < b < d2.len() implies (#[trigger] d2[a]).driver_module_id != (#[trigger] d2[b]).driver_module_id by {
                if b == d.len() {
                    assert(driver_ids(d)[a] == d[a].driver_module_id);
                }
            }
            assert forall|j: int| 0 <= j < k + 1 implies driver_ids(d2).contains(#[trigger] ms[j].id@) by {
                if j < k {
                    let q = choose|q: int| 0 <= q < driver_ids(d).len() && driver_ids(d)[q] == ms[j].id@;
                    assert(driver_ids(d2)[q] == ms[j].id@);
                } else {
                    assert(driver_ids(d2)[d.len() as int] == ms[j].id@);
                }
            }
            assert forall|j: int| 0 <= j < d2.len() implies ks.subrange(0, k + 1).contains(#[trigger] d2[j].driver_module_id) by {
                if j < d.len() {
                    let q = choose|q: int| 0 <= q < ks.subrange(0, k).len() && ks.subrange(0, k)[q] == d[j].driver_module_id;
                    assert(ks.subrange(0, k + 1)[q] == d2[j].driver_module_id);
                } else {
                    assert(ks.subrange(0, k + 1)[k] == d2[j].driver_module_id);
                }
            }
            lemma_normalize_built_in(reg, ms, k + 1, d2, true);
        }
    }
}

proof fn lemma_driver_count_distinct(ds: Seq<DeviceInstanceConfig>, id: Seq<char>)
    requires
        forall|a: int, b: int| 0 <= a < b < ds.len() ==> (#[trigger] ds[a]).driver_module_id@ != (#[trigger] ds[b]).driver_module_id@,
    ensures
        driver_count(ds, id) == (if exists|i: int| 0 <= i < ds.len() && (#[trigger] ds[i]).driver_module_id@ == id { 1nat } else { 0nat }),
    decreases ds.len(),
{
    if ds.len() > 0 {
        let d = ds.drop_last();
        assert forall|a: int, b: int| 0 <= a < b < d.len() implies (#[trigger] d[a]).driver_module_id@ != (#[trigger] d[b]).driver_module_id@ by {
            assert(d[a] == ds[a] && d[b] == ds[b]);
        }
        lemma_driver_count_distinct(d, id);
        if ds.last().driver_module_id@ == id {
            assert(!exists|i: int| 0 <= i < d.len() && (#[trigger] d[i]).driver_module_id@ == id) by {
                if exists|i: int| 0 <= i < d.len() && (#[trigger] d[i]).driver_module_id@ == id {
                    let i = choose|i: int| 0 <= i < d.len() && (#[trigger] d[i]).driver_module_id@ == id;
                    assert(ds[i] == d[i]);
                }
            }
            assert(ds[ds.len() - 1].driver_module_id@ == id);
        } else {
            if exists|i: int| 0 <= i < ds.len() && (#[trigger] ds[i]).driver_module_id@ == id {
                let i = choose|i: int| 0 <= i < ds.len() && (#[trigger] ds[i]).driver_module_id@ == id;
                assert(i < d.len());
                assert(d[i] == ds[i]);
            }
            if exists|i: int| 0 <= i < d.len() && (#[trigger] d[i]).driver_module_id@ == id {
                let i = choose|i: int| 0 <= i < d.len() && (#[trigger] d[i]).driver_module_id@ == id;
                assert(d[i] == ds[i]);
            }
        }
    }
}

proof fn lemma_module_counts_built_in(reg: SchemaRegistry, n: ResourceConfig, j: int)
    requires
        reg.is_built_in(),
        forall|i: int| 0 <= i < n.module_instances@.len() ==> reg.module_spec((#[trigger] n.module_instances@[i]).module_type_id@) is Some,
        provisioned_so_far(n.module_instances@, n.module_instances@.len() as int, n@.device_instances),
        0 <= j <= n.module_instances@.len(),
    ensures
        module_count_checks_from(reg, n, j) == Ok::<(), Seq<char>>(()),
    decreases n.module_instances@.len() - j,
{
    let ms = n.module_instances@;
    let ds = n.device_instances@;
    let v = n@.device_instances;
    if j < ms.len() {
        lemma_built_in_module_spec(reg, ms[j].module_type_id@);
        assert forall|a: int, b: int| 0 <= a < b < ds.len() implies (#[trigger] ds[a]).driver_module_id@ != (#[trigger] ds[b]).driver_module_id@ by {
            assert(v[a] == ds[a]@ && v[b] == ds[b]@);
        }
        lemma_driver_count_distinct(ds, ms[j].id@);
        let q = choose|q: int| 0 <= q < driver_ids(v).len() && driver_ids(v)[q] == ms[j].id@;
        assert(v[q] == ds[q]@);
        assert(ds[q].driver_module_id@ == ms[j].id@);
        lemma_module_counts_built_in(reg, n, j + 1);
    }
}

proof fn lemma_device_checks_built_in(reg: SchemaRegistry, n: ResourceConfig, k: int)
    requires
        reg.is_built_in(),
        forall|i: int| 0 <= i < n.module_instances@.len() ==> reg.module_spec((#[trigger] n.module_instances@[i]).module_type_id@) is Some,
        provisioned_so_far(n.module_instances@, n.module_instances@.len() as int, n@.device_instances),
        0 <= k <= n.device_instances@.len(),
    ensures
        device_checks_from(reg, n, k) == Ok::<(), Seq<char>>(()),
    decreases n.device_instances@.len() - k,
{
    let ms = n.module_instances@;
    let ds = n.device_instances@;
    let v = n@.device_instances;
    if k < ds.len() {
        let dk = ds[k];
        assert(v[k] == dk@);
        reveal_strlit("__device");
        let id = default_device_id(v[k].driver_module_id);
        assert(id.last() == 'e');
        assert(!is_white_space('e'));
        lemma_not_blank_when_last_not_space(id);
        assert(!ds.subrange(0, k).map_values(|d: DeviceInstanceConfig| d.id@).contains(dk.id@)) by {
            let sub = ds.subrange(0, k).map_values(|d: DeviceInstanceConfig| d.id@);
            if sub.contains(dk.id@) {
                let q = choose|q: int| 0 <= q < sub.len() && sub[q] == dk.id@;
                assert(v[q] == ds[q]@);
                lemma_suffix_cancel(v[q].driver_module_id, v[k].driver_module_id, "__device"@);
            }
        }
        lemma_built_in_switch(reg);
        let kq = choose|q: int| 0 <= q < keys_of(ms).subrange(0, ms.len() as int).len() && keys_of(ms).subrange(0, ms.len() as int)[q] == v[k].driver_module_id;
        assert(keys_of(ms)[kq] == dk.driver_module_id@);
        lemma_first_index_of(keys_of(ms), dk.driver_module_id@);
        let i = first_index_of(keys_of(ms), dk.driver_module_id@)->0;
        lemma_built_in_module_spec(reg, ms[i].module_type_id@);
        assert(device_instance_check(reg, n, dk) == Ok::<(), Seq<char>>(()));
        lemma_device_checks_built_in(reg, n, k + 1);
    } else {
        lemma_module_counts_built_in(reg, n, 0);
    }
}

/// Normalizing a configuration without devices on the built-in registry,
/// whose modules all have a known schema, succeeds, and reports a change
/// exactly when there is a module.
pub proof fn law_normalize_built_in_config_succeeds(reg: SchemaRegistry, config: ResourceConfig)
    requires
        reg.is_built_in(),
        config.device_instances@.len() == 0,
        forall|i: int| 0 <= i < config.module_instances@.len() ==> reg.module_spec((#[trigger] config.module_instances@[i]).module_type_id@) is Some,
    ensures
        normalize_from(reg, config.module_instances@, 0, config@.device_instances, false) is Ok,
        normalize_from(reg, config.module_instances@, 0, config@.device_instances, false)->Ok_0.1 == (config.module_instances@.len() > 0),
{
    let ms = config.module_instances@;
    let e = config@.device_instances;
    assert(e =~= Seq::<DeviceInstanceView>::empty());
    assert(provisioned_so_far(ms, 0, e));
    lemma_normalize_built_in(reg, ms, 0, e, false);
    let f = normalize_from(reg, ms, 0, e, false)->Ok_0.0;
    if ms.len() > 0 {
        let q = choose|q: int| 0 <= q < driver_ids(f).len() && driver_ids(f)[q] == ms[0].id@;
        assert(f.len() > 0);
    }
}

/// The configuration that normalizing gives for a configuration without
/// devices on the built-in registry, whose modules all have a known schema,
/// validates.
pub proof fn law_normalized_built_in_config_validates(reg: SchemaRegistry, config: ResourceConfig, n: ResourceConfig)
    requires
        reg.is_built_in(),
        config.device_instances@.len() == 0,
        forall|i: int| 0 <= i < config.module_instances@.len() ==> reg.module_spec((#[trigger] config.module_instances@[i]).module_type_id@) is Some,
        n@ == (ResourceConfigView {
            version: config.version,
            module_instances: config@.module_instances,
            device_instances: normalize_from(reg, config.module_instances@, 0, config@.device_instances, false)->Ok_0.0,
        }),
    ensures
        device_checks_from(reg, n, 0) == Ok::<(), Seq<char>>(()),
{
    law_normalize_built_in_config_succeeds(reg, config);
    let ms = config.module_instances@;
    let e = config@.device_instances;
    assert(e =~= Seq::<DeviceInstanceView>::empty());
    assert(provisioned_so_far(ms, 0, e));
    lemma_normalize_built_in(reg, ms, 0, e, false);
    let f = normalize_from(reg, ms, 0, e, false)->Ok_0.0;
    // n has the same module views as config
    let nm = n.module_instances@;
    assert(nm.len() == ms.len()) by {
        assert(n@.module_instances.len() == nm.len());
    }
    assert forall|i: int| 0 <= i < nm.len() implies (#[trigger] nm[i])@ == ms[i]@ by {
        assert(n@.module_instances[i] == nm[i]@);
        assert(config@.module_instances[i] == ms[i]@);
    }
    assert forall|i: int| 0 <= i < nm.len() implies reg.module_spec((#[trigger] nm[i]).module_type_id@) is Some by {
        assert(nm[i]@ == ms[i]@);
    }
    assert(keys_of(nm) =~= keys_of(ms)) by {
        assert forall|i: int| 0 <= i < nm.len() implies keys_of(nm)[i] == keys_of(ms)[i] by {
            assert(nm[i]@ == ms[i]@);
        }
    }
    assert(provisioned_so_far(nm, nm.len() as int, n@.device_instances)) by {
        assert forall|j: int| 0 <= j < nm.len() implies driver_ids(n@.device_instances).contains(#[trigger] nm[j].id@) by {
            assert(nm[j]@ == ms[j]@);
            assert(driver_ids(f).contains(ms[j].id@));
        }
    }
    lemma_device_checks_built_in(reg, n, 0);
}

} // verus!
