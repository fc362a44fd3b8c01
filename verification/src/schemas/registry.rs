//! The registry of binding role, module type and device type schemas.

use vstd::prelude::*;

use crate::config::ResourceUsage;
use crate::error::{is_message, unit_outcome, AppError};
use crate::keyed::{find_key, first_index_of, keys_of, keys_sorted, lemma_first_index_of, lemma_first_index_of_at, sort_by_key, with_key};
use crate::text::{join3, join5, owned};

use super::builtins;
use super::types::{binding_mode_name, texts, BindingRoleSchema, DeviceBindingMode, DeviceTypeSchema, DeviceCommandSchemaSnapshot, DeviceStateFieldSchemaSnapshot, DeviceTypeSchemaSnapshot, ModuleBindingSchemaSnapshot, copy_strings, ModuleSettingSchema, ModuleSettingSchemaSnapshot, ModuleTypeSchema, ModuleTypeSchemaSnapshot};

verus! {

pub struct SchemaRegistry {
    binding_roles: Vec<BindingRoleSchema>,
    module_types: Vec<ModuleTypeSchema>,
    device_types: Vec<DeviceTypeSchema>,
}

/// Whether `t` occurs in `v`.
pub fn contains_text(v: &Vec<String>, t: &str) -> (res: bool)
    ensures
        res == texts(v@).contains(t@),
{
    let n = v.len();
    for i in 0..n
        invariant
            n == v@.len(),
            forall|k: int| 0 <= k < i ==> texts(v@)[k] != t@,
    {
        if crate::text::text_eq(v[i].as_str(), t) {
            assert(texts(v@)[i as int] == t@);
            return true;
        }
    }
    false
}

/// The message for an unknown schema named `id`, after the `prefix` that
/// names the kind of schema.
pub open spec fn unknown_schema_message(prefix: Seq<char>, id: Seq<char>) -> Seq<char> {
    prefix + id + "'"@
}

/// The description of a module schema binding, as it is published.
pub open spec fn binding_snapshot_of(
    reg: SchemaRegistry,
    role_id: String,
    required: bool,
) -> ModuleBindingSchemaSnapshot {
    ModuleBindingSchemaSnapshot {
        role_id: role_id,
        usage: reg.usage_or_output(role_id@),
        required: required,
        multiple: false,
    }
}

/// The binding descriptions of a module schema before sorting: its required
/// bindings, then its optional ones.
pub open spec fn binding_snapshots_of(
    reg: SchemaRegistry,
    m: ModuleTypeSchema,
) -> Seq<ModuleBindingSchemaSnapshot> {
    m.required_bindings@.map_values(|r: String| binding_snapshot_of(reg, r, true))
        + m.optional_bindings@.map_values(|r: String| binding_snapshot_of(reg, r, false))
}

/// The description of a module setting schema.
pub open spec fn setting_snapshot_of(s: ModuleSettingSchema) -> ModuleSettingSchemaSnapshot {
    ModuleSettingSchemaSnapshot {
        key: s.key,
        value_type: s.value_type,
        required: s.required,
        ui_level: s.ui_level,
    }
}

/// Whether `s` is the published description of module schema `m`: bindings
/// sorted by role id and settings sorted by key, entries with equal keys in
/// their order in the schema (required bindings before optional ones).
pub open spec fn is_module_type_snapshot(
    reg: SchemaRegistry,
    m: ModuleTypeSchema,
    s: ModuleTypeSchemaSnapshot,
) -> bool {
    &&& s.id == m.id
    &&& s.display_name == m.display_name
    &&& s.device_binding_mode@ == binding_mode_name(m.device_binding_mode)
    &&& s.default_device_type_id == m.default_device_type_id
    &&& keys_sorted(keys_of(s.bindings@))
    &&& s.bindings@.to_multiset() =~= binding_snapshots_of(reg, m).to_multiset()
    &&& keys_sorted(keys_of(s.settings@))
    &&& s.settings@.to_multiset() =~= m.settings@.map_values(
        |x: ModuleSettingSchema| setting_snapshot_of(x),
    ).to_multiset()
    &&& forall|k: Seq<char>| #[trigger] with_key(s.bindings@, k) == with_key(binding_snapshots_of(reg, m), k)
    &&& forall|k: Seq<char>| #[trigger] with_key(s.settings@, k) == with_key(
        m.settings@.map_values(|x: ModuleSettingSchema| setting_snapshot_of(x)),
        k,
    )
}

/// Whether `s` is the published description of device schema `d`.
pub open spec fn is_device_type_snapshot(d: DeviceTypeSchema, s: DeviceTypeSchemaSnapshot) -> bool {
    &&& s.id == d.id
    &&& s.display_name == d.display_name
    &&& s.commands@.len() == d.commands@.len()
    &&& forall|i: int|
        0 <= i < s.commands@.len() ==> {
            &&& (#[trigger] s.commands@[i]).name == d.commands@[i].name
            &&& s.commands@[i].automation_callable == d.commands@[i].automation_callable
        }
    &&& s.state_fields@.len() == d.state_fields@.len()
    &&& forall|i: int|
        0 <= i < s.state_fields@.len() ==> {
            &&& (#[trigger] s.state_fields@[i]).name == d.state_fields@[i].name
            &&& s.state_fields@[i].value_type == d.state_fields@[i].value_type
            &&& s.state_fields@[i].automation_readable == d.state_fields@[i].automation_readable
            &&& s.state_fields@[i].operators@ == d.state_fields@[i].operators@
        }
    &&& s.capabilities@ == d.capabilities@
}

/// Whether `r` is what a lookup finds: `Some` of the first record with the id.
pub open spec fn found<T>(r: Option<&T>, expected: Option<T>) -> bool {
    match r {
        Some(x) => expected == Some(*x),
        None => expected is None,
    }
}

/// Whether `r` is what a required lookup gives: the record, or the unknown
/// schema error.
pub open spec fn found_required<T>(
    r: Result<&T, AppError>,
    expected: Option<T>,
    prefix: Seq<char>,
    id: Seq<char>,
) -> bool {
    match r {
        Ok(x) => expected == Some(*x),
        Err(e) => expected is None && is_message(e, unknown_schema_message(prefix, id)),
    }
}

impl SchemaRegistry {
    /// The binding role schemas, in registry order.
    pub closed spec fn roles(self) -> Seq<BindingRoleSchema> {
        self.binding_roles@
    }

    /// The module type schemas, in registry order.
    pub closed spec fn modules(self) -> Seq<ModuleTypeSchema> {
        self.module_types@
    }

    /// The device type schemas, in registry order.
    pub closed spec fn devices(self) -> Seq<DeviceTypeSchema> {
        self.device_types@
    }

    /// The binding role schema with id `id`.
    pub open spec fn role_spec(self, id: Seq<char>) -> Option<BindingRoleSchema> {
        match first_index_of(keys_of(self.roles()), id) {
            Some(i) => Some(self.roles()[i]),
            None => None,
        }
    }

    /// The module type schema with id `id`.
    pub open spec fn module_spec(self, id: Seq<char>) -> Option<ModuleTypeSchema> {
        match first_index_of(keys_of(self.modules()), id) {
            Some(i) => Some(self.modules()[i]),
            None => None,
        }
    }

    /// The device type schema with id `id`.
    pub open spec fn device_spec(self, id: Seq<char>) -> Option<DeviceTypeSchema> {
        match first_index_of(keys_of(self.devices()), id) {
            Some(i) => Some(self.devices()[i]),
            None => None,
        }
    }

    /// The usage of binding role `id`, or output for an unknown role.
    pub open spec fn usage_or_output(self, id: Seq<char>) -> ResourceUsage {
        match self.role_spec(id) {
            Some(r) => r.resource_usage,
            None => ResourceUsage::Output,
        }
    }

    pub open spec fn role_known(self, id: Seq<char>) -> bool {
        keys_of(self.roles()).contains(id)
    }

    pub open spec fn device_known(self, id: Seq<char>) -> bool {
        keys_of(self.devices()).contains(id)
    }

    /// The first of `bs[i..]` that names no binding role.
    pub open spec fn first_unknown_role(self, bs: Seq<Seq<char>>, i: int) -> Option<Seq<char>>
        decreases bs.len() - i,
    {
        if i < 0 || i >= bs.len() {
            None
        } else if !self.role_known(bs[i]) {
            Some(bs[i])
        } else {
            self.first_unknown_role(bs, i + 1)
        }
    }

    /// The first of `ds[i..]` that names no device type.
    pub open spec fn first_unknown_device(self, ds: Seq<Seq<char>>, i: int) -> Option<Seq<char>>
        decreases ds.len() - i,
    {
        if i < 0 || i >= ds.len() {
            None
        } else if !self.device_known(ds[i]) {
            Some(ds[i])
        } else {
            self.first_unknown_device(ds, i + 1)
        }
    }

    /// The first inconsistency of module schema `m` with the registry, as the
    /// message that reports it.
    pub open spec fn module_schema_error(self, m: ModuleTypeSchema) -> Option<Seq<char>> {
        let id = m.id@;
        let req = texts(m.required_bindings@);
        let opt = texts(m.optional_bindings@);
        let compat = texts(m.compatible_device_types@);
        let out = m.output_binding@;
        let unknown = match self.first_unknown_role(req, 0) {
            Some(b) => Some(b),
            None => self.first_unknown_role(opt, 0),
        };
        if let Some(b) = unknown {
            Some("Module schema '"@ + id + "' references unknown binding role '"@ + b + "'"@)
        } else if !(req.contains(out) || opt.contains(out)) {
            Some("Module schema '"@ + id + "' declares output binding '"@ + out + "' outside its allowed bindings"@)
        } else if !self.role_known(out) {
            Some("Module schema '"@ + id + "' references unknown output binding '"@ + out + "'"@)
        } else if m.trigger_input_binding matches Some(t) && !(req.contains(t@) || opt.contains(t@)) {
            Some("Module schema '"@ + id + "' declares trigger binding '"@ + m.trigger_input_binding->0@ + "' outside its allowed bindings"@)
        } else if m.trigger_input_binding matches Some(t) && !self.role_known(t@) {
            Some("Module schema '"@ + id + "' references unknown trigger binding '"@ + m.trigger_input_binding->0@ + "'"@)
        } else if let Some(d) = self.first_unknown_device(compat, 0) {
            Some("Module schema '"@ + id + "' references unknown device schema '"@ + d + "'"@)
        } else if m.default_device_type_id matches Some(d) && !self.device_known(d@) {
            Some("Module schema '"@ + id + "' references unknown default device schema '"@ + m.default_device_type_id->0@ + "'"@)
        } else if m.default_device_type_id matches Some(d) && !compat.contains(d@) {
            Some("Module schema '"@ + id + "' default device schema '"@ + m.default_device_type_id->0@ + "' is not listed as compatible"@)
        } else if m.device_binding_mode == DeviceBindingMode::Multi && m.default_device_type_id is Some {
            Some("Module schema '"@ + id + "' cannot declare a default device schema for multi-device binding"@)
        } else {
            None
        }
    }

    /// The first inconsistency among the module schemas from position `i` on.
    pub open spec fn registry_error_from(self, i: int) -> Option<Seq<char>>
        decreases self.modules().len() - i,
    {
        if i < 0 || i >= self.modules().len() {
            None
        } else if let Some(e) = self.module_schema_error(self.modules()[i]) {
            Some(e)
        } else {
            self.registry_error_from(i + 1)
        }
    }

    /// The outcome of checking the registry's internal consistency.
    pub open spec fn internal_check(self) -> Result<(), Seq<char>> {
        match self.registry_error_from(0) {
            Some(e) => Err(e),
            None => Ok(()),
        }
    }

    /// The registry of the built-in schemas.
    pub fn built_in() -> (res: Result<SchemaRegistry, AppError>)
        ensures
            res matches Ok(r) && r.is_built_in() && r.wf(),
    {
        let registry = SchemaRegistry {
            binding_roles: vec![
                builtins::role_relay_output(),
                builtins::role_wall_trigger_input(),
                builtins::role_output(),
            ],
            module_types: vec![builtins::module_gpio_switch(), builtins::module_gpio_output()],
            device_types: vec![builtins::device_switch()],
        };
        proof {
            registry.lemma_built_in_consistent();
            registry.lemma_built_in_wf();
        }
        match registry.validate_internal() {
            Ok(()) => Ok(registry),
            Err(e) => Err(e),
        }
    }

    /// Whether the registry holds exactly the built-in schemas: the roles
    /// relay output, wall trigger input and output; the module types GPIO
    /// switch and GPIO output; the device type switch.
    pub open spec fn is_built_in(self) -> bool {
        &&& self.roles().len() == 3
        &&& builtins::is_role(self.roles()[0], "core:relay_output"@, ResourceUsage::Output)
        &&& builtins::is_role(self.roles()[1], "core:wall_trigger_input"@, ResourceUsage::Input)
        &&& builtins::is_role(self.roles()[2], "core:output"@, ResourceUsage::Output)
        &&& self.modules().len() == 2
        &&& builtins::is_module_gpio_switch(self.modules()[0])
        &&& builtins::is_module_gpio_output(self.modules()[1])
        &&& self.devices().len() == 1
        &&& builtins::is_device_switch(self.devices()[0])
    }

    /// No two schemas of one kind share an id, so that each id names at
    /// most one role, module type or device type.
    pub open spec fn wf(self) -> bool {
        &&& keys_of(self.roles()).no_duplicates()
        &&& keys_of(self.modules()).no_duplicates()
        &&& keys_of(self.devices()).no_duplicates()
    }

    proof fn lemma_built_in_wf(self)
        requires
            self.is_built_in(),
        ensures
            self.wf(),
    {
        let ks = keys_of(self.roles());
        reveal_strlit("core:relay_output");
        reveal_strlit("core:wall_trigger_input");
        reveal_strlit("core:output");
        reveal_strlit("core:gpio_switch");
        reveal_strlit("core:gpio_output");
        assert(ks[0].len() != ks[1].len());
        assert(ks[0].len() != ks[2].len());
        assert(ks[1].len() != ks[2].len());
        let ms = keys_of(self.modules());
        assert(ms[0][10] != ms[1][10]);
        let ds = keys_of(self.devices());
        assert(ds.len() == 1);
    }

    proof fn lemma_built_in_consistent(self)
        requires
            self.is_built_in(),
        ensures
            self.internal_check() is Ok,
    {
        let ks = keys_of(self.roles());
        assert(ks[0] == "core:relay_output"@);
        assert(ks[1] == "core:wall_trigger_input"@);
        assert(ks[2] == "core:output"@);
        assert(self.role_known("core:relay_output"@));
        assert(self.role_known("core:wall_trigger_input"@));
        assert(self.role_known("core:output"@));
        let ds = keys_of(self.devices());
        assert(ds[0] == "core:switch"@);
        assert(self.device_known("core:switch"@));
        let m0 = self.modules()[0];
        let m1 = self.modules()[1];
        assert(texts(m0.required_bindings@)[0] == "core:relay_output"@);
        assert(texts(m0.optional_bindings@)[0] == "core:wall_trigger_input"@);
        assert(texts(m0.compatible_device_types@)[0] == "core:switch"@);
        assert(texts(m1.required_bindings@)[0] == "core:output"@);
        assert(texts(m1.compatible_device_types@)[0] == "core:switch"@);
        assert(self.first_unknown_role(texts(m0.required_bindings@), 1) is None);
        assert(self.first_unknown_role(texts(m0.required_bindings@), 0) is None);
        assert(self.first_unknown_role(texts(m0.optional_bindings@), 1) is None);
        assert(self.first_unknown_role(texts(m0.optional_bindings@), 0) is None);
        assert(self.first_unknown_device(texts(m0.compatible_device_types@), 1) is None);
        assert(self.first_unknown_device(texts(m0.compatible_device_types@), 0) is None);
        assert(self.first_unknown_role(texts(m1.required_bindings@), 1) is None);
        assert(self.first_unknown_role(texts(m1.required_bindings@), 0) is None);
        assert(self.first_unknown_role(texts(m1.optional_bindings@), 0) is None);
        assert(self.first_unknown_device(texts(m1.compatible_device_types@), 1) is None);
        assert(self.first_unknown_device(texts(m1.compatible_device_types@), 0) is None);
        assert(self.module_schema_error(m0) is None);
        assert(self.module_schema_error(m1) is None);
        assert(self.registry_error_from(2) is None);
        assert(self.registry_error_from(1) is None);
        assert(self.registry_error_from(0) is None);
    }

    pub fn protocol_version(&self) -> (res: &'static str)
        ensures
            res@ == builtins::PROTOCOL_VERSION@,
    {
        builtins::PROTOCOL_VERSION
    }

    pub fn schema_registry_version(&self) -> (res: &'static str)
        ensures
            res@ == builtins::SCHEMA_REGISTRY_VERSION@,
    {
        builtins::SCHEMA_REGISTRY_VERSION
    }

    /// The names of the loaded schema packages, sorted.
    pub fn loaded_schema_packages(&self) -> (res: Vec<String>)
        ensures
            texts(res@) == builtins::loaded_schema_package_names(),
    {
        let values = builtins::loaded_schema_packages();
        let ghost before = values@;
        let res = sort_by_key(values);
        proof {
            broadcast use vstd::seq_lib::group_to_multiset_ensures;

            res@.to_multiset_ensures();
            before.to_multiset_ensures();
            assert(texts(before).len() == 1);
            assert(before.contains(before[0]));
            assert(res@.to_multiset().count(before[0]) > 0);
            assert(res@.contains(before[0]));
            assert(texts(res@) =~= texts(before));
        }
        res
    }

    /// The ids of the module types, sorted.
    pub fn supported_module_types(&self) -> (res: Vec<String>)
        ensures
            keys_sorted(keys_of(res@)),
            res@.to_multiset() =~= self.modules().map_values(|m: ModuleTypeSchema| m.id).to_multiset(),
    {
        let mut values: Vec<String> = Vec::new();
        let n = self.module_types.len();
        for i in 0..n
            invariant
                n == self.module_types@.len(),
                values@ == self.module_types@.subrange(0, i as int).map_values(|m: ModuleTypeSchema| m.id),
        {
            values.push(self.module_types[i].id.clone());
            assert(values@ =~= self.module_types@.subrange(0, i + 1).map_values(|m: ModuleTypeSchema| m.id));
        }
        assert(self.module_types@.subrange(0, n as int) =~= self.module_types@);
        sort_by_key(values)
    }

    /// The binding role schema with id `id`.
    pub fn lookup_binding_role(&self, id: &str) -> (res: Option<&BindingRoleSchema>)
        ensures
            found(res, self.role_spec(id@)),
    {
        match find_key(&self.binding_roles, id) {
            Some(i) => Some(&self.binding_roles[i]),
            None => None,
        }
    }

    /// The module type schema with id `id`.
    pub fn lookup_module_type(&self, id: &str) -> (res: Option<&ModuleTypeSchema>)
        ensures
            found(res, self.module_spec(id@)),
    {
        match find_key(&self.module_types, id) {
            Some(i) => Some(&self.module_types[i]),
            None => None,
        }
    }

    /// The device type schema with id `id`.
    pub fn lookup_device_type(&self, id: &str) -> (res: Option<&DeviceTypeSchema>)
        ensures
            found(res, self.device_spec(id@)),
    {
        match find_key(&self.device_types, id) {
            Some(i) => Some(&self.device_types[i]),
            None => None,
        }
    }

    /// The binding role schema with id `id`, or the error naming it unknown.
    pub fn lookup_binding_role_required(&self, id: &str) -> (res: Result<&BindingRoleSchema, AppError>)
        ensures
            found_required(res, self.role_spec(id@), "Unknown binding role schema '"@, id@),
    {
        match self.lookup_binding_role(id) {
            Some(r) => Ok(r),
            None => Err(AppError::Message(join3("Unknown binding role schema '", id, "'"))),
        }
    }

    /// The module type schema with id `id`, or the error naming it unknown.
    pub fn lookup_module_type_required(&self, id: &str) -> (res: Result<&ModuleTypeSchema, AppError>)
        ensures
            found_required(res, self.module_spec(id@), "Unknown module schema '"@, id@),
    {
        match self.lookup_module_type(id) {
            Some(r) => Ok(r),
            None => Err(AppError::Message(join3("Unknown module schema '", id, "'"))),
        }
    }

    /// The device type schema with id `id`, or the error naming it unknown.
    pub fn lookup_device_type_required(&self, id: &str) -> (res: Result<&DeviceTypeSchema, AppError>)
        ensures
            found_required(res, self.device_spec(id@), "Unknown device schema '"@, id@),
    {
        match self.lookup_device_type(id) {
            Some(r) => Ok(r),
            None => Err(AppError::Message(join3("Unknown device schema '", id, "'"))),
        }
    }

    fn role_is_known(&self, id: &str) -> (res: bool)
        ensures
            res == self.role_known(id@),
    {
        let r = find_key(&self.binding_roles, id);
        proof {
            lemma_first_index_of(keys_of(self.roles()), id@);
        }
        r.is_some()
    }

    fn device_is_known(&self, id: &str) -> (res: bool)
        ensures
            res == self.device_known(id@),
    {
        let r = find_key(&self.device_types, id);
        proof {
            lemma_first_index_of(keys_of(self.devices()), id@);
        }
        r.is_some()
    }

    /// The usage of binding role `id`, or output when no such role is known.
    pub fn role_usage_or_output(&self, id: &str) -> (res: ResourceUsage)
        ensures
            res == self.usage_or_output(id@),
    {
        match self.lookup_binding_role(id) {
            Some(r) => r.resource_usage,
            None => ResourceUsage::Output,
        }
    }

    fn find_unknown_role(&self, v: &Vec<String>) -> (res: Option<usize>)
        ensures
            match res {
                Some(i) => i < v@.len() && self.first_unknown_role(texts(v@), 0) == Some(v@[i as int]@),
                None => self.first_unknown_role(texts(v@), 0) is None,
            },
    {
        let n = v.len();
        for i in 0..n
            invariant
                n == v@.len(),
                self.first_unknown_role(texts(v@), 0) == self.first_unknown_role(texts(v@), i as int),
        {
            if !self.role_is_known(v[i].as_str()) {
                return Some(i);
            }
        }
        None
    }

    fn find_unknown_device(&self, v: &Vec<String>) -> (res: Option<usize>)
        ensures
            match res {
                Some(i) => i < v@.len() && self.first_unknown_device(texts(v@), 0) == Some(v@[i as int]@),
                None => self.first_unknown_device(texts(v@), 0) is None,
            },
    {
        let n = v.len();
        for i in 0..n
            invariant
                n == v@.len(),
                self.first_unknown_device(texts(v@), 0) == self.first_unknown_device(texts(v@), i as int),
        {
            if !self.device_is_known(v[i].as_str()) {
                return Some(i);
            }
        }
        None
    }

    fn check_module_schema(&self, schema: &ModuleTypeSchema) -> (res: Result<(), AppError>)
        ensures
            unit_outcome(
                res,
                match self.module_schema_error(*schema) {
                    Some(e) => Err(e),
                    None => Ok(()),
                },
            ),
    {
        let id = schema.id.as_str();
        match self.find_unknown_role(&schema.required_bindings) {
            Some(i) => {
                return Err(AppError::Message(join5("Module schema '", id, "' references unknown binding role '", schema.required_bindings[i].as_str(), "'")));
            },
            None => {},
        }
        match self.find_unknown_role(&schema.optional_bindings) {
            Some(i) => {
                return Err(AppError::Message(join5("Module schema '", id, "' references unknown binding role '", schema.optional_bindings[i].as_str(), "'")));
            },
            None => {},
        }
        let out = schema.output_binding.as_str();
        if !(contains_text(&schema.required_bindings, out) || contains_text(&schema.optional_bindings, out)) {
            return Err(AppError::Message(join5("Module schema '", id, "' declares output binding '", out, "' outside its allowed bindings")));
        }
        if !self.role_is_known(out) {
            return Err(AppError::Message(join5("Module schema '", id, "' references unknown output binding '", out, "'")));
        }
        match &schema.trigger_input_binding {
            Some(t) => {
                if !(contains_text(&schema.required_bindings, t.as_str()) || contains_text(&schema.optional_bindings, t.as_str())) {
                    return Err(AppError::Message(join5("Module schema '", id, "' declares trigger binding '", t.as_str(), "' outside its allowed bindings")));
                }
                if !self.role_is_known(t.as_str()) {
                    return Err(AppError::Message(join5("Module schema '", id, "' references unknown trigger binding '", t.as_str(), "'")));
                }
            },
            None => {},
        }
        match self.find_unknown_device(&schema.compatible_device_types) {
            Some(i) => {
                return Err(AppError::Message(join5("Module schema '", id, "' references unknown device schema '", schema.compatible_device_types[i].as_str(), "'")));
            },
            None => {},
        }
        match &schema.default_device_type_id {
            Some(d) => {
                if !self.device_is_known(d.as_str()) {
                    return Err(AppError::Message(join5("Module schema '", id, "' references unknown default device schema '", d.as_str(), "'")));
                }
                if !contains_text(&schema.compatible_device_types, d.as_str()) {
                    return Err(AppError::Message(join5("Module schema '", id, "' default device schema '", d.as_str(), "' is not listed as compatible")));
                }
            },
            None => {},
        }
        if schema.device_binding_mode == DeviceBindingMode::Multi && schema.default_device_type_id.is_some() {
            return Err(AppError::Message(join3("Module schema '", id, "' cannot declare a default device schema for multi-device binding")));
        }
        Ok(())
    }

    /// Checks that every module schema refers only to known binding roles and
    /// device types, declares its output and trigger bindings among its
    /// allowed ones, and has a consistent default device type; the first
    /// inconsistency, in registry order, is the error.
    pub fn validate_internal(&self) -> (res: Result<(), AppError>)
        ensures
            unit_outcome(res, self.internal_check()),
    {
        let n = self.module_types.len();
        for i in 0..n
            invariant
                n == self.module_types@.len(),
                self.registry_error_from(0) == self.registry_error_from(i as int),
        {
            match self.check_module_schema(&self.module_types[i]) {
                Ok(()) => {},
                Err(e) => {
                    return Err(e);
                },
            }
        }
        Ok(())
    }

    fn module_type_snapshot(&self, m: &ModuleTypeSchema) -> (res: ModuleTypeSchemaSnapshot)
        ensures
            is_module_type_snapshot(*self, *m, res),
    {
        let mut bindings: Vec<ModuleBindingSchemaSnapshot> = Vec::new();
        let n = m.required_bindings.len();
        for i in 0..n
            invariant
                n == m.required_bindings@.len(),
                bindings@ == m.required_bindings@.subrange(0, i as int).map_values(|r: String| binding_snapshot_of(*self, r, true)),
        {
            let role_id = m.required_bindings[i].clone();
            let usage = self.role_usage_or_output(role_id.as_str());
            bindings.push(ModuleBindingSchemaSnapshot { role_id, usage, required: true, multiple: false });
            assert(bindings@ =~= m.required_bindings@.subrange(0, i + 1).map_values(|r: String| binding_snapshot_of(*self, r, true)));
        }
        assert(m.required_bindings@.subrange(0, n as int) =~= m.required_bindings@);
        let ghost req = bindings@;
        let k = m.optional_bindings.len();
        for i in 0..k
            invariant
                k == m.optional_bindings@.len(),
                bindings@ == req + m.optional_bindings@.subrange(0, i as int).map_values(|r: String| binding_snapshot_of(*self, r, false)),
        {
            let role_id = m.optional_bindings[i].clone();
            let usage = self.role_usage_or_output(role_id.as_str());
            bindings.push(ModuleBindingSchemaSnapshot { role_id, usage, required: false, multiple: false });
            assert(bindings@ =~= req + m.optional_bindings@.subrange(0, i + 1).map_values(|r: String| binding_snapshot_of(*self, r, false)));
        }
        assert(m.optional_bindings@.subrange(0, k as int) =~= m.optional_bindings@);
        assert(bindings@ =~= binding_snapshots_of(*self, *m));
        let bindings = sort_by_key(bindings);
        let mut settings: Vec<ModuleSettingSchemaSnapshot> = Vec::new();
        let t = m.settings.len();
        for i in 0..t
            invariant
                t == m.settings@.len(),
                settings@ == m.settings@.subrange(0, i as int).map_values(|x: ModuleSettingSchema| setting_snapshot_of(x)),
        {
            let setting = &m.settings[i];
            settings.push(
                ModuleSettingSchemaSnapshot {
                    key: setting.key.clone(),
                    value_type: setting.value_type.clone(),
                    required: setting.required,
                    ui_level: setting.ui_level.clone(),
                },
            );
            assert(settings@ =~= m.settings@.subrange(0, i + 1).map_values(|x: ModuleSettingSchema| setting_snapshot_of(x)));
        }
        assert(m.settings@.subrange(0, t as int) =~= m.settings@);
        let settings = sort_by_key(settings);
        let default_device_type_id = match &m.default_device_type_id {
            Some(d) => Some(d.clone()),
            None => None,
        };
        ModuleTypeSchemaSnapshot {
            id: m.id.clone(),
            display_name: m.display_name.clone(),
            device_binding_mode: owned(m.device_binding_mode.as_str()),
            default_device_type_id,
            bindings,
            settings,
        }
    }

    /// Published descriptions of the module schemas, sorted by id; each one
    /// lists its bindings sorted by role id and its settings sorted by key.
    pub fn module_type_snapshots(&self) -> (res: Vec<ModuleTypeSchemaSnapshot>)
        ensures
            keys_sorted(keys_of(res@)),
            exists|u: Seq<ModuleTypeSchemaSnapshot>|
                #![trigger u.to_multiset()]
                {
                    &&& u.len() == self.modules().len()
                    &&& forall|j: int| 0 <= j < u.len() ==> is_module_type_snapshot(*self, self.modules()[j], #[trigger] u[j])
                    &&& res@.to_multiset() =~= u.to_multiset()
                },
    {
        let mut snapshots: Vec<ModuleTypeSchemaSnapshot> = Vec::new();
        let n = self.module_types.len();
        for i in 0..n
            invariant
                n == self.module_types@.len(),
                snapshots@.len() == i,
                forall|j: int| 0 <= j < i ==> is_module_type_snapshot(*self, self.modules()[j], #[trigger] snapshots@[j]),
        {
            snapshots.push(self.module_type_snapshot(&self.module_types[i]));
        }
        let ghost u = snapshots@;
        let res = sort_by_key(snapshots);
        assert(u.len() == self.modules().len());
        res
    }

    fn device_type_snapshot(&self, d: &DeviceTypeSchema) -> (res: DeviceTypeSchemaSnapshot)
        ensures
            is_device_type_snapshot(*d, res),
    {
        let mut commands: Vec<DeviceCommandSchemaSnapshot> = Vec::new();
        let n = d.commands.len();
        for i in 0..n
            invariant
                n == d.commands@.len(),
                commands@.len() == i,
                forall|k: int| 0 <= k < i ==> {
                    &&& (#[trigger] commands@[k]).name == d.commands@[k].name
                    &&& commands@[k].automation_callable == d.commands@[k].automation_callable
                },
        {
            commands.push(DeviceCommandSchemaSnapshot {
                name: d.commands[i].name.clone(),
                automation_callable: d.commands[i].automation_callable,
            });
        }
        let mut state_fields: Vec<DeviceStateFieldSchemaSnapshot> = Vec::new();
        let m = d.state_fields.len();
        for i in 0..m
            invariant
                m == d.state_fields@.len(),
                state_fields@.len() == i,
                forall|k: int| 0 <= k < i ==> {
                    &&& (#[trigger] state_fields@[k]).name == d.state_fields@[k].name
                    &&& state_fields@[k].value_type == d.state_fields@[k].value_type
                    &&& state_fields@[k].automation_readable == d.state_fields@[k].automation_readable
                    &&& state_fields@[k].operators@ == d.state_fields@[k].operators@
                },
        {
            let field = &d.state_fields[i];
            state_fields.push(DeviceStateFieldSchemaSnapshot {
                name: field.name.clone(),
                value_type: field.value_type.clone(),
                automation_readable: field.automation_readable,
                operators: copy_strings(&field.operators),
            });
        }
        DeviceTypeSchemaSnapshot {
            id: d.id.clone(),
            display_name: d.display_name.clone(),
            commands,
            state_fields,
            capabilities: copy_strings(&d.capabilities),
        }
    }

    /// Published descriptions of the device schemas, sorted by id.
    pub fn device_type_snapshots(&self) -> (res: Vec<DeviceTypeSchemaSnapshot>)
        ensures
            keys_sorted(keys_of(res@)),
            exists|u: Seq<DeviceTypeSchemaSnapshot>|
                #![trigger u.to_multiset()]
                {
                    &&& u.len() == self.devices().len()
                    &&& forall|j: int| 0 <= j < u.len() ==> is_device_type_snapshot(self.devices()[j], #[trigger] u[j])
                    &&& res@.to_multiset() =~= u.to_multiset()
                },
    {
        let mut snapshots: Vec<DeviceTypeSchemaSnapshot> = Vec::new();
        let n = self.device_types.len();
        for i in 0..n
            invariant
                n == self.device_types@.len(),
                snapshots@.len() == i,
                forall|j: int| 0 <= j < i ==> is_device_type_snapshot(self.devices()[j], #[trigger] snapshots@[j]),
        {
            snapshots.push(self.device_type_snapshot(&self.device_types[i]));
        }
        let ghost u = snapshots@;
        let res = sort_by_key(snapshots);
        assert(u.len() == self.devices().len());
        res
    }
}

} // verus!
