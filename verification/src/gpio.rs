//! GPIO resources: validation of the pin bindings of a resource
//! configuration against a board and the schemas, runtime claims of pins by
//! module instances, and the published resource snapshot.

use vstd::prelude::*;

use crate::board::{board_supports, is_board_snapshot, BoardProfile, BoardProfileSnapshot};
use crate::config::{binding_pin, opt_text, copy_opt_text, role_ids, ModuleInstanceConfig, ModuleSettings, PinBindingConfig, ResourceConfig, ResourceUsage};
use crate::error::{unit_outcome, AppError};
use crate::schemas::validate::{module_instance_check, validate_module_instance};
use crate::schemas::SchemaRegistry;
use crate::text::{decimal, decimal_text, is_blank, is_blank_text, join3, join5, join7, text_eq};

verus! {

#[derive(Debug, Clone, PartialEq, Eq)]
pub struct ResourceConfigSnapshot {
    pub version: u32,
    pub board: BoardProfileSnapshot,
    pub module_instances: Vec<ModuleInstanceSnapshot>,
}

#[derive(Debug, Clone, PartialEq, Eq)]
pub struct ModuleInstanceSnapshot {
    pub id: String,
    pub module_type_id: String,
    pub display_name: Option<String>,
    pub settings: ModuleSettings,
    pub bindings: Vec<PinBindingSnapshot>,
}

#[derive(Debug, Clone, PartialEq, Eq)]
pub struct PinBindingSnapshot {
    pub role_id: String,
    pub pin: u8,
    pub usage: ResourceUsage,
}

/// A pin bound to a schema role, as a claimed module holds it.
#[derive(Debug, Clone, PartialEq, Eq)]
pub struct RoleClaim {
    pub role_id: String,
    pub pin: u8,
}

/// The pins a module instance claimed, by schema role.
#[derive(Debug, Clone)]
pub struct ClaimedModulePins {
    module_id: String,
    pins_by_role_id: Vec<RoleClaim>,
}

/// A pin claimed at runtime by a module instance for one of its roles.
#[derive(Debug, Clone, PartialEq, Eq)]
pub struct RuntimeClaim {
    pub pin: u8,
    pub module_id: String,
    pub role_id: String,
}

/// The claims of the GPIO pins of a board by module instances.
pub struct GpioManager {
    board: BoardProfile,
    claims: Vec<RuntimeClaim>,
}

/// The name `Debug` gives a resource usage.
pub open spec fn usage_name(u: ResourceUsage) -> Seq<char> {
    match u {
        ResourceUsage::Input => "Input"@,
        ResourceUsage::Output => "Output"@,
    }
}

fn usage_text(u: ResourceUsage) -> (res: &'static str)
    ensures
        res@ == usage_name(u),
{
    match u {
        ResourceUsage::Input => "Input",
        ResourceUsage::Output => "Output",
    }
}

/// No pin is claimed twice.
pub open spec fn pins_unique(c: Seq<RuntimeClaim>) -> bool {
    forall|i: int, j: int| 0 <= i < j < c.len() ==> (#[trigger] c[i]).pin != (#[trigger] c[j]).pin
}

/// The claims that module `m` makes for its bindings before position `b`.
pub open spec fn claims_for(m: ModuleInstanceConfig, b: int) -> Seq<RuntimeClaim> {
    m.bindings@.subrange(0, b).map_values(
        |x: PinBindingConfig| RuntimeClaim { pin: binding_pin(x), module_id: m.id, role_id: x.role_id },
    )
}

/// The role-to-pin table of module `m`.
pub open spec fn role_claims_for(m: ModuleInstanceConfig) -> Seq<RoleClaim> {
    m.bindings@.map_values(|x: PinBindingConfig| RoleClaim { role_id: x.role_id, pin: binding_pin(x) })
}

/// The first claim of pin `pin`.
pub open spec fn first_claim_of(c: Seq<RuntimeClaim>, pin: u8) -> Option<RuntimeClaim>
    decreases c.len(),
{
    if c.len() == 0 {
        None
    } else if c[0].pin == pin {
        Some(c[0])
    } else {
        first_claim_of(c.drop_first(), pin)
    }
}

/// The message reporting that `pin` is already claimed by `c`.
pub open spec fn already_claimed_message(pin: u8, c: RuntimeClaim) -> Seq<char> {
    "GPIO"@ + decimal(pin as nat) + " is already claimed by module '"@ + c.module_id@ + "' role "@ + c.role_id@
}

/// The position of the first binding of `m`, from `b` on, whose pin is
/// claimed in `old` or by an earlier binding of `m`.
pub open spec fn first_conflict_from(old: Seq<RuntimeClaim>, m: ModuleInstanceConfig, b: int) -> Option<int>
    decreases m.bindings@.len() - b,
{
    if b < 0 || b >= m.bindings@.len() {
        None
    } else if first_claim_of(old + claims_for(m, b), binding_pin(m.bindings@[b])) is Some {
        Some(b)
    } else {
        first_conflict_from(old, m, b + 1)
    }
}

/// The message for a usage that the board's pin does not support.
pub open spec fn unsupported_message(pin: u8, usage: ResourceUsage, module_id: Seq<char>, role_id: Seq<char>) -> Seq<char> {
    "GPIO"@ + decimal(pin as nat) + " does not support "@ + usage_name(usage) + " for module '"@ + module_id + "' role '"@ + role_id + "'"@
}

/// The outcome of checking the bindings of `m` from position `k` on against
/// the board: no role twice, each role known, each pin supports the role's usage.
pub open spec fn board_bindings_check_from(board: BoardProfile, reg: SchemaRegistry, m: ModuleInstanceConfig, k: int) -> Result<(), Seq<char>>
    decreases m.bindings@.len() - k,
{
    let rs = role_ids(m.bindings@);
    if k < 0 || k >= rs.len() {
        Ok(())
    } else if rs.subrange(0, k).contains(rs[k]) {
        Err("Module '"@ + m.id@ + "' defines role '"@ + rs[k] + "' more than once"@)
    } else {
        match reg.role_spec(rs[k]) {
            None => Err("Unknown binding role schema '"@ + rs[k] + "'"@),
            Some(r) => if !board_supports(board, binding_pin(m.bindings@[k]), r.resource_usage) {
                Err(unsupported_message(binding_pin(m.bindings@[k]), r.resource_usage, m.id@, rs[k]))
            } else {
                board_bindings_check_from(board, reg, m, k + 1)
            },
        }
    }
}

/// The outcome of validating one module instance for a board: the schema
/// checks, then the board checks of its bindings.
pub open spec fn module_board_check(board: BoardProfile, reg: SchemaRegistry, m: ModuleInstanceConfig) -> Result<(), Seq<char>> {
    match module_instance_check(reg, m) {
        Err(e) => Err(e),
        Ok(()) => board_bindings_check_from(board, reg, m, 0),
    }
}

/// A pin and the module that binds it.
pub struct PinOwner {
    pub pin: u8,
    pub owner: String,
}

/// The pins of module `m`'s bindings before position `b`, with `m` as owner.
pub open spec fn module_pin_owners(m: ModuleInstanceConfig, b: int) -> Seq<(u8, Seq<char>)> {
    m.bindings@.subrange(0, b).map_values(|x: PinBindingConfig| (binding_pin(x), m.id@))
}

/// The pins bound by the modules before position `k`, with their owners.
pub open spec fn pin_owners_before(ms: Seq<ModuleInstanceConfig>, k: int) -> Seq<(u8, Seq<char>)>
    decreases k,
{
    if k <= 0 {
        seq![]
    } else {
        pin_owners_before(ms, k - 1) + module_pin_owners(ms[k - 1], ms[k - 1].bindings@.len() as int)
    }
}

/// The owner of the first entry of `s` for `pin`.
pub open spec fn owner_of(s: Seq<(u8, Seq<char>)>, pin: u8) -> Option<Seq<char>>
    decreases s.len(),
{
    if s.len() == 0 {
        None
    } else if s[0].0 == pin {
        Some(s[0].1)
    } else {
        owner_of(s.drop_first(), pin)
    }
}

/// The outcome of checking, from binding `b` of module `k` on, that no pin
/// is bound twice in the configuration; then the checks of the later modules.
pub open spec fn pins_check_from(board: BoardProfile, reg: SchemaRegistry, ms: Seq<ModuleInstanceConfig>, k: int, b: int) -> Result<(), Seq<char>>
    decreases ms.len() - k, ms[k].bindings@.len() - b,
{
    if k < 0 || k >= ms.len() || b < 0 {
        Ok(())
    } else if b >= ms[k].bindings@.len() {
        config_check_from(board, reg, ms, k + 1)
    } else {
        let pin = binding_pin(ms[k].bindings@[b]);
        match owner_of(pin_owners_before(ms, k) + module_pin_owners(ms[k], b), pin) {
            Some(owner) => Err("GPIO"@ + decimal(pin as nat) + " is assigned to both '"@ + owner + "' and '"@ + ms[k].id@ + "'"@),
            None => pins_check_from(board, reg, ms, k, b + 1),
        }
    }
}

/// The outcome of validating the module instances from position `k` on:
/// non-blank and distinct ids, each module valid for the board, no pin bound twice.
pub open spec fn config_check_from(board: BoardProfile, reg: SchemaRegistry, ms: Seq<ModuleInstanceConfig>, k: int) -> Result<(), Seq<char>>
    decreases ms.len() - k, ms[k].bindings@.len() + 1,
{
    if k < 0 || k >= ms.len() {
        Ok(())
    } else if is_blank_text(ms[k].id@) {
        Err("Module instance id cannot be empty"@)
    } else if ms.subrange(0, k).map_values(|m: ModuleInstanceConfig| m.id@).contains(ms[k].id@) {
        Err("Module instance '"@ + ms[k].id@ + "' is defined more than once"@)
    } else {
        match module_board_check(board, reg, ms[k]) {
            Err(e) => Err(e),
            Ok(()) => pins_check_from(board, reg, ms, k, 0),
        }
    }
}

/// `first_claim_of` is the claim at the least position holding the pin.
proof fn lemma_first_claim_of(c: Seq<RuntimeClaim>, pin: u8, i: int)
    requires
        0 <= i <= c.len(),
        forall|j: int| 0 <= j < i ==> (#[trigger] c[j]).pin != pin,
    ensures
        i < c.len() && c[i].pin == pin ==> first_claim_of(c, pin) == Some(c[i]),
        i == c.len() ==> first_claim_of(c, pin) is None,
    decreases c.len(),
{
    if c.len() > 0 && i > 0 {
        let t = c.drop_first();
        assert forall|j: int| 0 <= j < i - 1 implies (#[trigger] t[j]).pin != pin by {
            assert(t[j] == c[j + 1]);
        }
        lemma_first_claim_of(t, pin, i - 1);
    }
}

/// `owner_of` gives the owner at the least position holding the pin.
proof fn lemma_owner_of(s: Seq<(u8, Seq<char>)>, pin: u8, i: int)
    requires
        0 <= i <= s.len(),
        forall|j: int| 0 <= j < i ==> (#[trigger] s[j]).0 != pin,
    ensures
        i < s.len() && s[i].0 == pin ==> owner_of(s, pin) == Some(s[i].1),
        i == s.len() ==> owner_of(s, pin) is None,
    decreases s.len(),
{
    if s.len() > 0 && i > 0 {
        let t = s.drop_first();
        assert forall|j: int| 0 <= j < i - 1 implies (#[trigger] t[j]).0 != pin by {
            assert(t[j] == s[j + 1]);
        }
        lemma_owner_of(t, pin, i - 1);
    }
}

/// The pin of the first role-to-pin entry for `role`.
pub open spec fn first_role_pin(s: Seq<RoleClaim>, role: Seq<char>) -> Option<u8>
    decreases s.len(),
{
    if s.len() == 0 {
        None
    } else if s[0].role_id@ == role {
        Some(s[0].pin)
    } else {
        first_role_pin(s.drop_first(), role)
    }
}

pub(crate) proof fn lemma_first_role_pin(s: Seq<RoleClaim>, role: Seq<char>, i: int)
    requires
        0 <= i <= s.len(),
        forall|j: int| 0 <= j < i ==> (#[trigger] s[j]).role_id@ != role,
    ensures
        i < s.len() && s[i].role_id@ == role ==> first_role_pin(s, role) == Some(s[i].pin),
        i == s.len() ==> first_role_pin(s, role) is None,
    decreases s.len(),
{
    if s.len() > 0 && i > 0 {
        let t = s.drop_first();
        assert forall|j: int| 0 <= j < i - 1 implies (#[trigger] t[j]).role_id@ != role by {
            assert(t[j] == s[j + 1]);
        }
        lemma_first_role_pin(t, role, i - 1);
    }
}

/// Whether `s` is the published description of module instance `m`: its
/// bindings with their pins and the usage of their roles (output for an
/// unknown role).
pub open spec fn is_module_instance_snapshot(reg: SchemaRegistry, m: ModuleInstanceConfig, s: ModuleInstanceSnapshot) -> bool {
    &&& s.id == m.id
    &&& s.module_type_id == m.module_type_id
    &&& opt_text(s.display_name) == opt_text(m.display_name)
    &&& s.settings@ == m.settings@
    &&& s.bindings@.len() == m.bindings@.len()
    &&& forall|i: int| 0 <= i < s.bindings@.len() ==> {
        &&& (#[trigger] s.bindings@[i]).role_id == m.bindings@[i].role_id
        &&& s.bindings@[i].pin == binding_pin(m.bindings@[i])
        &&& s.bindings@[i].usage == reg.usage_or_output(m.bindings@[i].role_id@)
    }
}

/// Whether `s` is the published description of a resource configuration on a board.
pub open spec fn is_resource_snapshot(board: BoardProfile, reg: SchemaRegistry, c: ResourceConfig, s: ResourceConfigSnapshot) -> bool {
    &&& s.version == c.version
    &&& is_board_snapshot(board, s.board)
    &&& s.module_instances@.len() == c.module_instances@.len()
    &&& forall|i: int| 0 <= i < s.module_instances@.len() ==>
        is_module_instance_snapshot(reg, c.module_instances@[i], #[trigger] s.module_instances@[i])
}

/// What claiming the pins of module `m` does to `old` claims: the outcome
/// and the claims afterwards. Pins are claimed binding by binding; at the
/// first pin that is already claimed the claim stops with an error, keeping
/// the pins claimed before it.
pub open spec fn claim_result(old: Seq<RuntimeClaim>, m: ModuleInstanceConfig, res: Result<ClaimedModulePins, AppError>, after: Seq<RuntimeClaim>) -> bool {
    match first_conflict_from(old, m, 0) {
        Some(b) => {
            let pin = binding_pin(m.bindings@[b]);
            &&& after == old + claims_for(m, b)
            &&& res matches Err(e) && crate::error::is_message(e, already_claimed_message(pin, first_claim_of(old + claims_for(m, b), pin)->0))
        },
        None => {
            &&& after == old + claims_for(m, m.bindings@.len() as int)
            &&& res matches Ok(c) && c.module_id_spec() == m.id && c.pins_spec() == role_claims_for(m)
        },
    }
}

/// Releasing a module gives back every pin that claiming it took, whether
/// the claim succeeded or stopped at a conflict: when the module held no pin
/// before, the claims are those from before the claim.
pub proof fn law_release_undoes_claim(before: Seq<RuntimeClaim>, m: ModuleInstanceConfig, b: int)
    requires
        0 <= b <= m.bindings@.len(),
        forall|i: int| 0 <= i < before.len() ==> (#[trigger] before[i]).module_id@ != m.id@,
    ensures
        (before + claims_for(m, b)).filter(|c: RuntimeClaim| c.module_id@ != m.id@) == before,
{
    let pred = |c: RuntimeClaim| c.module_id@ != m.id@;
    let added = claims_for(m, b);
    assert forall|i: int| 0 <= i < added.len() implies !pred(#[trigger] added[i]) by {}
    lemma_filter_concat_dropped(before, added, pred);
    lemma_filter_all_kept(before, pred);
}

proof fn lemma_filter_all_kept(s: Seq<RuntimeClaim>, pred: spec_fn(RuntimeClaim) -> bool)
    requires
        forall|i: int| 0 <= i < s.len() ==> pred(#[trigger] s[i]),
    ensures
        s.filter(pred) == s,
    decreases s.len(),
{
    reveal(Seq::filter);
    if s.len() > 0 {
        lemma_filter_all_kept(s.drop_last(), pred);
        assert(s.drop_last().push(s.last()) =~= s);
    } else {
        assert(s.filter(pred) =~= s);
    }
}

proof fn lemma_filter_concat_dropped(s: Seq<RuntimeClaim>, t: Seq<RuntimeClaim>, pred: spec_fn(RuntimeClaim) -> bool)
    requires
        forall|i: int| 0 <= i < t.len() ==> !pred(#[trigger] t[i]),
    ensures
        (s + t).filter(pred) == s.filter(pred),
    decreases t.len(),
{
    reveal(Seq::filter);
    if t.len() > 0 {
        lemma_filter_concat_dropped(s, t.drop_last(), pred);
        assert((s + t).drop_last() =~= s + t.drop_last());
        assert(!pred(t[t.len() - 1]));
    } else {
        assert(s + t =~= s);
    }
}

impl ClaimedModulePins {
    pub closed spec fn module_id_spec(self) -> String {
        self.module_id
    }

    pub closed spec fn pins_spec(self) -> Seq<RoleClaim> {
        self.pins_by_role_id@
    }

    pub fn module_id(&self) -> (res: &str)
        ensures
            res@ == self.module_id_spec()@,
    {
        self.module_id.as_str()
    }

    /// The pin claimed for schema role `role_id`.
    pub fn pin_for_schema_role(&self, role_id: &str) -> (res: Option<u8>)
        ensures
            res == first_role_pin(self.pins_spec(), role_id@),
    {
        let n = self.pins_by_role_id.len();
        for i in 0..n
            invariant
                n == self.pins_by_role_id@.len(),
                forall|j: int| 0 <= j < i ==> (#[trigger] self.pins_by_role_id@[j]).role_id@ != role_id@,
        {
            if text_eq(self.pins_by_role_id[i].role_id.as_str(), role_id) {
                proof {
                    lemma_first_role_pin(self.pins_by_role_id@, role_id@, i as int);
                }
                return Some(self.pins_by_role_id[i].pin);
            }
        }
        proof {
            lemma_first_role_pin(self.pins_by_role_id@, role_id@, n as int);
        }
        None
    }
}

impl GpioManager {
    pub closed spec fn board_spec(self) -> BoardProfile {
        self.board
    }

    pub closed spec fn claims_spec(self) -> Seq<RuntimeClaim> {
        self.claims@
    }

    /// No pin is claimed twice.
    pub open spec fn wf(self) -> bool {
        pins_unique(self.claims_spec())
    }

    /// A manager of the board's pins with no pin claimed.
    pub fn new(board: BoardProfile) -> (res: GpioManager)
        ensures
            res.board_spec() == board,
            res.claims_spec() == Seq::<RuntimeClaim>::empty(),
            res.wf(),
    {
        GpioManager { board, claims: Vec::new() }
    }

    fn find_claim(&self, pin: u8) -> (res: Option<usize>)
        ensures
            match res {
                Some(i) => i < self.claims@.len() && first_claim_of(self.claims@, pin) == Some(self.claims@[i as int]) && self.claims@[i as int].pin == pin,
                None => first_claim_of(self.claims@, pin) is None && forall|j: int| 0 <= j < self.claims@.len() ==> (#[trigger] self.claims@[j]).pin != pin,
            },
    {
        let n = self.claims.len();
        for i in 0..n
            invariant
                n == self.claims@.len(),
                forall|j: int| 0 <= j < i ==> (#[trigger] self.claims@[j]).pin != pin,
        {
            if self.claims[i].pin == pin {
                proof {
                    lemma_first_claim_of(self.claims@, pin, i as int);
                }
                return Some(i);
            }
        }
        proof {
            lemma_first_claim_of(self.claims@, pin, n as int);
        }
        None
    }

    fn validate_module(&self, module: &ModuleInstanceConfig, schemas: &SchemaRegistry) -> (res: Result<(), AppError>)
        ensures
            unit_outcome(res, module_board_check(self.board_spec(), *schemas, *module)),
    {
        match validate_module_instance(schemas, module) {
            Ok(()) => {},
            Err(e) => {
                return Err(e);
            },
        }
        let n = module.bindings.len();
        for k in 0..n
            invariant
                n == module.bindings@.len(),
                module_board_check(self.board_spec(), *schemas, *module) == board_bindings_check_from(self.board_spec(), *schemas, *module, k as int),
        {
            let binding = &module.bindings[k];
            let mut seen = false;
            for j in 0..k
                invariant
                    k < module.bindings@.len(),
                    binding == module.bindings@[k as int],
                    seen == role_ids(module.bindings@).subrange(0, j as int).contains(binding.role_id@),
            {
                let ghost before = role_ids(module.bindings@).subrange(0, j as int);
                assert(role_ids(module.bindings@).subrange(0, j + 1) =~= before.push(module.bindings@[j as int].role_id@));
                if text_eq(module.bindings[j].role_id.as_str(), binding.role_id.as_str()) {
                    seen = true;
                }
                proof {
                    let after = role_ids(module.bindings@).subrange(0, j + 1);
                    if seen {
                        if !before.contains(binding.role_id@) {
                            assert(after[j as int] == binding.role_id@);
                        }
                    } else {
                        assert forall|x: int| 0 <= x < after.len() implies after[x] != binding.role_id@ by {
                            if x < j {
                                assert(after[x] == before[x]);
                            }
                        }
                    }
                }
            }
            if seen {
                return Err(AppError::Message(join5("Module '", module.id.as_str(), "' defines role '", binding.role_id.as_str(), "' more than once")));
            }
            match self.validate_binding(module, binding, schemas) {
                Ok(()) => {},
                Err(e) => {
                    return Err(e);
                },
            }
        }
        Ok(())
    }

    fn validate_binding(&self, module: &ModuleInstanceConfig, binding: &PinBindingConfig, schemas: &SchemaRegistry) -> (res: Result<(), AppError>)
        ensures
            unit_outcome(res, match schemas.role_spec(binding.role_id@) {
                None => Err("Unknown binding role schema '"@ + binding.role_id@ + "'"@),
                Some(r) => if !board_supports(self.board_spec(), binding_pin(*binding), r.resource_usage) {
                    Err(unsupported_message(binding_pin(*binding), r.resource_usage, module.id@, binding.role_id@))
                } else {
                    Ok(())
                },
            }),
    {
        let pin = match binding.pin() {
            Ok(p) => p,
            Err(e) => {
                return Err(e);
            },
        };
        let usage = match schemas.lookup_binding_role_required(binding.role_id.as_str()) {
            Ok(r) => r.resource_usage,
            Err(e) => {
                return Err(e);
            },
        };
        if !self.board.supports(pin, usage) {
            let digits = decimal_text(pin as u64);
            let head = join5("GPIO", digits.as_str(), " does not support ", usage_text(usage), " for module '");
            return Err(AppError::Message(join5(head.as_str(), module.id.as_str(), "' role '", binding.role_id.as_str(), "'")));
        }
        Ok(())
    }

    /// Claims the pins of a module instance's bindings after validating it.
    pub fn claim_module_instance(&mut self, config: &ModuleInstanceConfig, schemas: &SchemaRegistry) -> (res: Result<ClaimedModulePins, AppError>)
        requires
            old(self).wf(),
        ensures
            final(self).wf(),
            final(self).board_spec() == old(self).board_spec(),
            match module_board_check(old(self).board_spec(), *schemas, *config) {
                Err(e) => res matches Err(x) && crate::error::is_message(x, e) && final(self).claims_spec() == old(self).claims_spec(),
                Ok(()) => claim_result(old(self).claims_spec(), *config, res, final(self).claims_spec()),
            },
    {
        match self.validate_module(config, schemas) {
            Ok(()) => {},
            Err(e) => {
                return Err(e);
            },
        }
        let ghost old_claims = self.claims@;
        let mut claimed: Vec<RoleClaim> = Vec::new();
        let n = config.bindings.len();
        assert(claims_for(*config, 0) =~= Seq::<RuntimeClaim>::empty());
        assert(old_claims + claims_for(*config, 0) =~= old_claims);
        for b in 0..n
            invariant
                n == config.bindings@.len(),
                self.claims@ == old_claims + claims_for(*config, b as int),
                pins_unique(self.claims@),
                first_conflict_from(old_claims, *config, 0) == first_conflict_from(old_claims, *config, b as int),
                claimed@ == role_claims_for(*config).subrange(0, b as int),
                self.board == old(self).board,
                old_claims == old(self).claims@,
                module_board_check(old(self).board_spec(), *schemas, *config) is Ok,
        {
            let binding = &config.bindings[b];
            let pin = match binding.pin() {
                Ok(p) => p,
                Err(e) => {
                    return Err(e);
                },
            };
            match self.find_claim(pin) {
                Some(i) => {
                    assert(first_conflict_from(old_claims, *config, b as int) == Some(b as int));
                    assert(first_conflict_from(old_claims, *config, 0) == Some(b as int));
                    let existing = &self.claims[i];
                    let digits = decimal_text(pin as u64);
                    let head = join5("GPIO", digits.as_str(), " is already claimed by module '", existing.module_id.as_str(), "' role ");
                    let msg = crate::text::concat(head.as_str(), existing.role_id.as_str());
                    proof {
                        assert(binding_pin(config.bindings@[b as int]) == pin);
                        assert(first_claim_of(old_claims + claims_for(*config, b as int), pin) == Some(*existing));
                        assert(msg@ == already_claimed_message(pin, *existing));
                    }
                    return Err(AppError::Message(msg));
                },
                None => {},
            }
            let ghost before = self.claims@;
            let c = RuntimeClaim { pin, module_id: config.id.clone(), role_id: binding.role_id.clone() };
            self.claims.push(c);
            claimed.push(RoleClaim { role_id: binding.role_id.clone(), pin });
            proof {
                assert(claims_for(*config, b + 1) =~= claims_for(*config, b as int).push(c));
                assert(self.claims@ =~= old_claims + claims_for(*config, b + 1));
                assert(claimed@ =~= role_claims_for(*config).subrange(0, b + 1));
                assert forall|x: int, y: int| 0 <= x < y < self.claims@.len() implies (#[trigger] self.claims@[x]).pin != (#[trigger] self.claims@[y]).pin by {
                    if y == before.len() {
                        assert(before[x].pin != pin);
                    } else {
                        assert(self.claims@[x] == before[x] && self.claims@[y] == before[y]);
                    }
                }
            }
        }
        assert(role_claims_for(*config).subrange(0, n as int) =~= role_claims_for(*config));
        Ok(ClaimedModulePins { module_id: config.id.clone(), pins_by_role_id: claimed })
    }

    /// Releases every pin claimed by module `module_id`.
    pub fn release_module(&mut self, module_id: &str)
        requires
            old(self).wf(),
        ensures
            final(self).wf(),
            final(self).board_spec() == old(self).board_spec(),
            final(self).claims_spec() == old(self).claims_spec().filter(|c: RuntimeClaim| c.module_id@ != module_id@),
    {
        let ghost pred = |c: RuntimeClaim| c.module_id@ != module_id@;
        let mut old_claims: Vec<RuntimeClaim> = Vec::new();
        std::mem::swap(&mut old_claims, &mut self.claims);
        let mut kept: Vec<RuntimeClaim> = Vec::new();
        let n = old_claims.len();
        assert(old_claims@.subrange(0, 0).filter(pred) =~= Seq::<RuntimeClaim>::empty()) by {
            reveal(Seq::filter);
        }
        for i in 0..n
            invariant
                n == old_claims@.len(),
                old_claims@ == old(self).claims@,
                kept@ == old_claims@.subrange(0, i as int).filter(pred),
                pred == (|c: RuntimeClaim| c.module_id@ != module_id@),
        {
            let c = &old_claims[i];
            proof {
                old_claims@.subrange(0, i as int).lemma_filter_push(*c, pred);
                assert(old_claims@.subrange(0, i + 1) =~= old_claims@.subrange(0, i as int).push(*c));
            }
            if !text_eq(c.module_id.as_str(), module_id) {
                kept.push(RuntimeClaim { pin: c.pin, module_id: c.module_id.clone(), role_id: c.role_id.clone() });
            }
        }
        assert(old_claims@.subrange(0, n as int) =~= old_claims@);
        self.claims = kept;
        proof {
            let f = self.claims@;
            assert forall|x: int, y: int| 0 <= x < y < f.len() implies (#[trigger] f[x]).pin != (#[trigger] f[y]).pin by {
                lemma_filter_order_preserved(old_claims@, pred, x, y);
            }
        }
    }

    /// Validates the module instances of a configuration for the board:
    /// non-blank, distinct ids; each module valid against its schema and the
    /// board; no pin bound by two bindings.
    pub fn validate_config(&self, config: &ResourceConfig, schemas: &SchemaRegistry) -> (res: Result<(), AppError>)
        ensures
            unit_outcome(res, config_check_from(self.board_spec(), *schemas, config.module_instances@, 0)),
    {
        let n = config.module_instances.len();
        let mut seen: Vec<PinOwner> = Vec::new();
        for k in 0..n
            invariant
                n == config.module_instances@.len(),
                config_check_from(self.board_spec(), *schemas, config.module_instances@, 0) == config_check_from(self.board_spec(), *schemas, config.module_instances@, k as int),
                seen@.map_values(|p: PinOwner| (p.pin, p.owner@)) == pin_owners_before(config.module_instances@, k as int),
        {
            let module = &config.module_instances[k];
            if is_blank(module.id.as_str()) {
                assert(config_check_from(self.board_spec(), *schemas, config.module_instances@, k as int) == Err::<(), Seq<char>>("Module instance id cannot be empty"@));
                return Err(AppError::Message(crate::text::owned("Module instance id cannot be empty")));
            }
            let mut dup = false;
            for j in 0..k
                invariant
                    k < config.module_instances@.len(),
                    module == config.module_instances@[k as int],
                    dup == config.module_instances@.subrange(0, j as int).map_values(|m: ModuleInstanceConfig| m.id@).contains(module.id@),
            {
                let ghost before = config.module_instances@.subrange(0, j as int).map_values(|m: ModuleInstanceConfig| m.id@);
                let ghost after = config.module_instances@.subrange(0, j + 1).map_values(|m: ModuleInstanceConfig| m.id@);
                assert(after =~= before.push(config.module_instances@[j as int].id@));
                if text_eq(config.module_instances[j].id.as_str(), module.id.as_str()) {
                    dup = true;
                }
                proof {
                    if dup {
                        if !before.contains(module.id@) {
                            assert(after[j as int] == module.id@);
                        } else {
                            let x = choose|x: int| 0 <= x < before.len() && before[x] == module.id@;
                            assert(after[x] == before[x]);
                        }
                    } else {
                        assert forall|x: int| 0 <= x < after.len() implies after[x] != module.id@ by {
                            if x < j {
                                assert(after[x] == before[x]);
                            }
                        }
                    }
                }
            }
            if dup {
                return Err(AppError::Message(join3("Module instance '", module.id.as_str(), "' is defined more than once")));
            }
            match self.validate_module(module, schemas) {
                Ok(()) => {},
                Err(e) => {
                    assert(config_check_from(self.board_spec(), *schemas, config.module_instances@, k as int) == module_board_check(self.board_spec(), *schemas, *module));
                    return Err(e);
                },
            }
            let m = module.bindings.len();
            assert(module_pin_owners(*module, 0) =~= Seq::<(u8, Seq<char>)>::empty());
            assert(pin_owners_before(config.module_instances@, k as int) + module_pin_owners(*module, 0) =~= pin_owners_before(config.module_instances@, k as int));
            for b in 0..m
                invariant
                    k < n,
                    n == config.module_instances@.len(),
                    module == config.module_instances@[k as int],
                    m == module.bindings@.len(),
                    config_check_from(self.board_spec(), *schemas, config.module_instances@, 0) == pins_check_from(self.board_spec(), *schemas, config.module_instances@, k as int, b as int),
                    seen@.map_values(|p: PinOwner| (p.pin, p.owner@)) == pin_owners_before(config.module_instances@, k as int) + module_pin_owners(*module, b as int),
            {
                let pin = match module.bindings[b].pin() {
                    Ok(p) => p,
                    Err(e) => {
                        return Err(e);
                    },
                };
                let ghost sv = seen@.map_values(|p: PinOwner| (p.pin, p.owner@));
                let s = seen.len();
                let mut found: Option<usize> = None;
                for i in 0..s
                    invariant
                        s == seen@.len(),
                        sv == seen@.map_values(|p: PinOwner| (p.pin, p.owner@)),
                        found is None ==> forall|j: int| 0 <= j < i ==> (#[trigger] sv[j]).0 != pin,
                        found matches Some(f) ==> f < s && sv[f as int].0 == pin && forall|j: int| 0 <= j < f ==> (#[trigger] sv[j]).0 != pin,
                {
                    if found.is_none() && seen[i].pin == pin {
                        found = Some(i);
                    }
                }
                match found {
                    Some(f) => {
                        proof {
                            lemma_owner_of(sv, pin, f as int);
                            assert(pins_check_from(self.board_spec(), *schemas, config.module_instances@, k as int, b as int) == Err::<(), Seq<char>>("GPIO"@ + decimal(pin as nat) + " is assigned to both '"@ + seen@[f as int].owner@ + "' and '"@ + config.module_instances@[k as int].id@ + "'"@));
                        }
                        let digits = decimal_text(pin as u64);
                        return Err(AppError::Message(join7("GPIO", digits.as_str(), " is assigned to both '", seen[f].owner.as_str(), "' and '", module.id.as_str(), "'")));
                    },
                    None => {
                        proof {
                            lemma_owner_of(sv, pin, s as int);
                        }
                    },
                }
                seen.push(PinOwner { pin, owner: module.id.clone() });
                proof {
                    assert(module_pin_owners(*module, b + 1) =~= module_pin_owners(*module, b as int).push((pin, module.id@)));
                    assert(seen@.map_values(|p: PinOwner| (p.pin, p.owner@)) =~= sv.push((pin, module.id@)));
                }
            }
            proof {
                assert(module_pin_owners(*module, m as int) =~= module_pin_owners(config.module_instances@[k as int], config.module_instances@[k as int].bindings@.len() as int));
                assert(pin_owners_before(config.module_instances@, k + 1) == pin_owners_before(config.module_instances@, k as int) + module_pin_owners(config.module_instances@[k as int], config.module_instances@[k as int].bindings@.len() as int));
            }
        }
        Ok(())
    }

    /// The published description of a resource configuration on the board.
    pub fn snapshot(&self, config: &ResourceConfig, schemas: &SchemaRegistry) -> (res: ResourceConfigSnapshot)
        ensures
            is_resource_snapshot(self.board_spec(), *schemas, *config, res),
    {
        let mut modules: Vec<ModuleInstanceSnapshot> = Vec::new();
        let n = config.module_instances.len();
        for i in 0..n
            invariant
                n == config.module_instances@.len(),
                modules@.len() == i,
                forall|k: int| 0 <= k < i ==> is_module_instance_snapshot(*schemas, config.module_instances@[k], #[trigger] modules@[k]),
        {
            let instance = &config.module_instances[i];
            let mut bindings: Vec<PinBindingSnapshot> = Vec::new();
            let m = instance.bindings.len();
            for j in 0..m
                invariant
                    m == instance.bindings@.len(),
                    bindings@.len() == j,
                    forall|k: int| 0 <= k < j ==> {
                        &&& (#[trigger] bindings@[k]).role_id == instance.bindings@[k].role_id
                        &&& bindings@[k].pin == binding_pin(instance.bindings@[k])
                        &&& bindings@[k].usage == schemas.usage_or_output(instance.bindings@[k].role_id@)
                    },
            {
                let binding = &instance.bindings[j];
                match binding.pin() {
                    Ok(pin) => {
                        bindings.push(PinBindingSnapshot {
                            role_id: binding.role_id.clone(),
                            pin,
                            usage: schemas.role_usage_or_output(binding.role_id.as_str()),
                        });
                    },
                    Err(_) => {},
                }
            }
            modules.push(ModuleInstanceSnapshot {
                id: instance.id.clone(),
                module_type_id: instance.module_type_id.clone(),
                display_name: copy_opt_text(&instance.display_name),
                settings: instance.settings.duplicate(),
                bindings,
            });
        }
        ResourceConfigSnapshot { version: config.version, board: self.board.snapshot(), module_instances: modules }
    }
}

/// Filtering keeps the relative order of the kept elements, so distinct
/// pins stay distinct.
proof fn lemma_filter_order_preserved(s: Seq<RuntimeClaim>, pred: spec_fn(RuntimeClaim) -> bool, x: int, y: int)
    requires
        pins_unique(s),
        0 <= x < y < s.filter(pred).len(),
    ensures
        s.filter(pred)[x].pin != s.filter(pred)[y].pin,
    decreases s.len(),
{
    reveal(Seq::filter);
    if s.len() > 0 {
        let t = s.drop_last();
        assert(s =~= t.push(s.last()));
        t.lemma_filter_push(s.last(), pred);
        assert forall|i: int, j: int| 0 <= i < j < t.len() implies (#[trigger] t[i]).pin != (#[trigger] t[j]).pin by {
            assert(t[i] == s[i] && t[j] == s[j]);
        }
        let ft = t.filter(pred);
        if pred(s.last()) && y == ft.len() {
            // s.last() is distinct from every earlier element of s
            let fx = ft[x];
            assert(ft[x] == fx);
            assert(ft.contains(fx));
            t.lemma_filter_contains_rev(pred, fx);
            assert(t.contains(fx));
            let k = choose|k: int| 0 <= k < t.len() && t[k] == fx;
            assert(s[k] == fx);
            assert(s[k].pin != s[s.len() - 1].pin);
        } else {
            lemma_filter_order_preserved(t, pred, x, y);
        }
    }
}

/// The pin of binding `b` of module `k` is bound by no binding before it in
/// the configuration.
pub open spec fn pin_fresh(ms: Seq<ModuleInstanceConfig>, k: int, b: int) -> bool {
    owner_of(pin_owners_before(ms, k) + module_pin_owners(ms[k], b), binding_pin(ms[k].bindings@[b])) is None
}

proof fn lemma_owner_of_none(s: Seq<(u8, Seq<char>)>, pin: u8)
    requires
        owner_of(s, pin) is None,
    ensures
        forall|j: int| 0 <= j < s.len() ==> (#[trigger] s[j]).0 != pin,
    decreases s.len(),
{
    if s.len() > 0 {
        lemma_owner_of_none(s.drop_first(), pin);
        assert forall|j: int| 0 <= j < s.len() implies (#[trigger] s[j]).0 != pin by {
            if j > 0 {
                assert(s[j] == s.drop_first()[j - 1]);
            }
        }
    }
}

proof fn lemma_pin_owners_hold(ms: Seq<ModuleInstanceConfig>, k1: int, b1: int, k2: int)
    requires
        0 <= k1 < k2 <= ms.len(),
        0 <= b1 < ms[k1].bindings@.len(),
    ensures
        exists|j: int| 0 <= j < pin_owners_before(ms, k2).len() && (#[trigger] pin_owners_before(ms, k2)[j]).0 == binding_pin(ms[k1].bindings@[b1]),
    decreases k2,
{
    let prev = pin_owners_before(ms, k2 - 1);
    let own = module_pin_owners(ms[k2 - 1], ms[k2 - 1].bindings@.len() as int);
    assert(pin_owners_before(ms, k2) == prev + own);
    if k1 == k2 - 1 {
        let j = prev.len() + b1;
        assert((prev + own)[j] == own[b1]);
        assert(own[b1].0 == binding_pin(ms[k1].bindings@[b1]));
    } else {
        lemma_pin_owners_hold(ms, k1, b1, k2 - 1);
        let j = choose|j: int| 0 <= j < prev.len() && (#[trigger] prev[j]).0 == binding_pin(ms[k1].bindings@[b1]);
        assert((prev + own)[j] == prev[j]);
    }
}

proof fn lemma_pins_check_ok(board: BoardProfile, reg: SchemaRegistry, ms: Seq<ModuleInstanceConfig>, k: int, b: int)
    requires
        0 <= k < ms.len(),
        0 <= b <= ms[k].bindings@.len(),
        pins_check_from(board, reg, ms, k, b) is Ok,
    ensures
        forall|b2: int| b <= b2 < ms[k].bindings@.len() ==> #[trigger] pin_fresh(ms, k, b2),
        forall|k2: int, b2: int| k < k2 < ms.len() && 0 <= b2 < ms[k2].bindings@.len() ==> #[trigger] pin_fresh(ms, k2, b2),
        forall|k2: int| k < k2 < ms.len() ==> #[trigger] config_check_from(board, reg, ms, k2) is Ok,
    decreases ms.len() - k, ms[k].bindings@.len() - b,
{
    if b < ms[k].bindings@.len() {
        lemma_pins_check_ok(board, reg, ms, k, b + 1);
        assert forall|b2: int| b <= b2 < ms[k].bindings@.len() implies #[trigger] pin_fresh(ms, k, b2) by {
            if b2 == b {
                let pin = binding_pin(ms[k].bindings@[b]);
                let _ = owner_of(pin_owners_before(ms, k) + module_pin_owners(ms[k], b), pin);
            }
        }
    } else if k + 1 < ms.len() {
        assert(config_check_from(board, reg, ms, k + 1) is Ok);
        assert(pins_check_from(board, reg, ms, k + 1, 0) is Ok);
        lemma_pins_check_ok(board, reg, ms, k + 1, 0);
        assert forall|k2: int, b2: int| k < k2 < ms.len() && 0 <= b2 < ms[k2].bindings@.len() implies #[trigger] pin_fresh(ms, k2, b2) by {
            if k2 > k + 1 {
            }
        }
    }
}

/// A configuration whose module instances validate binds no GPIO pin twice:
/// any two distinct bindings, of one module or of two, have different pins.
/// Its module ids are not blank and no two are equal, and each module is
/// valid against its schema and the board.
pub proof fn law_valid_config_binds_each_pin_once(board: BoardProfile, reg: SchemaRegistry, ms: Seq<ModuleInstanceConfig>)
    requires
        config_check_from(board, reg, ms, 0) is Ok,
    ensures
        forall|k1: int, b1: int, k2: int, b2: int|
            0 <= k1 < ms.len() && 0 <= b1 < ms[k1].bindings@.len()
            && 0 <= k2 < ms.len() && 0 <= b2 < ms[k2].bindings@.len()
            && (k1 < k2 || (k1 == k2 && b1 < b2))
            ==> binding_pin(#[trigger] ms[k1].bindings@[b1]) != binding_pin(#[trigger] ms[k2].bindings@[b2]),
        forall|k: int| 0 <= k < ms.len() ==> !is_blank_text(#[trigger] ms[k].id@),
        forall|k: int| 0 <= k < ms.len() ==> module_board_check(board, reg, #[trigger] ms[k]) is Ok,
        forall|k1: int, k2: int| 0 <= k1 < k2 < ms.len() ==> (#[trigger] ms[k1]).id@ != (#[trigger] ms[k2]).id@,
{
    if ms.len() > 0 {
        assert(pins_check_from(board, reg, ms, 0, 0) is Ok);
        lemma_pins_check_ok(board, reg, ms, 0, 0);
        assert forall|k: int| 0 <= k < ms.len() implies #[trigger] config_check_from(board, reg, ms, k) is Ok by {}
        assert forall|k1: int, k2: int| 0 <= k1 < k2 < ms.len() implies (#[trigger] ms[k1]).id@ != (#[trigger] ms[k2]).id@ by {
            assert(config_check_from(board, reg, ms, k2) is Ok);
            let ids = ms.subrange(0, k2).map_values(|m: ModuleInstanceConfig| m.id@);
            assert(ids[k1] == ms[k1].id@);
        }
        assert forall|k: int| 0 <= k < ms.len() implies !is_blank_text(#[trigger] ms[k].id@) && module_board_check(board, reg, ms[k]) is Ok by {
            assert(config_check_from(board, reg, ms, k) is Ok);
        }
        assert forall|k1: int, b1: int, k2: int, b2: int|
            0 <= k1 < ms.len() && 0 <= b1 < ms[k1].bindings@.len()
            && 0 <= k2 < ms.len() && 0 <= b2 < ms[k2].bindings@.len()
            && (k1 < k2 || (k1 == k2 && b1 < b2))
            implies binding_pin(#[trigger] ms[k1].bindings@[b1]) != binding_pin(#[trigger] ms[k2].bindings@[b2]) by {
            let pin = binding_pin(ms[k2].bindings@[b2]);
            let before = pin_owners_before(ms, k2);
            let mine = module_pin_owners(ms[k2], b2);
            let pre = before + mine;
            assert(pin_fresh(ms, k2, b2));
            lemma_owner_of_none(pre, pin);
            if k1 == k2 {
                assert(mine[b1].0 == binding_pin(ms[k1].bindings@[b1]));
                assert(pre[before.len() + b1] == mine[b1]);
            } else {
                lemma_pin_owners_hold(ms, k1, b1, k2);
                let j = choose|j: int| 0 <= j < before.len() && (#[trigger] before[j]).0 == binding_pin(ms[k1].bindings@[b1]);
                assert(pre[j] == before[j]);
            }
        }
    }
}

} // verus!

