//! Runtime modules: the relay module state machine (commands, events from
//! other modules, the auto-off timer and a debounced toggle input) and the
//! manager that dispatches commands and propagates state-change events.

use vstd::prelude::*;

use crate::config::{ModuleSettings, ModuleInstanceConfig, ResourceConfig};
use crate::error::{error_view, is_message, AppError, ErrorView};
use crate::board::BoardProfile;
use crate::config::{binding_pin};
use crate::gpio::{already_claimed_message, claims_for, first_claim_of, first_conflict_from, first_role_pin, lemma_first_role_pin, module_board_check, role_claims_for, GpioManager, RuntimeClaim};
use crate::keyed::{first_index_of, lemma_first_index_of, lemma_first_index_of_at};
use crate::schemas::types::ModuleTypeSchema;
use crate::schemas::SchemaRegistry;
use crate::text::{join3, join5, spec_to_uppercase, spec_utf8_error_text, text_eq, to_uppercase, trim, trimmed, utf8_text};

verus! {

/// The time, in milliseconds, an input level must stay unchanged before a
/// change of it counts.
pub const TRIGGER_DEBOUNCE_MS: u64 = 150;

/// The most events that one command or poll may propagate between modules;
/// a longer cascade ends with an error.
pub const MAX_PROPAGATED_EVENTS: u64 = 1024;

#[derive(Debug, Clone)]
pub struct ModuleCommand {
    pub module_id: String,
    pub payload: Vec<u8>,
}

#[derive(Debug, Clone, Copy, PartialEq, Eq, Structural)]
pub enum DriverBinaryState {
    On,
    Off,
}

/// A state change that a module reports to the other modules.
#[derive(Debug, Clone, PartialEq, Eq)]
pub struct ModuleEvent {
    pub source_module_id: String,
    pub state: DriverBinaryState,
}

/// What a module did in one step: whether its state changed, and the events it emits.
#[derive(Debug, Clone, PartialEq, Eq)]
pub struct ModuleExecution {
    pub state_changed: bool,
    pub events: Vec<ModuleEvent>,
}

/// One write of a relay output: the pin and whether it is driven high.
#[derive(Debug, Clone, Copy, PartialEq, Eq, Structural)]
pub struct PinWrite {
    pub pin: u8,
    pub high: bool,
}

/// A relay output write that failed: its position among the writes of a
/// run, counted from zero, and the error that the pin driver reported.
#[derive(Debug)]
pub struct WriteFailure {
    pub at: usize,
    pub error: AppError,
}

/// The relay output writes of one run of module steps: those made so far,
/// in order, and the write that fails, if one does.
#[derive(Debug)]
pub struct PinWrites {
    pub made: Vec<PinWrite>,
    pub failure: Option<WriteFailure>,
}

/// What the steps of a relay module change: its state, its auto-off
/// deadline and its trigger input.
#[derive(Debug, Clone, Copy)]
pub struct RelayRuntimeState {
    pub state: DriverBinaryState,
    pub auto_off_deadline: Option<u64>,
    pub trigger_input: Option<DebouncedToggleInput>,
}

/// The position of the failing write, if any.
pub open spec fn fail_position(f: Option<WriteFailure>) -> Option<int> {
    match f {
        Some(x) => Some(x.at as int),
        None => None,
    }
}

impl PinWrites {
    /// Writes none of which fails.
    pub fn succeeding() -> (res: PinWrites)
        ensures
            res.made@ == Seq::<PinWrite>::empty(),
            res.failure is None,
    {
        PinWrites { made: Vec::new(), failure: None }
    }

    /// Writes of which the one at position `at` fails with `error`.
    pub fn failing_at(at: usize, error: AppError) -> (res: PinWrites)
        ensures
            res.made@ == Seq::<PinWrite>::empty(),
            res.failure == Some(WriteFailure { at, error }),
    {
        PinWrites { made: Vec::new(), failure: Some(WriteFailure { at, error }) }
    }

    /// Whether the next write is the one that fails.
    pub open spec fn next_fails(self) -> bool {
        fail_position(self.failure) == Some(self.made@.len() as int)
    }

    /// The error of the failing write.
    pub open spec fn failure_error(self) -> AppError {
        self.failure->0.error
    }

    /// Writes pin `pin`: the failing write gives its error and is not
    /// counted as made; any other is made.
    fn write(&mut self, pin: u8, high: bool) -> (res: Result<(), AppError>)
        ensures
            old(self).next_fails() ==> res == Err::<(), AppError>(old(self).failure_error()) && final(self).made@ == old(self).made@,
            !old(self).next_fails() ==> res is Ok && final(self).made@ == old(self).made@.push(PinWrite { pin, high }) && final(self).failure == old(self).failure,
    {
        let fails = match &self.failure {
            Some(f) => f.at == self.made.len(),
            None => false,
        };
        if fails {
            let taken = self.failure.take();
            match taken {
                Some(f) => {
                    return Err(f.error);
                },
                None => {},
            }
        }
        self.made.push(PinWrite { pin, high });
        Ok(())
    }
}

/// What a module step did to the pin writes and what it returned: the writes
/// made are `w`; with an execution `x` the step returned it and the failing
/// write is still to come, without one the step gave the write's error.
pub open spec fn step_outcome(res: Result<ModuleExecution, AppError>, ox: Option<ExecView>, before: PinWrites, after: PinWrites, w: Seq<PinWrite>) -> bool {
    &&& after.made@ == w
    &&& match ox {
        Some(x) => res matches Ok(r) && exec_view(r) == x && after.failure == before.failure,
        None => res == Err::<ModuleExecution, AppError>(before.failure_error()),
    }
}

/// What caused a relay state change.
pub enum RelayStateChangeSource {
    MqttCommand(String),
    GpioTrigger,
    AutoOffTimer,
    ExternalModule,
}

/// The label under which a state change source is logged.
pub open spec fn source_label(s: RelayStateChangeSource) -> Seq<char> {
    match s {
        RelayStateChangeSource::MqttCommand(c) => if c@ == "ON"@ {
            "mqtt_on"@
        } else if c@ == "OFF"@ {
            "mqtt_off"@
        } else if c@ == "TOGGLE"@ {
            "mqtt_toggle"@
        } else {
            "mqtt"@
        },
        RelayStateChangeSource::GpioTrigger => "gpio_trigger"@,
        RelayStateChangeSource::AutoOffTimer => "auto_off"@,
        RelayStateChangeSource::ExternalModule => "module_trigger"@,
    }
}

impl RelayStateChangeSource {
    pub fn label(&self) -> (res: &'static str)
        ensures
            res@ == source_label(*self),
    {
        match self {
            RelayStateChangeSource::MqttCommand(c) => {
                if text_eq(c.as_str(), "ON") {
                    "mqtt_on"
                } else if text_eq(c.as_str(), "OFF") {
                    "mqtt_off"
                } else if text_eq(c.as_str(), "TOGGLE") {
                    "mqtt_toggle"
                } else {
                    "mqtt"
                }
            },
            RelayStateChangeSource::GpioTrigger => "gpio_trigger",
            RelayStateChangeSource::AutoOffTimer => "auto_off",
            RelayStateChangeSource::ExternalModule => "module_trigger",
        }
    }
}

/// A debounced input that reports each settled change of its level.
#[derive(Debug, Clone, Copy, PartialEq, Eq, Structural)]
pub struct DebouncedToggleInput {
    pub stable_level: bool,
    pub last_raw_level: bool,
    pub last_raw_change_at: u64,
}

/// One poll of a debounced input with the level read at time `now`: the
/// input afterwards, and whether a settled change is reported.
pub open spec fn debounce_step(d: DebouncedToggleInput, raw: bool, now: u64) -> (DebouncedToggleInput, bool) {
    if raw != d.last_raw_level {
        (DebouncedToggleInput { last_raw_level: raw, last_raw_change_at: now, ..d }, false)
    } else if raw != d.stable_level && now >= d.last_raw_change_at && now - d.last_raw_change_at >= TRIGGER_DEBOUNCE_MS {
        (DebouncedToggleInput { stable_level: raw, ..d }, true)
    } else {
        (d, false)
    }
}

impl DebouncedToggleInput {
    /// An input whose level, read at `now`, is `level`.
    pub fn new(level: bool, now: u64) -> (res: DebouncedToggleInput)
        ensures
            res == (DebouncedToggleInput { stable_level: level, last_raw_level: level, last_raw_change_at: now }),
    {
        DebouncedToggleInput { stable_level: level, last_raw_level: level, last_raw_change_at: now }
    }

    /// Takes the level read at `now`; reports a change once the level has
    /// differed from the stable level and stayed put for the debounce time.
    /// A time before the last change counts as no time elapsed.
    pub fn poll(&mut self, raw_level: bool, now: u64) -> (res: bool)
        ensures
            (*final(self), res) == debounce_step(*old(self), raw_level, now),
    {
        if raw_level != self.last_raw_level {
            self.last_raw_level = raw_level;
            self.last_raw_change_at = now;
            return false;
        }
        if raw_level != self.stable_level && now >= self.last_raw_change_at && now - self.last_raw_change_at >= TRIGGER_DEBOUNCE_MS {
            self.stable_level = raw_level;
            return true;
        }
        false
    }
}

/// The relay driver state of a GPIO switch or output module. The output pin
/// is driven high while the state is on.
#[derive(Debug)]
pub struct RelayGpioModule {
    id: String,
    settings: ModuleSettings,
    output_pin: u8,
    trigger_pin: Option<u8>,
    trigger_input: Option<DebouncedToggleInput>,
    state: DriverBinaryState,
    auto_off_deadline: Option<u64>,
}

/// A state change event by its source module id and new state.
pub struct EventView {
    pub source: Seq<char>,
    pub state: DriverBinaryState,
}

/// The spec of an event.
pub open spec fn event_view(e: ModuleEvent) -> EventView {
    EventView { source: e.source_module_id@, state: e.state }
}

/// An execution by whether the state changed and the events emitted.
pub struct ExecView {
    pub changed: bool,
    pub events: Seq<EventView>,
}

pub open spec fn exec_view(x: ModuleExecution) -> ExecView {
    ExecView { changed: x.state_changed, events: x.events@.map_values(|e: ModuleEvent| event_view(e)) }
}

pub open spec fn no_exec() -> ExecView {
    ExecView { changed: false, events: seq![] }
}

pub open spec fn flipped(s: DriverBinaryState) -> DriverBinaryState {
    match s {
        DriverBinaryState::On => DriverBinaryState::Off,
        DriverBinaryState::Off => DriverBinaryState::On,
    }
}

/// Toggling a relay twice brings it back to the state it had; its id and
/// settings stay as they were.
pub proof fn law_toggle_twice_restores_state(m: RelayGpioModule, t1: u64, t2: u64)
    ensures
        ({
            let once = m.toggle_spec(t1).0;
            let twice = once.toggle_spec(t2).0;
            &&& twice.state_spec() == m.state_spec()
            &&& twice.id_spec() == m.id_spec()
            &&& twice.auto_off_spec() == m.auto_off_spec()
            &&& twice.triggers_spec() == m.triggers_spec()
        }),
{
}

/// Driving a relay to the state it already has changes nothing and reports
/// no event: a repeated `ON` or `OFF` is published once.
pub proof fn law_repeated_state_is_quiet(m: RelayGpioModule, s: DriverBinaryState, t1: u64, t2: u64)
    ensures
        m.apply_spec(s, t1).1.changed == (m.state_spec() != s),
        m.apply_spec(s, t1).0.apply_spec(s, t2).1 == no_exec(),
{
}

/// A relay switched on with an auto-off time switches off at the first poll
/// at or after the deadline, whatever its trigger input reads.
pub proof fn law_auto_off_switches_off(m: RelayGpioModule, on_at: u64, now: u64, level: bool)
    requires
        m.auto_off_spec() is Some,
        on_at + m.auto_off_spec()->0 <= u64::MAX,
        now >= on_at + m.auto_off_spec()->0,
    ensures
        ({
            let on = m.apply_spec(DriverBinaryState::On, on_at).0;
            &&& on.deadline_spec() == Some((on_at + m.auto_off_spec()->0) as u64)
            &&& on.poll_spec(now, level).0.state_spec() == DriverBinaryState::Off
            &&& on.poll_spec(now, level).1.changed
        }),
{
}

/// A trigger input reports no change while a new level has been held for
/// less than the debounce time.
pub proof fn law_debounce_holds_back(d: DebouncedToggleInput, raw: bool, changed_at: u64, now: u64)
    requires
        raw != d.last_raw_level,
        changed_at <= now < changed_at + TRIGGER_DEBOUNCE_MS,
    ensures
        !debounce_step(d, raw, changed_at).1,
        !debounce_step(debounce_step(d, raw, changed_at).0, raw, now).1,
{
}

/// A glitch, a level that comes back before it settled, is never reported.
pub proof fn law_debounce_ignores_glitch(d: DebouncedToggleInput, t1: u64, t2: u64)
    requires
        d.last_raw_level == d.stable_level,
    ensures
        ({
            let (d1, r1) = debounce_step(d, !d.last_raw_level, t1);
            let (d2, r2) = debounce_step(d1, d.last_raw_level, t2);
            &&& !r1 && !r2
            &&& d2.stable_level == d.stable_level
        }),
{
}

/// A new level held for the debounce time is reported once, and the input
/// then rests at it.
pub proof fn law_debounce_reports_settled_change(d: DebouncedToggleInput, changed_at: u64, now: u64, later: u64)
    requires
        d.last_raw_level == d.stable_level,
        changed_at + TRIGGER_DEBOUNCE_MS <= now,
    ensures
        ({
            let raw = !d.stable_level;
            let (d1, _) = debounce_step(d, raw, changed_at);
            let (d2, r2) = debounce_step(d1, raw, now);
            let (d3, r3) = debounce_step(d2, raw, later);
            &&& r2
            &&& d2.stable_level == raw
            &&& !r3
        }),
{
}

impl RelayGpioModule {
    pub closed spec fn id_spec(self) -> Seq<char> {
        self.id@
    }

    pub closed spec fn state_spec(self) -> DriverBinaryState {
        self.state
    }

    pub closed spec fn deadline_spec(self) -> Option<u64> {
        self.auto_off_deadline
    }

    pub closed spec fn auto_off_spec(self) -> Option<u64> {
        self.settings.auto_off_ms
    }

    pub closed spec fn triggers_spec(self) -> Seq<Seq<char>> {
        self.settings@.external_on_triggers
    }

    pub closed spec fn trigger_input_spec(self) -> Option<DebouncedToggleInput> {
        self.trigger_input
    }

    pub closed spec fn output_pin_spec(self) -> u8 {
        self.output_pin
    }

    pub closed spec fn trigger_pin_spec(self) -> Option<u8> {
        self.trigger_pin
    }

    /// An auto-off deadline counted from `now` fits in a `u64`.
    pub open spec fn deadline_fits(self, now: u64) -> bool {
        self.auto_off_spec() matches Some(ms) ==> now + ms <= u64::MAX
    }

    /// The module after its state became `next` at `now`, with the
    /// auto-off deadline that the on state starts.
    pub closed spec fn with_state(self, next: DriverBinaryState, now: u64) -> RelayGpioModule {
        RelayGpioModule {
            state: next,
            auto_off_deadline: match next {
                DriverBinaryState::On => match self.settings.auto_off_ms {
                    Some(ms) => Some((now + ms) as u64),
                    None => None,
                },
                DriverBinaryState::Off => None,
            },
            ..self
        }
    }

    /// The runtime state of the module.
    pub closed spec fn runtime_spec(self) -> RelayRuntimeState {
        RelayRuntimeState { state: self.state, auto_off_deadline: self.auto_off_deadline, trigger_input: self.trigger_input }
    }

    /// The module with runtime state `r` in place of its own.
    pub closed spec fn with_runtime(self, r: RelayRuntimeState) -> RelayGpioModule {
        RelayGpioModule { state: r.state, auto_off_deadline: r.auto_off_deadline, trigger_input: r.trigger_input, ..self }
    }

    pub closed spec fn with_trigger(self, t: DebouncedToggleInput) -> RelayGpioModule {
        RelayGpioModule { trigger_input: Some(t), ..self }
    }

    /// Driving the module to `next`: the module afterwards and what it reports.
    pub open spec fn apply_spec(self, next: DriverBinaryState, now: u64) -> (RelayGpioModule, ExecView) {
        let changed = self.state_spec() != next;
        (
            self.with_state(next, now),
            if changed {
                ExecView { changed: true, events: seq![EventView { source: self.id_spec(), state: next }] }
            } else {
                no_exec()
            },
        )
    }

    pub open spec fn toggle_spec(self, now: u64) -> (RelayGpioModule, ExecView) {
        self.apply_spec(flipped(self.state_spec()), now)
    }

    /// The pin write that driving the module to `next` makes.
    pub open spec fn write_for(self, next: DriverBinaryState) -> PinWrite {
        PinWrite { pin: self.output_pin_spec(), high: next == DriverBinaryState::On }
    }

    /// Driving the module to `next`, whose output write comes after the
    /// writes `w`, the write at position `f` failing: the module afterwards,
    /// what it reports (nothing when its write failed, the module then
    /// unchanged), and the writes made.
    pub open spec fn drive(self, next: DriverBinaryState, now: u64, w: Seq<PinWrite>, f: Option<int>) -> (RelayGpioModule, Option<ExecView>, Seq<PinWrite>) {
        if f == Some(w.len() as int) {
            (self, None, w)
        } else {
            let (m, x) = self.apply_spec(next, now);
            (m, Some(x), w.push(self.write_for(next)))
        }
    }

    /// A step that drives the module to `next`, if there is one; without
    /// one the step does nothing.
    pub open spec fn step(self, next: Option<DriverBinaryState>, now: u64, w: Seq<PinWrite>, f: Option<int>) -> (RelayGpioModule, Option<ExecView>, Seq<PinWrite>) {
        match next {
            Some(s) => self.drive(s, now, w, f),
            None => (self, Some(no_exec()), w),
        }
    }

    /// The state that a command drives to: `ON`, `OFF` or, for `TOGGLE`,
    /// the other state; any other text is refused.
    pub open spec fn command_target(self, command: Seq<char>) -> Option<DriverBinaryState> {
        if command == "ON"@ {
            Some(DriverBinaryState::On)
        } else if command == "OFF"@ {
            Some(DriverBinaryState::Off)
        } else if command == "TOGGLE"@ {
            Some(flipped(self.state_spec()))
        } else {
            None
        }
    }

    /// An event of another module: a change to on by one of the external
    /// on-trigger sources toggles this module.
    pub open spec fn event_target(self, e: EventView) -> Option<DriverBinaryState> {
        if e.state == DriverBinaryState::On && self.triggers_spec().contains(e.source) {
            Some(flipped(self.state_spec()))
        } else {
            None
        }
    }

    /// A poll at `now` with the trigger input level `level`: the module
    /// with its trigger input advanced, and the state it is driven to. A
    /// reached auto-off deadline switches off; otherwise a settled change
    /// of the trigger input toggles.
    pub open spec fn poll_decision(self, now: u64, level: bool) -> (RelayGpioModule, Option<DriverBinaryState>) {
        if self.deadline_spec() matches Some(d) && now >= d {
            (self, Some(DriverBinaryState::Off))
        } else if let Some(t) = self.trigger_input_spec() {
            let (t2, fired) = debounce_step(t, level, now);
            (self.with_trigger(t2), if fired { Some(flipped(self.state_spec())) } else { None })
        } else {
            (self, None)
        }
    }

    /// A poll whose output write, if any, succeeds.
    pub open spec fn poll_spec(self, now: u64, level: bool) -> (RelayGpioModule, ExecView) {
        let (p, next) = self.poll_decision(now, level);
        match next {
            Some(s) => p.apply_spec(s, now),
            None => (p, no_exec()),
        }
    }

    /// A relay module in the off state, with no deadline and no trigger
    /// input attached yet.
    pub fn new(id: String, settings: ModuleSettings, output_pin: u8, trigger_pin: Option<u8>) -> (res: RelayGpioModule)
        ensures
            res.id_spec() == id@,
            res.state_spec() == DriverBinaryState::Off,
            res.deadline_spec() is None,
            res.auto_off_spec() == settings.auto_off_ms,
            res.triggers_spec() == settings@.external_on_triggers,
            res.output_pin_spec() == output_pin,
            res.trigger_pin_spec() == trigger_pin,
            res.trigger_input_spec() is None,
    {
        RelayGpioModule {
            id,
            settings,
            output_pin,
            trigger_pin,
            trigger_input: None,
            state: DriverBinaryState::Off,
            auto_off_deadline: None,
        }
    }

    /// Attaches the debounced trigger input, whose level read at `now` is `level`.
    pub fn attach_trigger_input(&mut self, level: bool, now: u64)
        ensures
            *final(self) == old(self).with_trigger(DebouncedToggleInput { stable_level: level, last_raw_level: level, last_raw_change_at: now }),
    {
        self.trigger_input = Some(DebouncedToggleInput::new(level, now));
    }

    pub fn id(&self) -> (res: &str)
        ensures
            res@ == self.id_spec(),
    {
        self.id.as_str()
    }

    pub fn output_pin(&self) -> (res: u8)
        ensures
            res == self.output_pin_spec(),
    {
        self.output_pin
    }

    pub fn trigger_pin(&self) -> (res: Option<u8>)
        ensures
            res == self.trigger_pin_spec(),
    {
        self.trigger_pin
    }

    pub fn binary_state(&self) -> (res: Option<DriverBinaryState>)
        ensures
            res == Some(self.state_spec()),
    {
        Some(self.state)
    }

    /// Writes the output for `next` and, when the write succeeds, takes
    /// `next` as the state, with the auto-off deadline that the on state
    /// starts; a failed write leaves the module as it was.
    fn apply_target_state(&mut self, next: DriverBinaryState, source: RelayStateChangeSource, now: u64, pins: &mut PinWrites) -> (res: Result<ModuleExecution, AppError>)
        requires
            old(self).deadline_fits(now),
        ensures
            ({
                let (m, ox, w) = old(self).drive(next, now, old(pins).made@, fail_position(old(pins).failure));
                *final(self) == m && step_outcome(res, ox, *old(pins), *final(pins), w)
            }),
    {
        match pins.write(self.output_pin, next == DriverBinaryState::On) {
            Ok(()) => {},
            Err(e) => {
                return Err(e);
            },
        }
        let state_changed = self.state != next;
        self.state = next;
        self.auto_off_deadline = match next {
            DriverBinaryState::On => match self.settings.auto_off_ms {
                Some(timeout) => Some(now + timeout),
                None => None,
            },
            DriverBinaryState::Off => None,
        };
        if !state_changed {
            let res = ModuleExecution { state_changed: false, events: Vec::new() };
            assert(exec_view(res).events =~= Seq::<EventView>::empty());
            return Ok(res);
        }
        let res = ModuleExecution {
            state_changed: true,
            events: vec![ModuleEvent { source_module_id: self.id.clone(), state: next }],
        };
        assert(exec_view(res).events =~= seq![EventView { source: self.id@, state: next }]);
        Ok(res)
    }

    fn toggle(&mut self, source: RelayStateChangeSource, now: u64, pins: &mut PinWrites) -> (res: Result<ModuleExecution, AppError>)
        requires
            old(self).deadline_fits(now),
        ensures
            ({
                let (m, ox, w) = old(self).drive(flipped(old(self).state_spec()), now, old(pins).made@, fail_position(old(pins).failure));
                *final(self) == m && step_outcome(res, ox, *old(pins), *final(pins), w)
            }),
    {
        let next = match self.state {
            DriverBinaryState::On => DriverBinaryState::Off,
            DriverBinaryState::Off => DriverBinaryState::On,
        };
        self.apply_target_state(next, source, now, pins)
    }

    /// Executes a command (`ON`, `OFF` or `TOGGLE`).
    pub fn handle_command(&mut self, command: &str, now: u64, pins: &mut PinWrites) -> (res: Result<ModuleExecution, AppError>)
        requires
            old(self).deadline_fits(now),
        ensures
            match old(self).command_target(command@) {
                Some(next) => {
                    let (m, ox, w) = old(self).drive(next, now, old(pins).made@, fail_position(old(pins).failure));
                    *final(self) == m && step_outcome(res, ox, *old(pins), *final(pins), w)
                },
                None => res matches Err(e) && is_message(e, "Unsupported command '"@ + command@ + "' for module '"@ + old(self).id_spec() + "'"@)
                    && *final(self) == *old(self) && *final(pins) == *old(pins),
            },
    {
        if text_eq(command, "ON") {
            self.apply_target_state(DriverBinaryState::On, RelayStateChangeSource::MqttCommand(crate::text::owned("ON")), now, pins)
        } else if text_eq(command, "OFF") {
            self.apply_target_state(DriverBinaryState::Off, RelayStateChangeSource::MqttCommand(crate::text::owned("OFF")), now, pins)
        } else if text_eq(command, "TOGGLE") {
            self.toggle(RelayStateChangeSource::MqttCommand(crate::text::owned("TOGGLE")), now, pins)
        } else {
            Err(AppError::Message(join5("Unsupported command '", command, "' for module '", self.id.as_str(), "'")))
        }
    }

    /// Reacts to another module's event.
    pub fn handle_event(&mut self, event: &ModuleEvent, now: u64, pins: &mut PinWrites) -> (res: Result<ModuleExecution, AppError>)
        requires
            old(self).deadline_fits(now),
        ensures
            ({
                let (m, ox, w) = old(self).step(old(self).event_target(event_view(*event)), now, old(pins).made@, fail_position(old(pins).failure));
                *final(self) == m && step_outcome(res, ox, *old(pins), *final(pins), w)
            }),
    {
        if event.state == DriverBinaryState::On {
            let n = self.settings.external_on_triggers.len();
            let mut listens = false;
            for i in 0..n
                invariant
                    n == self.settings.external_on_triggers@.len(),
                    listens == self.settings@.external_on_triggers.subrange(0, i as int).contains(event.source_module_id@),
            {
                let ghost before = self.settings@.external_on_triggers.subrange(0, i as int);
                let ghost after = self.settings@.external_on_triggers.subrange(0, i + 1);
                assert(after =~= before.push(self.settings.external_on_triggers@[i as int]@));
                if text_eq(self.settings.external_on_triggers[i].source_module_id.as_str(), event.source_module_id.as_str()) {
                    listens = true;
                }
                proof {
                    if listens {
                        if before.contains(event.source_module_id@) {
                            let x = choose|x: int| 0 <= x < before.len() && before[x] == event.source_module_id@;
                            assert(after[x] == before[x]);
                        } else {
                            assert(after[i as int] == event.source_module_id@);
                        }
                    } else {
                        assert forall|x: int| 0 <= x < after.len() implies after[x] != event.source_module_id@ by {
                            if x < i {
                                assert(after[x] == before[x]);
                            }
                        }
                    }
                }
            }
            assert(self.settings@.external_on_triggers.subrange(0, n as int) =~= self.settings@.external_on_triggers);
            if listens {
                return self.toggle(RelayStateChangeSource::ExternalModule, now, pins);
            }
        }
        let res = ModuleExecution { state_changed: false, events: Vec::new() };
        assert(exec_view(res).events =~= Seq::<EventView>::empty());
        Ok(res)
    }

    /// Polls the auto-off timer and the trigger input, whose level is `trigger_level`.
    pub fn poll(&mut self, now: u64, trigger_level: bool, pins: &mut PinWrites) -> (res: Result<ModuleExecution, AppError>)
        requires
            old(self).deadline_fits(now),
        ensures
            ({
                let (p, next) = old(self).poll_decision(now, trigger_level);
                let (m, ox, w) = p.step(next, now, old(pins).made@, fail_position(old(pins).failure));
                *final(self) == m && step_outcome(res, ox, *old(pins), *final(pins), w)
            }),
    {
        match self.auto_off_deadline {
            Some(deadline) => {
                if now >= deadline {
                    return self.apply_target_state(DriverBinaryState::Off, RelayStateChangeSource::AutoOffTimer, now, pins);
                }
            },
            None => {},
        }
        match self.trigger_input {
            Some(t) => {
                let mut t2 = t;
                let fired = t2.poll(trigger_level, now);
                self.trigger_input = Some(t2);
                if fired {
                    return self.toggle(RelayStateChangeSource::GpioTrigger, now, pins);
                }
            },
            None => {},
        }
        let res = ModuleExecution { state_changed: false, events: Vec::new() };
        assert(exec_view(res).events =~= Seq::<EventView>::empty());
        Ok(res)
    }
}

/// The modules of the running firmware, by instance id.
pub struct ModuleManager {
    modules: Vec<RelayGpioModule>,
}

/// Every module's auto-off deadline counted from `now` fits in a `u64`.
pub open spec fn all_deadlines_fit(ms: Seq<RelayGpioModule>, now: u64) -> bool {
    forall|i: int| 0 <= i < ms.len() ==> (#[trigger] ms[i]).deadline_fits(now)
}

/// The position of the first module with id `id`.
pub open spec fn module_index(ms: Seq<RelayGpioModule>, id: Seq<char>) -> Option<int>
    decreases ms.len(),
{
    if ms.len() == 0 {
        None
    } else if ms[0].id_spec() == id {
        Some(0)
    } else {
        match module_index(ms.drop_first(), id) {
            Some(i) => Some(i + 1),
            None => None,
        }
    }
}

proof fn lemma_module_index(ms: Seq<RelayGpioModule>, id: Seq<char>, i: int)
    requires
        0 <= i <= ms.len(),
        forall|j: int| 0 <= j < i ==> (#[trigger] ms[j]).id_spec() != id,
    ensures
        i < ms.len() && ms[i].id_spec() == id ==> module_index(ms, id) == Some(i),
        i == ms.len() ==> module_index(ms, id) is None,
    decreases ms.len(),
{
    if ms.len() > 0 && i > 0 {
        let t = ms.drop_first();
        assert forall|j: int| 0 <= j < i - 1 implies (#[trigger] t[j]).id_spec() != id by {
            assert(t[j] == ms[j + 1]);
        }
        lemma_module_index(t, id, i - 1);
    }
}

/// How a run of module steps ended: with every event delivered, with more
/// events than the limit, or at a failed output write.
pub enum RunEnd {
    Settled,
    Unsettled,
    WriteFailed,
}

/// Delivering event `e` to the modules from position `i` on, skipping its
/// source, the output writes coming after `w` and the one at position `f`
/// failing: the modules afterwards, the event queue with the events they
/// emit appended, the changed module ids with theirs appended, the writes
/// made, and whether no write failed. A failed write stops the delivery.
pub open spec fn deliver(
    ms: Seq<RelayGpioModule>,
    e: EventView,
    i: int,
    queue: Seq<EventView>,
    changed: Seq<Seq<char>>,
    now: u64,
    w: Seq<PinWrite>,
    f: Option<int>,
) -> (Seq<RelayGpioModule>, Seq<EventView>, Seq<Seq<char>>, Seq<PinWrite>, bool)
    decreases ms.len() - i,
{
    if i < 0 || i >= ms.len() {
        (ms, queue, changed, w, true)
    } else if ms[i].id_spec() == e.source {
        deliver(ms, e, i + 1, queue, changed, now, w, f)
    } else {
        let (m2, ox, w2) = ms[i].step(ms[i].event_target(e), now, w, f);
        match ox {
            None => (ms, queue, changed, w2, false),
            Some(x) => deliver(
                ms.update(i, m2),
                e,
                i + 1,
                queue + x.events,
                if x.changed { changed.push(ms[i].id_spec()) } else { changed },
                now,
                w2,
                f,
            ),
        }
    }
}

/// Propagating the queued events, first in first out, for at most `fuel`
/// events: the modules afterwards, the changed module ids, the writes
/// made, and how it ended.
pub open spec fn propagate(
    ms: Seq<RelayGpioModule>,
    queue: Seq<EventView>,
    changed: Seq<Seq<char>>,
    now: u64,
    fuel: nat,
    w: Seq<PinWrite>,
    f: Option<int>,
) -> (Seq<RelayGpioModule>, Seq<Seq<char>>, Seq<PinWrite>, RunEnd)
    decreases fuel,
{
    if queue.len() == 0 {
        (ms, changed, w, RunEnd::Settled)
    } else if fuel == 0 {
        (ms, changed, w, RunEnd::Unsettled)
    } else {
        let (ms2, q2, ch2, w2, ok) = deliver(ms, queue[0], 0, queue.drop_first(), changed, now, w, f);
        if !ok {
            (ms2, ch2, w2, RunEnd::WriteFailed)
        } else {
            propagate(ms2, q2, ch2, now, (fuel - 1) as nat, w2, f)
        }
    }
}

/// What a module step of module `id` with execution `x` leads to after
/// propagation: the modules, the changed ids, the writes made, and how it
/// ended.
pub open spec fn settle(ms: Seq<RelayGpioModule>, id: Seq<char>, x: ExecView, now: u64, w: Seq<PinWrite>, f: Option<int>) -> (Seq<RelayGpioModule>, Seq<Seq<char>>, Seq<PinWrite>, RunEnd) {
    propagate(ms, x.events, if x.changed { seq![id] } else { seq![] }, now, MAX_PROPAGATED_EVENTS as nat, w, f)
}

/// The message for events that did not settle.
pub open spec fn unsettled_message() -> Seq<char> {
    "Module events did not settle"@
}

/// The texts of a list of strings.
pub open spec fn id_texts(v: Seq<String>) -> Seq<Seq<char>> {
    v.map_values(|s: String| s@)
}

/// What a run returned and did to its pin writes, for a run that ended at
/// `end` with the changed ids `ch` and the writes `w` made: the ids when it
/// settled, the error of the event limit or of the failed write otherwise.
pub open spec fn run_outcome(res: Result<Vec<String>, AppError>, ch: Seq<Seq<char>>, w: Seq<PinWrite>, end: RunEnd, before: PinWrites, after: PinWrites) -> bool {
    &&& after.made@ == w
    &&& match end {
        RunEnd::Settled => res matches Ok(v) && id_texts(v@) == ch && after.failure == before.failure,
        RunEnd::Unsettled => res matches Err(e) && is_message(e, unsettled_message()) && after.failure == before.failure,
        RunEnd::WriteFailed => res == Err::<Vec<String>, AppError>(before.failure_error()),
    }
}

/// Polling the modules from position `i` on, each with its trigger level,
/// propagating the events of each before the next: the modules, the changed
/// ids, the writes made, and how it ended.
pub open spec fn poll_from(
    ms: Seq<RelayGpioModule>,
    levels: Seq<bool>,
    i: int,
    changed: Seq<Seq<char>>,
    now: u64,
    w: Seq<PinWrite>,
    f: Option<int>,
) -> (Seq<RelayGpioModule>, Seq<Seq<char>>, Seq<PinWrite>, RunEnd)
    decreases levels.len() - i,
{
    if i < 0 || i >= ms.len() || i >= levels.len() {
        (ms, changed, w, RunEnd::Settled)
    } else {
        let (p, next) = ms[i].poll_decision(now, levels[i]);
        let (m2, ox, w2) = p.step(next, now, w, f);
        match ox {
            None => (ms.update(i, m2), changed, w2, RunEnd::WriteFailed),
            Some(x) => {
                let (ms3, ch, w3, end) = settle(ms.update(i, m2), ms[i].id_spec(), x, now, w2, f);
                if !(end is Settled) {
                    (ms3, changed + ch, w3, end)
                } else {
                    poll_from(ms3, levels, i + 1, changed + ch, now, w3, f)
                }
            },
        }
    }
}

proof fn lemma_step_keeps(m: RelayGpioModule, next: Option<DriverBinaryState>, now: u64, w: Seq<PinWrite>, f: Option<int>)
    ensures
        m.step(next, now, w, f).0.id_spec() == m.id_spec(),
        m.step(next, now, w, f).0.auto_off_spec() == m.auto_off_spec(),
        m.step(next, now, w, f).0.output_pin_spec() == m.output_pin_spec(),
{
}

/// `after` holds the modules of `before`, in order, with at most their
/// runtime states changed.
pub open spec fn only_runtime_changed(before: Seq<RelayGpioModule>, after: Seq<RelayGpioModule>) -> bool {
    &&& after.len() == before.len()
    &&& forall|i: int| 0 <= i < before.len() ==> (#[trigger] after[i]).with_runtime(before[i].runtime_spec()) == before[i]
}

proof fn lemma_module_index_range(ms: Seq<RelayGpioModule>, id: Seq<char>)
    ensures
        module_index(ms, id) matches Some(i) ==> 0 <= i < ms.len(),
    decreases ms.len(),
{
    if ms.len() > 0 {
        lemma_module_index_range(ms.drop_first(), id);
    }
}

proof fn lemma_step_runtime(m: RelayGpioModule, next: Option<DriverBinaryState>, now: u64, w: Seq<PinWrite>, f: Option<int>)
    ensures
        m.step(next, now, w, f).0.with_runtime(m.runtime_spec()) == m,
{
}

proof fn lemma_only_runtime_update(before: Seq<RelayGpioModule>, mid: Seq<RelayGpioModule>, i: int, m: RelayGpioModule)
    requires
        only_runtime_changed(before, mid),
        0 <= i < mid.len(),
        m.with_runtime(mid[i].runtime_spec()) == mid[i],
    ensures
        only_runtime_changed(before, mid.update(i, m)),
{
    let after = mid.update(i, m);
    assert forall|j: int| 0 <= j < before.len() implies (#[trigger] after[j]).with_runtime(before[j].runtime_spec()) == before[j] by {
        if j == i {
            assert(mid[i].with_runtime(before[i].runtime_spec()) == before[i]);
        }
    }
}

proof fn lemma_deliver_runtime(before: Seq<RelayGpioModule>, ms: Seq<RelayGpioModule>, e: EventView, i: int, queue: Seq<EventView>, changed: Seq<Seq<char>>, now: u64, w: Seq<PinWrite>, f: Option<int>)
    requires
        only_runtime_changed(before, ms),
    ensures
        only_runtime_changed(before, deliver(ms, e, i, queue, changed, now, w, f).0),
    decreases ms.len() - i,
{
    if 0 <= i < ms.len() {
        if ms[i].id_spec() == e.source {
            lemma_deliver_runtime(before, ms, e, i + 1, queue, changed, now, w, f);
        } else {
            let (m2, ox, w2) = ms[i].step(ms[i].event_target(e), now, w, f);
            if let Some(x) = ox {
                lemma_step_runtime(ms[i], ms[i].event_target(e), now, w, f);
                lemma_only_runtime_update(before, ms, i, m2);
                lemma_deliver_runtime(before, ms.update(i, m2), e, i + 1, queue + x.events, if x.changed { changed.push(ms[i].id_spec()) } else { changed }, now, w2, f);
            }
        }
    }
}

proof fn lemma_propagate_runtime(before: Seq<RelayGpioModule>, ms: Seq<RelayGpioModule>, queue: Seq<EventView>, changed: Seq<Seq<char>>, now: u64, fuel: nat, w: Seq<PinWrite>, f: Option<int>)
    requires
        only_runtime_changed(before, ms),
    ensures
        only_runtime_changed(before, propagate(ms, queue, changed, now, fuel, w, f).0),
    decreases fuel,
{
    if queue.len() > 0 && fuel > 0 {
        lemma_deliver_runtime(before, ms, queue[0], 0, queue.drop_first(), changed, now, w, f);
        let (ms2, q2, ch2, w2, ok) = deliver(ms, queue[0], 0, queue.drop_first(), changed, now, w, f);
        if ok {
            lemma_propagate_runtime(before, ms2, q2, ch2, now, (fuel - 1) as nat, w2, f);
        }
    }
}

proof fn lemma_poll_runtime(before: Seq<RelayGpioModule>, ms: Seq<RelayGpioModule>, levels: Seq<bool>, i: int, changed: Seq<Seq<char>>, now: u64, w: Seq<PinWrite>, f: Option<int>)
    requires
        only_runtime_changed(before, ms),
    ensures
        only_runtime_changed(before, poll_from(ms, levels, i, changed, now, w, f).0),
    decreases levels.len() - i,
{
    if 0 <= i < ms.len() && i < levels.len() {
        let (p, next) = ms[i].poll_decision(now, levels[i]);
        let (m2, ox, w2) = p.step(next, now, w, f);
        lemma_step_runtime(p, next, now, w, f);
        assert(p.with_runtime(ms[i].runtime_spec()) == ms[i]);
        lemma_only_runtime_update(before, ms, i, m2);
        if let Some(x) = ox {
            lemma_propagate_runtime(before, ms.update(i, m2), x.events, if x.changed { seq![ms[i].id_spec()] } else { seq![] }, now, MAX_PROPAGATED_EVENTS as nat, w2, f);
            let (ms3, ch, w3, end) = settle(ms.update(i, m2), ms[i].id_spec(), x, now, w2, f);
            if end is Settled {
                lemma_poll_runtime(before, ms3, levels, i + 1, changed + ch, now, w3, f);
            }
        }
    }
}

/// A command whose output write succeeds leaves the module on after `ON`,
/// off after `OFF`, and in the other state after `TOGGLE`; it reports a
/// change exactly when the state changed, and writes the pin high exactly
/// when the module is on afterwards. Any other command text is refused.
pub proof fn law_commands_set_the_state(m: RelayGpioModule, command: Seq<char>, now: u64, w: Seq<PinWrite>, f: Option<int>)
    requires
        f != Some(w.len() as int),
    ensures
        (command == "ON"@ || command == "OFF"@ || command == "TOGGLE"@) <==> m.command_target(command) is Some,
        m.command_target(command) matches Some(next) ==> ({
            let (m1, ox, w1) = m.drive(next, now, w, f);
            &&& command == "ON"@ ==> m1.state_spec() == DriverBinaryState::On
            &&& command == "OFF"@ ==> m1.state_spec() == DriverBinaryState::Off
            &&& command == "TOGGLE"@ ==> m1.state_spec() != m.state_spec()
            &&& ox matches Some(x) && x.changed == (m1.state_spec() != m.state_spec())
            &&& w1 == w.push(PinWrite { pin: m.output_pin_spec(), high: m1.state_spec() == DriverBinaryState::On })
        }),
{
    reveal_strlit("ON");
    reveal_strlit("OFF");
    reveal_strlit("TOGGLE");
    assert("ON"@.len() != "OFF"@.len());
    assert("ON"@.len() != "TOGGLE"@.len());
    assert("OFF"@.len() != "TOGGLE"@.len());
}

/// An `ON` event from a module that this module lists among its external
/// on-triggers toggles it: when its output write succeeds it takes the
/// other state, whichever it had, writes its pin for that state and
/// reports the change; a second such event brings it back to the state it
/// had. An `OFF` event, or one from a module it does not list, changes
/// nothing and writes nothing.
pub proof fn law_on_trigger_event_toggles(m: RelayGpioModule, e: EventView, t1: u64, t2: u64, w: Seq<PinWrite>, f: Option<int>)
    ensures
        ({
            let (m1, ox, w1) = m.step(m.event_target(e), t1, w, f);
            let (m2, ox2, w2) = m1.step(m1.event_target(e), t2, w1, f);
            &&& (e.state == DriverBinaryState::On && m.triggers_spec().contains(e.source) && f != Some(w.len() as int)) ==> {
                &&& m1.state_spec() != m.state_spec()
                &&& ox == Some(ExecView { changed: true, events: seq![EventView { source: m.id_spec(), state: m1.state_spec() }] })
                &&& w1 == w.push(PinWrite { pin: m.output_pin_spec(), high: m1.state_spec() == DriverBinaryState::On })
                &&& f != Some(w1.len() as int) ==> (m2.state_spec() == m.state_spec() && (ox2 matches Some(x) && x.changed))
            }
            &&& !(e.state == DriverBinaryState::On && m.triggers_spec().contains(e.source)) ==> {
                &&& m1 == m
                &&& ox == Some(no_exec())
                &&& w1 == w
            }
        }),
{
}

/// A settled change of a module's trigger input, at a poll before any
/// auto-off deadline is reached, toggles the module: when its output write
/// succeeds it takes the other state, whichever it had, and reports the
/// change; the input moves on as the debounce step says. A poll whose
/// input reports no settled change, before any deadline, changes only the
/// input and writes nothing.
pub proof fn law_settled_trigger_change_toggles(m: RelayGpioModule, now: u64, level: bool, w: Seq<PinWrite>, f: Option<int>)
    requires
        m.trigger_input_spec() is Some,
        !(m.deadline_spec() matches Some(d) && now >= d),
    ensures
        ({
            let (p, next) = m.poll_decision(now, level);
            let (m1, ox, w1) = p.step(next, now, w, f);
            let (t2, fired) = debounce_step(m.trigger_input_spec()->0, level, now);
            &&& m1.trigger_input_spec() == Some(t2)
            &&& m1.id_spec() == m.id_spec()
            &&& (fired && f != Some(w.len() as int)) ==> {
                &&& m1.state_spec() != m.state_spec()
                &&& ox == Some(ExecView { changed: true, events: seq![EventView { source: m.id_spec(), state: m1.state_spec() }] })
                &&& w1 == w.push(PinWrite { pin: m.output_pin_spec(), high: m1.state_spec() == DriverBinaryState::On })
            }
            &&& !fired ==> {
                &&& m1.state_spec() == m.state_spec()
                &&& ox == Some(no_exec())
                &&& w1 == w
            }
        }),
{
}

/// Two settled changes of a module's trigger input, each at a poll before
/// any auto-off deadline is reached and each with a successful write,
/// bring the module back to the state it had.
pub proof fn law_two_settled_trigger_changes_restore(m: RelayGpioModule, t1: u64, l1: bool, t2: u64, l2: bool, w: Seq<PinWrite>)
    requires
        m.trigger_input_spec() is Some,
        !(m.deadline_spec() matches Some(d) && t1 >= d),
        debounce_step(m.trigger_input_spec()->0, l1, t1).1,
    ensures
        ({
            let (p, next) = m.poll_decision(t1, l1);
            let (m1, ox, w1) = p.step(next, t1, w, None);
            let (q, next2) = m1.poll_decision(t2, l2);
            let (m2, ox2, w2) = q.step(next2, t2, w1, None);
            (!(m1.deadline_spec() matches Some(d) && t2 >= d) && debounce_step(m1.trigger_input_spec()->0, l2, t2).1)
                ==> m2.state_spec() == m.state_spec()
        }),
{
}

/// A loaded module drives the pin that its instance binds to the schema's
/// output role, and reads its trigger input on the pin that the instance
/// binds to the schema's trigger-input role; it has no trigger input when
/// the schema has no such role or the instance binds none to it.
pub proof fn law_loaded_module_uses_bound_pins(reg: SchemaRegistry, m: ModuleInstanceConfig, r: RelayGpioModule)
    requires
        reg.module_spec(m.module_type_id@) is Some,
        is_loaded_module(reg, m, r),
    ensures
        ({
            let s = reg.module_spec(m.module_type_id@)->0;
            let bs = m.bindings@;
            &&& forall|i: int| 0 <= i < bs.len() && bs[i].role_id@ == s.output_binding@
                && (forall|j: int| 0 <= j < i ==> (#[trigger] bs[j]).role_id@ != s.output_binding@)
                ==> r.output_pin_spec() == binding_pin(#[trigger] bs[i])
            &&& s.trigger_input_binding is Some ==> forall|i: int| 0 <= i < bs.len() && bs[i].role_id@ == s.trigger_input_binding->0@
                && (forall|j: int| 0 <= j < i ==> (#[trigger] bs[j]).role_id@ != s.trigger_input_binding->0@)
                ==> r.trigger_pin_spec() == Some(binding_pin(#[trigger] bs[i]))
            &&& (s.trigger_input_binding is None || forall|i: int| 0 <= i < bs.len() ==> (#[trigger] bs[i]).role_id@ != s.trigger_input_binding->0@)
                ==> r.trigger_pin_spec() is None
        }),
{
    let s = reg.module_spec(m.module_type_id@)->0;
    let bs = m.bindings@;
    let rc = role_claims_for(m);
    assert forall|i: int| 0 <= i < bs.len() && bs[i].role_id@ == s.output_binding@
        && (forall|j: int| 0 <= j < i ==> (#[trigger] bs[j]).role_id@ != s.output_binding@)
        implies r.output_pin_spec() == binding_pin(#[trigger] bs[i]) by {
        assert forall|j: int| 0 <= j < i implies (#[trigger] rc[j]).role_id@ != s.output_binding@ by {
            assert(rc[j].role_id == bs[j].role_id);
        }
        lemma_first_role_pin(rc, s.output_binding@, i);
    }
    if let Some(t) = s.trigger_input_binding {
        assert forall|i: int| 0 <= i < bs.len() && bs[i].role_id@ == t@
            && (forall|j: int| 0 <= j < i ==> (#[trigger] bs[j]).role_id@ != t@)
            implies r.trigger_pin_spec() == Some(binding_pin(#[trigger] bs[i])) by {
            assert forall|j: int| 0 <= j < i implies (#[trigger] rc[j]).role_id@ != t@ by {
                assert(rc[j].role_id == bs[j].role_id);
            }
            lemma_first_role_pin(rc, t@, i);
        }
        if forall|i: int| 0 <= i < bs.len() ==> (#[trigger] bs[i]).role_id@ != t@ {
            assert forall|j: int| 0 <= j < rc.len() implies (#[trigger] rc[j]).role_id@ != t@ by {
                assert(rc[j].role_id == bs[j].role_id);
            }
            lemma_first_role_pin(rc, t@, rc.len() as int);
        }
    }
}

/// Whether module `m` toggles on event `e` delivered to the modules: it is
/// not the event's source, the event is a change to on, and `m` lists the
/// source among its external on-triggers.
pub open spec fn toggles_on(m: RelayGpioModule, e: EventView) -> bool {
    m.id_spec() != e.source && e.state == DriverBinaryState::On && m.triggers_spec().contains(e.source)
}

proof fn lemma_deliver_states(ms: Seq<RelayGpioModule>, e: EventView, i: int, queue: Seq<EventView>, changed: Seq<Seq<char>>, now: u64, w: Seq<PinWrite>)
    requires
        0 <= i <= ms.len(),
    ensures
        ({
            let (r, q, ch, w2, ok) = deliver(ms, e, i, queue, changed, now, w, None);
            &&& ok
            &&& r.len() == ms.len()
            &&& forall|j: int| 0 <= j < i ==> #[trigger] r[j] == ms[j]
            &&& forall|j: int| i <= j < ms.len() ==> (#[trigger] r[j]).state_spec()
                == if toggles_on(ms[j], e) { flipped(ms[j].state_spec()) } else { ms[j].state_spec() }
        }),
    decreases ms.len() - i,
{
    if i < ms.len() {
        if ms[i].id_spec() == e.source {
            lemma_deliver_states(ms, e, i + 1, queue, changed, now, w);
        } else {
            let (m2, ox, w2) = ms[i].step(ms[i].event_target(e), now, w, None);
            let x = ox->0;
            let ms2 = ms.update(i, m2);
            lemma_deliver_states(ms2, e, i + 1, queue + x.events, if x.changed { changed.push(ms[i].id_spec()) } else { changed }, now, w2);
            let r = deliver(ms, e, i, queue, changed, now, w, None).0;
            assert(r[i] == m2);
            assert forall|j: int| i <= j < ms.len() implies (#[trigger] r[j]).state_spec()
                == if toggles_on(ms[j], e) { flipped(ms[j].state_spec()) } else { ms[j].state_spec() } by {
                if j > i {
                    assert(ms2[j] == ms[j]);
                }
            }
        }
    }
}

/// Delivering an event to the modules, with every output write succeeding,
/// toggles exactly the modules that listen to it: each module other than
/// the source that lists the source among its external on-triggers takes
/// the other state when the event is a change to on; every other module
/// keeps its state.
pub proof fn law_event_toggles_exactly_its_listeners(ms: Seq<RelayGpioModule>, e: EventView, queue: Seq<EventView>, changed: Seq<Seq<char>>, now: u64, w: Seq<PinWrite>)
    ensures
        ({
            let (r, q, ch, w2, ok) = deliver(ms, e, 0, queue, changed, now, w, None);
            &&& ok
            &&& r.len() == ms.len()
            &&& forall|j: int| 0 <= j < ms.len() ==> (toggles_on(ms[j], e) ==> (#[trigger] r[j]).state_spec() != ms[j].state_spec())
            &&& forall|j: int| 0 <= j < ms.len() ==> (!toggles_on(ms[j], e) ==> (#[trigger] r[j]).state_spec() == ms[j].state_spec())
        }),
{
    lemma_deliver_states(ms, e, 0, queue, changed, now, w);
}

/// A command changes no module but in its runtime state, so putting back
/// the runtime states taken before it gives the modules back as they were,
/// whatever its output writes did.
pub proof fn law_command_changes_only_runtime_states(
    ms: Seq<RelayGpioModule>,
    module_id: Seq<char>,
    command: Seq<char>,
    now: u64,
    res: Result<Vec<String>, AppError>,
    after: Seq<RelayGpioModule>,
    pins_before: PinWrites,
    pins_after: PinWrites,
)
    requires
        execute_result(ms, module_id, command, now, res, after, pins_before, pins_after),
    ensures
        only_runtime_changed(ms, after),
{
    assert forall|i: int| 0 <= i < ms.len() implies (#[trigger] ms[i]).with_runtime(ms[i].runtime_spec()) == ms[i] by {}
    if let Some(i) = module_index(ms, module_id) {
        if let Some(next) = ms[i].command_target(command) {
            let f = fail_position(pins_before.failure);
            let (m, ox, w) = ms[i].drive(next, now, pins_before.made@, f);
            if let Some(x) = ox {
                lemma_module_index_range(ms, module_id);
                lemma_step_runtime(ms[i], Some(next), now, pins_before.made@, f);
                lemma_only_runtime_update(ms, ms, i, m);
                lemma_propagate_runtime(ms, ms.update(i, m), x.events, if x.changed { seq![module_id] } else { seq![] }, now, MAX_PROPAGATED_EVENTS as nat, w, f);
            }
        }
    }
}

/// A poll of the modules changes no module but in its runtime state, so
/// putting back the runtime states taken before it gives the modules back
/// as they were, whatever its output writes did.
pub proof fn law_poll_changes_only_runtime_states(ms: Seq<RelayGpioModule>, levels: Seq<bool>, now: u64, w: Seq<PinWrite>, f: Option<int>)
    ensures
        only_runtime_changed(ms, poll_from(ms, levels, 0, seq![], now, w, f).0),
{
    assert forall|i: int| 0 <= i < ms.len() implies (#[trigger] ms[i]).with_runtime(ms[i].runtime_spec()) == ms[i] by {}
    lemma_poll_runtime(ms, ms, levels, 0, seq![], now, w, f);
}

proof fn lemma_deliver_len(ms: Seq<RelayGpioModule>, e: EventView, i: int, queue: Seq<EventView>, changed: Seq<Seq<char>>, now: u64, w: Seq<PinWrite>, f: Option<int>)
    ensures
        deliver(ms, e, i, queue, changed, now, w, f).0.len() == ms.len(),
    decreases ms.len() - i,
{
    if 0 <= i < ms.len() {
        if ms[i].id_spec() == e.source {
            lemma_deliver_len(ms, e, i + 1, queue, changed, now, w, f);
        } else {
            let (m2, ox, w2) = ms[i].step(ms[i].event_target(e), now, w, f);
            if let Some(x) = ox {
                lemma_deliver_len(ms.update(i, m2), e, i + 1, queue + x.events, if x.changed { changed.push(ms[i].id_spec()) } else { changed }, now, w2, f);
            }
        }
    }
}

proof fn lemma_propagate_len(ms: Seq<RelayGpioModule>, queue: Seq<EventView>, changed: Seq<Seq<char>>, now: u64, fuel: nat, w: Seq<PinWrite>, f: Option<int>)
    ensures
        propagate(ms, queue, changed, now, fuel, w, f).0.len() == ms.len(),
    decreases fuel,
{
    if queue.len() > 0 && fuel > 0 {
        lemma_deliver_len(ms, queue[0], 0, queue.drop_first(), changed, now, w, f);
        let (ms2, q2, ch2, w2, ok) = deliver(ms, queue[0], 0, queue.drop_first(), changed, now, w, f);
        if ok {
            lemma_propagate_len(ms2, q2, ch2, now, (fuel - 1) as nat, w2, f);
        }
    }
}

impl ModuleManager {
    pub closed spec fn modules_spec(self) -> Seq<RelayGpioModule> {
        self.modules@
    }

    /// Whether the auto-off deadlines of all modules, counted from `now`, fit in a `u64`.
    pub open spec fn deadlines_fit(self, now: u64) -> bool {
        all_deadlines_fit(self.modules_spec(), now)
    }

    /// A manager without modules.
    pub fn empty() -> (res: ModuleManager)
        ensures
            res.modules_spec() == Seq::<RelayGpioModule>::empty(),
    {
        ModuleManager { modules: Vec::new() }
    }

    pub fn len(&self) -> (res: usize)
        ensures
            res == self.modules_spec().len(),
    {
        self.modules.len()
    }

    /// The module at position `i`.
    pub fn module_at(&self, i: usize) -> (res: &RelayGpioModule)
        requires
            i < self.modules_spec().len(),
        ensures
            *res == self.modules_spec()[i as int],
    {
        &self.modules[i]
    }

    fn find(&self, module_id: &str) -> (res: Option<usize>)
        ensures
            match res {
                Some(i) => i < self.modules@.len() && module_index(self.modules@, module_id@) == Some(i as int),
                None => module_index(self.modules@, module_id@) is None,
            },
    {
        let n = self.modules.len();
        for i in 0..n
            invariant
                n == self.modules@.len(),
                forall|j: int| 0 <= j < i ==> (#[trigger] self.modules@[j]).id_spec() != module_id@,
        {
            if text_eq(self.modules[i].id.as_str(), module_id) {
                proof {
                    lemma_module_index(self.modules@, module_id@, i as int);
                }
                return Some(i);
            }
        }
        proof {
            lemma_module_index(self.modules@, module_id@, n as int);
        }
        None
    }

    /// The state of module `module_id`.
    /// Whether every auto-off deadline counted from `now` fits in a `u64`.
    pub fn deadlines_fit_at(&self, now: u64) -> (res: bool)
        ensures
            res == self.deadlines_fit(now),
    {
        let n = self.modules.len();
        for i in 0..n
            invariant
                n == self.modules@.len(),
                forall|k: int| 0 <= k < i ==> (#[trigger] self.modules@[k]).deadline_fits(now),
        {
            match self.modules[i].settings.auto_off_ms {
                Some(ms) => {
                    if ms > u64::MAX - now {
                        return false;
                    }
                },
                None => {},
            }
        }
        true
    }

    /// The runtime state of every module, in order.
    pub fn runtime_states(&self) -> (res: Vec<RelayRuntimeState>)
        ensures
            res@.len() == self.modules_spec().len(),
            forall|i: int| 0 <= i < res@.len() ==> (#[trigger] res@[i]) == self.modules_spec()[i].runtime_spec(),
    {
        let mut res: Vec<RelayRuntimeState> = Vec::new();
        let n = self.modules.len();
        for i in 0..n
            invariant
                n == self.modules@.len(),
                res@.len() == i,
                forall|k: int| 0 <= k < i ==> (#[trigger] res@[k]) == self.modules@[k].runtime_spec(),
        {
            let m = &self.modules[i];
            res.push(RelayRuntimeState { state: m.state, auto_off_deadline: m.auto_off_deadline, trigger_input: m.trigger_input });
        }
        res
    }

    /// Puts back the runtime states `states`, one per module in order.
    pub fn restore_runtime_states(&mut self, states: &Vec<RelayRuntimeState>)
        requires
            states@.len() == old(self).modules_spec().len(),
        ensures
            final(self).modules_spec().len() == old(self).modules_spec().len(),
            forall|i: int| 0 <= i < states@.len() ==> (#[trigger] final(self).modules_spec()[i]) == old(self).modules_spec()[i].with_runtime(states@[i]),
    {
        let n = self.modules.len();
        for i in 0..n
            invariant
                n == self.modules@.len(),
                n == states@.len(),
                forall|k: int| 0 <= k < i ==> (#[trigger] self.modules@[k]) == old(self).modules@[k].with_runtime(states@[k]),
                forall|k: int| i <= k < n ==> (#[trigger] self.modules@[k]) == old(self).modules@[k],
        {
            let r = states[i];
            let ghost before = self.modules@;
            let mut m = self.modules.remove(i);
            m.state = r.state;
            m.auto_off_deadline = r.auto_off_deadline;
            m.trigger_input = r.trigger_input;
            self.modules.insert(i, m);
            proof {
                assert(self.modules@ =~= before.update(i as int, m));
                assert(m == old(self).modules@[i as int].with_runtime(states@[i as int]));
            }
        }
    }

    /// The state that a module publishes on its state topic, or the error
    /// for a module that is not loaded.
    pub fn state_to_publish(&self, module_id: &str) -> (res: Result<DriverBinaryState, AppError>)
        ensures
            match module_index(self.modules_spec(), module_id@) {
                Some(i) => res == Ok::<DriverBinaryState, AppError>(self.modules_spec()[i].state_spec()),
                None => res matches Err(e) && is_message(e, "Unknown module '"@ + module_id@ + "'"@),
            },
    {
        match self.find(module_id) {
            Some(i) => Ok(self.modules[i].state),
            None => Err(AppError::Message(join3("Unknown module '", module_id, "'"))),
        }
    }

    pub fn binary_state(&self, module_id: &str) -> (res: Option<DriverBinaryState>)
        ensures
            res == match module_index(self.modules_spec(), module_id@) {
                Some(i) => Some(self.modules_spec()[i].state_spec()),
                None => None,
            },
    {
        match self.find(module_id) {
            Some(i) => self.modules[i].binary_state(),
            None => None,
        }
    }

    /// Attaches the trigger input, with its level read at `now`, to the module at position `i`.
    pub fn attach_trigger_input(&mut self, i: usize, level: bool, now: u64)
        requires
            i < old(self).modules_spec().len(),
        ensures
            final(self).modules_spec() == old(self).modules_spec().update(
                i as int,
                old(self).modules_spec()[i as int].with_trigger(DebouncedToggleInput { stable_level: level, last_raw_level: level, last_raw_change_at: now }),
            ),
    {
        let mut m = self.modules.remove(i);
        m.attach_trigger_input(level, now);
        self.modules.insert(i, m);
        proof {
            assert(self.modules@ =~= old(self).modules@.update(
                i as int,
                old(self).modules@[i as int].with_trigger(DebouncedToggleInput { stable_level: level, last_raw_level: level, last_raw_change_at: now }),
            ));
        }
    }

    fn deliver_event(&mut self, event: &ModuleEvent, queue: &mut Vec<ModuleEvent>, changed: &mut Vec<String>, now: u64, pins: &mut PinWrites) -> (res: Result<(), AppError>)
        requires
            all_deadlines_fit(old(self).modules@, now),
        ensures
            all_deadlines_fit(final(self).modules@, now),
            ({
                let (ms, q, ch, w, ok) = deliver(old(self).modules@, event_view(*event), 0, old(queue)@.map_values(|e: ModuleEvent| event_view(e)), id_texts(old(changed)@), now, old(pins).made@, fail_position(old(pins).failure));
                &&& final(self).modules@ == ms
                &&& final(pins).made@ == w
                &&& ok ==> res is Ok && final(queue)@.map_values(|e: ModuleEvent| event_view(e)) == q && id_texts(final(changed)@) == ch && final(pins).failure == old(pins).failure
                &&& !ok ==> res == Err::<(), AppError>(old(pins).failure_error())
            }),
    {
        let ghost ev = event_view(*event);
        let ghost f = fail_position(pins.failure);
        let ghost p0 = *pins;
        let ghost start = deliver(self.modules@, ev, 0, queue@.map_values(|e: ModuleEvent| event_view(e)), id_texts(changed@), now, pins.made@, f);
        let n = self.modules.len();
        for i in 0..n
            invariant
                n == self.modules@.len(),
                ev == event_view(*event),
                all_deadlines_fit(self.modules@, now),
                f == fail_position(pins.failure),
                pins.failure == p0.failure,
                p0 == *old(pins),
                start == deliver(old(self).modules@, ev, 0, old(queue)@.map_values(|e: ModuleEvent| event_view(e)), id_texts(old(changed)@), now, old(pins).made@, f),
                start == deliver(self.modules@, ev, i as int, queue@.map_values(|e: ModuleEvent| event_view(e)), id_texts(changed@), now, pins.made@, f),
        {
            if !text_eq(self.modules[i].id.as_str(), event.source_module_id.as_str()) {
                let ghost before_ms = self.modules@;
                let ghost before_q = queue@.map_values(|e: ModuleEvent| event_view(e));
                let ghost before_ch = id_texts(changed@);
                let ghost before_w = pins.made@;
                let mut m = self.modules.remove(i);
                assert(m == before_ms[i as int]);
                let r = m.handle_event(event, now, pins);
                proof {
                    lemma_step_keeps(before_ms[i as int], before_ms[i as int].event_target(ev), now, before_w, f);
                }
                let x = match r {
                    Ok(x) => x,
                    Err(e) => {
                        self.modules.insert(i, m);
                        assert(self.modules@ =~= before_ms.update(i as int, m));
                        let ghost st = before_ms[i as int].step(before_ms[i as int].event_target(ev), now, before_w, f);
                        assert(st.1 is None);
                        assert(st.0 == before_ms[i as int]);
                        assert(pins.made@ == st.2);
                        assert(start == deliver(before_ms, ev, i as int, before_q, before_ch, now, before_w, f));
                        assert(deliver(before_ms, ev, i as int, before_q, before_ch, now, before_w, f) == (before_ms, before_q, before_ch, st.2, false));
                        assert(self.modules@ =~= before_ms);
                        return Err(e);
                    },
                };
                if x.state_changed {
                    changed.push(m.id.clone());
                }
                let k = x.events.len();
                for j in 0..k
                    invariant
                        k == x.events@.len(),
                        queue@.map_values(|e: ModuleEvent| event_view(e)) == before_q + exec_view(x).events.subrange(0, j as int),
                {
                    let e = &x.events[j];
                    let ne = ModuleEvent { source_module_id: e.source_module_id.clone(), state: e.state };
                    let ghost q0 = queue@;
                    queue.push(ne);
                    proof {
                        assert(event_view(ne) == exec_view(x).events[j as int]);
                        assert(queue@.map_values(|e: ModuleEvent| event_view(e)) =~= q0.map_values(|e: ModuleEvent| event_view(e)).push(event_view(ne)));
                        assert(exec_view(x).events.subrange(0, j + 1) =~= exec_view(x).events.subrange(0, j as int).push(event_view(ne)));
                        assert(queue@.map_values(|e: ModuleEvent| event_view(e)) =~= before_q + exec_view(x).events.subrange(0, j + 1));
                    }
                }
                assert(exec_view(x).events.subrange(0, k as int) =~= exec_view(x).events);
                self.modules.insert(i, m);
                proof {
                    assert(self.modules@ =~= before_ms.update(i as int, m));
                    if x.state_changed {
                        assert(id_texts(changed@) =~= before_ch.push(before_ms[i as int].id_spec()));
                    }
                    assert forall|j: int| 0 <= j < self.modules@.len() implies (#[trigger] self.modules@[j]).deadline_fits(now) by {
                        if j != i {
                            assert(self.modules@[j] == before_ms[j]);
                        }
                    }
                }
            }
        }
        Ok(())
    }

    /// Propagates the execution of module `source_module_id` to the other
    /// modules: each emitted event is delivered, first in first out, to
    /// every module but its source; the ids of all modules whose state
    /// changed are returned in order. More than the event limit is an error,
    /// and so is a failed output write.
    fn collect_changed_modules(&mut self, source_module_id: &str, execution: ModuleExecution, now: u64, pins: &mut PinWrites) -> (res: Result<Vec<String>, AppError>)
        requires
            all_deadlines_fit(old(self).modules@, now),
        ensures
            all_deadlines_fit(final(self).modules@, now),
            ({
                let (ms, ch, w, end) = settle(old(self).modules@, source_module_id@, exec_view(execution), now, old(pins).made@, fail_position(old(pins).failure));
                &&& final(self).modules@ == ms
                &&& run_outcome(res, ch, w, end, *old(pins), *final(pins))
            }),
    {
        let mut changed: Vec<String> = Vec::new();
        if execution.state_changed {
            changed.push(crate::text::owned(source_module_id));
        }
        let ghost x = exec_view(execution);
        let ghost f = fail_position(pins.failure);
        let ghost p0 = *pins;
        let ghost goal = settle(self.modules@, source_module_id@, x, now, pins.made@, f);
        assert(id_texts(changed@) =~= (if x.changed { seq![source_module_id@] } else { Seq::<Seq<char>>::empty() }));
        let mut queue = execution.events;
        let mut head: usize = 0;
        let mut steps: u64 = 0;
        assert(queue@.subrange(0, queue@.len() as int) =~= queue@);
        assert(queue@.map_values(|e: ModuleEvent| event_view(e)) =~= x.events);
        while head < queue.len()
            invariant
                0 <= head <= queue@.len(),
                steps <= MAX_PROPAGATED_EVENTS,
                all_deadlines_fit(self.modules@, now),
                f == fail_position(pins.failure),
                pins.failure == p0.failure,
                p0 == *old(pins),
                goal == propagate(self.modules@, queue@.subrange(head as int, queue@.len() as int).map_values(|e: ModuleEvent| event_view(e)), id_texts(changed@), now, (MAX_PROPAGATED_EVENTS - steps) as nat, pins.made@, f),
                goal == settle(old(self).modules@, source_module_id@, x, now, p0.made@, f),
                x == exec_view(execution),
            decreases MAX_PROPAGATED_EVENTS - steps,
        {
            if steps == MAX_PROPAGATED_EVENTS {
                let ghost rest = queue@.subrange(head as int, queue@.len() as int).map_values(|e: ModuleEvent| event_view(e));
                assert(rest.len() > 0);
                assert(propagate(self.modules@, rest, id_texts(changed@), now, 0, pins.made@, f) == (self.modules@, id_texts(changed@), pins.made@, RunEnd::Unsettled));
                return Err(AppError::Message(crate::text::owned("Module events did not settle")));
            }
            let ghost rest = queue@.subrange(head as int, queue@.len() as int).map_values(|e: ModuleEvent| event_view(e));
            let event = ModuleEvent { source_module_id: queue[head].source_module_id.clone(), state: queue[head].state };
            assert(event_view(event) == rest[0]);
            let ghost qlen = queue@.len();
            let mut tail: Vec<ModuleEvent> = queue.split_off(head + 1);
            let ghost tail0 = tail@;
            assert(tail0.map_values(|e: ModuleEvent| event_view(e)) =~= rest.drop_first());
            match self.deliver_event(&event, &mut tail, &mut changed, now, pins) {
                Ok(()) => {},
                Err(e) => {
                    return Err(e);
                },
            }
            head = 0;
            steps = steps + 1;
            queue = tail;
            assert(queue@.subrange(0, queue@.len() as int) =~= queue@);
        }
        proof {
            assert(queue@.subrange(head as int, queue@.len() as int).map_values(|e: ModuleEvent| event_view(e)) =~= Seq::<EventView>::empty());
        }
        Ok(changed)
    }

    /// Executes `command` on module `module_id` and propagates the result.
    ///
    /// The events of a module step propagate for at most
    /// `MAX_PROPAGATED_EVENTS` events: with more still queued, the step stops
    /// with the error "Module events did not settle", keeping the states
    /// reached so far. Modules that
    /// trigger each other in a ring would otherwise propagate forever.
    pub fn execute_command(&mut self, module_id: &str, command: &str, now: u64, pins: &mut PinWrites) -> (res: Result<Vec<String>, AppError>)
        requires
            old(self).deadlines_fit(now),
        ensures
            final(self).deadlines_fit(now),
            execute_result(old(self).modules_spec(), module_id@, command@, now, res, final(self).modules_spec(), *old(pins), *final(pins)),
    {
        let i = match self.find(module_id) {
            Some(i) => i,
            None => {
                return Err(AppError::Message(join3("Unknown module '", module_id, "'")));
            },
        };
        let ghost before = self.modules@;
        let ghost w0 = pins.made@;
        let ghost f = fail_position(pins.failure);
        let mut m = self.modules.remove(i);
        assert(m == before[i as int]);
        let r = m.handle_command(command, now, pins);
        self.modules.insert(i, m);
        match r {
            Err(e) => {
                assert(self.modules@ =~= before.update(i as int, m));
                assert(self.modules@ =~= before);
                Err(e)
            },
            Ok(x) => {
                assert(self.modules@ =~= before.update(i as int, m));
                proof {
                    lemma_step_keeps(before[i as int], before[i as int].command_target(command@), now, w0, f);
                }
                assert forall|j: int| 0 <= j < self.modules@.len() implies (#[trigger] self.modules@[j]).deadline_fits(now) by {
                    if j != i {
                        assert(self.modules@[j] == before[j]);
                    }
                }
                self.collect_changed_modules(module_id, x, now, pins)
            },
        }
    }

    /// Polls every module in order with its trigger input level, propagating
    /// each module's events before polling the next.
    ///
    /// The events of a module step propagate for at most
    /// `MAX_PROPAGATED_EVENTS` events: with more still queued, the step stops
    /// with the error "Module events did not settle", keeping the states
    /// reached so far. Modules that
    /// trigger each other in a ring would otherwise propagate forever.
    pub fn poll_changes(&mut self, now: u64, trigger_levels: &Vec<bool>, pins: &mut PinWrites) -> (res: Result<Vec<String>, AppError>)
        requires
            old(self).deadlines_fit(now),
            trigger_levels@.len() == old(self).modules_spec().len(),
        ensures
            final(self).deadlines_fit(now),
            ({
                let (ms, ch, w, end) = poll_from(old(self).modules_spec(), trigger_levels@, 0, seq![], now, old(pins).made@, fail_position(old(pins).failure));
                &&& final(self).modules_spec() == ms
                &&& run_outcome(res, ch, w, end, *old(pins), *final(pins))
            }),
    {
        let mut changed: Vec<String> = Vec::new();
        let ghost f = fail_position(pins.failure);
        let ghost p0 = *pins;
        let ghost goal = poll_from(self.modules@, trigger_levels@, 0, seq![], now, pins.made@, f);
        assert(id_texts(changed@) =~= Seq::<Seq<char>>::empty());
        let n = self.modules.len();
        for i in 0..n
            invariant
                n == trigger_levels@.len(),
                self.modules@.len() == n,
                all_deadlines_fit(self.modules@, now),
                f == fail_position(pins.failure),
                pins.failure == p0.failure,
                p0 == *old(pins),
                goal == poll_from(self.modules@, trigger_levels@, i as int, id_texts(changed@), now, pins.made@, f),
                goal == poll_from(old(self).modules_spec(), trigger_levels@, 0, seq![], now, p0.made@, f),
        {
            let ghost before = self.modules@;
            let ghost w0 = pins.made@;
            let mut m = self.modules.remove(i);
            assert(m == before[i as int]);
            let r = m.poll(now, trigger_levels[i], pins);
            let id = m.id.clone();
            self.modules.insert(i, m);
            assert(self.modules@ =~= before.update(i as int, m));
            let ghost pd = before[i as int].poll_decision(now, trigger_levels@[i as int]);
            proof {
                lemma_step_keeps(pd.0, pd.1, now, w0, f);
            }
            assert forall|j: int| 0 <= j < self.modules@.len() implies (#[trigger] self.modules@[j]).deadline_fits(now) by {
                if j != i {
                    assert(self.modules@[j] == before[j]);
                }
            }
            let x = match r {
                Ok(x) => x,
                Err(e) => {
                    return Err(e);
                },
            };
            let ghost before_changed = id_texts(changed@);
            let ghost px = exec_view(x);
            let ghost w2 = pins.made@;
            proof {
                lemma_propagate_len(self.modules@, px.events, if px.changed { seq![id@] } else { seq![] }, now, MAX_PROPAGATED_EVENTS as nat, w2, f);
                assert(m.id_spec() == before[i as int].id_spec());
                assert(id@ == before[i as int].id_spec());
            }
            match self.collect_changed_modules(id.as_str(), x, now, pins) {
                Ok(more) => {
                    let k = more.len();
                    for j in 0..k
                        invariant
                            k == more@.len(),
                            id_texts(changed@) == before_changed + id_texts(more@).subrange(0, j as int),
                    {
                        let c = more[j].clone();
                        let ghost c0 = changed@;
                        changed.push(c);
                        proof {
                            assert(id_texts(changed@) =~= id_texts(c0).push(c@));
                            assert(id_texts(more@).subrange(0, j + 1) =~= id_texts(more@).subrange(0, j as int).push(c@));
                            assert(id_texts(changed@) =~= before_changed + id_texts(more@).subrange(0, j + 1));
                        }
                    }
                    assert(id_texts(more@).subrange(0, k as int) =~= id_texts(more@));
                },
                Err(e) => {
                    return Err(e);
                },
            }
        }
        Ok(changed)
    }
}

/// The outcome of claiming the pins of module instance `m` on top of
/// `claims`, and the claims afterwards.
pub open spec fn claim_outcome(board: BoardProfile, reg: SchemaRegistry, claims: Seq<RuntimeClaim>, m: ModuleInstanceConfig) -> (Result<(), Seq<char>>, Seq<RuntimeClaim>) {
    match module_board_check(board, reg, m) {
        Err(e) => (Err(e), claims),
        Ok(()) => match first_conflict_from(claims, m, 0) {
            Some(b) => {
                let pin = binding_pin(m.bindings@[b]);
                (Err(already_claimed_message(pin, first_claim_of(claims + claims_for(m, b), pin)->0)), claims + claims_for(m, b))
            },
            None => (Ok(()), claims + claims_for(m, m.bindings@.len() as int)),
        },
    }
}

/// The trigger pin a module instance gets: the pin bound to its schema's
/// trigger input role, when the schema has one.
pub open spec fn trigger_pin_for(s: ModuleTypeSchema, m: ModuleInstanceConfig) -> Option<u8> {
    match s.trigger_input_binding {
        Some(t) => first_role_pin(role_claims_for(m), t@),
        None => None,
    }
}

/// Loading the module instances from position `k` on: the outcome and the
/// claims afterwards. Each instance needs a known module schema, its pins
/// claimed, a pin for the schema's output role and the relay driver.
pub open spec fn load_from(board: BoardProfile, reg: SchemaRegistry, claims: Seq<RuntimeClaim>, ms: Seq<ModuleInstanceConfig>, k: int) -> (Result<(), Seq<char>>, Seq<RuntimeClaim>)
    decreases ms.len() - k,
{
    if k < 0 || k >= ms.len() {
        (Ok(()), claims)
    } else {
        let m = ms[k];
        match reg.module_spec(m.module_type_id@) {
            None => (Err("Unknown module schema '"@ + m.module_type_id@ + "'"@), claims),
            Some(s) => {
                let (r, c2) = claim_outcome(board, reg, claims, m);
                match r {
                    Err(e) => (Err(e), c2),
                    Ok(()) => if first_role_pin(role_claims_for(m), s.output_binding@) is None {
                        (Err("Module '"@ + m.id@ + "' is missing claimed output pin '"@ + s.output_binding@ + "'"@), c2)
                    } else if s.runtime_driver@ != "relay_gpio"@ {
                        (Err("Unsupported runtime driver '"@ + s.runtime_driver@ + "' for module '"@ + m.id@ + "'"@), c2)
                    } else {
                        load_from(board, reg, c2, ms, k + 1)
                    },
                }
            },
        }
    }
}

/// The instance each loaded module comes from, after the instances before
/// position `k`: a later instance with the id of an earlier one takes its place.
pub open spec fn module_slots(ms: Seq<ModuleInstanceConfig>, k: int) -> Seq<int>
    decreases k,
{
    if k <= 0 {
        seq![]
    } else {
        let s = module_slots(ms, k - 1);
        let ids = s.map_values(|j: int| ms[j].id@);
        match first_index_of(ids, ms[k - 1].id@) {
            Some(j) => s.update(j, k - 1),
            None => s.push(k - 1),
        }
    }
}

/// Whether module `r` is the freshly loaded module of instance `m`.
pub open spec fn is_loaded_module(reg: SchemaRegistry, m: ModuleInstanceConfig, r: RelayGpioModule) -> bool {
    let s = reg.module_spec(m.module_type_id@)->0;
    &&& r.id_spec() == m.id@
    &&& r.state_spec() == DriverBinaryState::Off
    &&& r.deadline_spec() is None
    &&& r.auto_off_spec() == m.settings.auto_off_ms
    &&& r.triggers_spec() == m.settings@.external_on_triggers
    &&& Some(r.output_pin_spec()) == first_role_pin(role_claims_for(m), s.output_binding@)
    &&& r.trigger_pin_spec() == trigger_pin_for(s, m)
    &&& r.trigger_input_spec() is None
}

impl ModuleManager {
    /// Loads the module instances of a configuration: claims their pins
    /// and creates a relay module for each, in configuration order.
    pub fn load(config: &ResourceConfig, gpio_manager: &mut GpioManager, schemas: &SchemaRegistry) -> (res: Result<ModuleManager, AppError>)
        requires
            old(gpio_manager).wf(),
        ensures
            final(gpio_manager).wf(),
            final(gpio_manager).board_spec() == old(gpio_manager).board_spec(),
            ({
                let (r, claims) = load_from(old(gpio_manager).board_spec(), *schemas, old(gpio_manager).claims_spec(), config.module_instances@, 0);
                let slots = module_slots(config.module_instances@, config.module_instances@.len() as int);
                &&& final(gpio_manager).claims_spec() == claims
                &&& r matches Err(e) ==> (res matches Err(x) && is_message(x, e))
                &&& r is Ok ==> (res matches Ok(mgr) && mgr.modules_spec().len() == slots.len() && forall|j: int| 0 <= j < slots.len() ==> is_loaded_module(*schemas, config.module_instances@[slots[j]], #[trigger] mgr.modules_spec()[j]))
            }),
    {
        let ms = &config.module_instances;
        let n = config.module_instances.len();
        let mut modules: Vec<RelayGpioModule> = Vec::new();
        let ghost board = gpio_manager.board_spec();
        for k in 0..n
            invariant
                n == config.module_instances@.len(),
                gpio_manager.wf(),
                gpio_manager.board_spec() == board,
                board == old(gpio_manager).board_spec(),
                load_from(board, *schemas, old(gpio_manager).claims_spec(), config.module_instances@, 0) == load_from(board, *schemas, gpio_manager.claims_spec(), config.module_instances@, k as int),
                modules@.len() == module_slots(config.module_instances@, k as int).len(),
                forall|j: int| 0 <= j < modules@.len() ==> is_loaded_module(*schemas, config.module_instances@[module_slots(config.module_instances@, k as int)[j]], #[trigger] modules@[j]),
        {
            let instance = &config.module_instances[k];
            let schema = match schemas.lookup_module_type_required(instance.module_type_id.as_str()) {
                Ok(s) => s,
                Err(e) => {
                    return Err(e);
                },
            };
            let claimed = match gpio_manager.claim_module_instance(instance, schemas) {
                Ok(c) => c,
                Err(e) => {
                    return Err(e);
                },
            };
            let output_pin = match claimed.pin_for_schema_role(schema.output_binding.as_str()) {
                Some(p) => p,
                None => {
                    return Err(AppError::Message(join5("Module '", claimed.module_id(), "' is missing claimed output pin '", schema.output_binding.as_str(), "'")));
                },
            };
            let trigger_pin = match &schema.trigger_input_binding {
                Some(binding_id) => claimed.pin_for_schema_role(binding_id.as_str()),
                None => None,
            };
            if !text_eq(schema.runtime_driver.as_str(), "relay_gpio") {
                return Err(AppError::Message(join5("Unsupported runtime driver '", schema.runtime_driver.as_str(), "' for module '", instance.id.as_str(), "'")));
            }
            let module = RelayGpioModule::new(instance.id.clone(), instance.settings.duplicate(), output_pin, trigger_pin);
            let ghost slots = module_slots(config.module_instances@, k as int);
            let ghost ids = slots.map_values(|j: int| config.module_instances@[j].id@);
            let mut found: Option<usize> = None;
            let m = modules.len();
            for j in 0..m
                invariant
                    m == modules@.len(),
                    m == slots.len(),
                    ids == slots.map_values(|j: int| config.module_instances@[j].id@),
                    forall|q: int| 0 <= q < m ==> (#[trigger] modules@[q]).id_spec() == ids[q],
                    found is None ==> forall|q: int| 0 <= q < j ==> ids[q] != instance.id@,
                    found matches Some(f) ==> f < m && ids[f as int] == instance.id@ && forall|q: int| 0 <= q < f ==> ids[q] != instance.id@,
            {
                if found.is_none() && text_eq(modules[j].id.as_str(), instance.id.as_str()) {
                    found = Some(j);
                }
            }
            let ghost old_modules = modules@;
            match found {
                Some(f) => {
                    proof {
                        lemma_first_index_of_at(ids, instance.id@, f as int);
                    }
                    modules.set(f, module);
                },
                None => {
                    proof {
                        lemma_first_index_of(ids, instance.id@);
                        if let Some(q) = first_index_of(ids, instance.id@) {
                            assert(ids[q] != instance.id@);
                        }
                    }
                    modules.push(module);
                },
            }
            proof {
                let next = module_slots(config.module_instances@, k + 1);
                assert(config.module_instances@[k as int] == *instance);
                match found {
                    Some(f) => {
                        assert(next == slots.update(f as int, k as int));
                        assert forall|j: int| 0 <= j < modules@.len() implies is_loaded_module(*schemas, config.module_instances@[next[j]], #[trigger] modules@[j]) by {
                            if j == f {
                                assert(next[j] == k);
                            } else {
                                assert(modules@[j] == old_modules[j]);
                                assert(next[j] == slots[j]);
                            }
                        }
                    },
                    None => {
                        assert(next == slots.push(k as int));
                        assert forall|j: int| 0 <= j < modules@.len() implies is_loaded_module(*schemas, config.module_instances@[next[j]], #[trigger] modules@[j]) by {
                            if j == m {
                                assert(next[j] == k);
                            } else {
                                assert(modules@[j] == old_modules[j]);
                                assert(next[j] == slots[j]);
                            }
                        }
                    },
                }
            }
        }
        Ok(ModuleManager { modules })
    }
}

/// What executing `command` on module `module_id` does: an unknown module or
/// an unsupported command is an error that changes nothing; otherwise the
/// module steps and its events propagate.
pub open spec fn execute_result(
    ms: Seq<RelayGpioModule>,
    module_id: Seq<char>,
    command: Seq<char>,
    now: u64,
    res: Result<Vec<String>, AppError>,
    after: Seq<RelayGpioModule>,
    pins_before: PinWrites,
    pins_after: PinWrites,
) -> bool {
    match module_index(ms, module_id) {
        None => res matches Err(e) && is_message(e, "Unknown module '"@ + module_id + "'"@) && after == ms && pins_after == pins_before,
        Some(i) => match ms[i].command_target(command) {
            None => res matches Err(e) && is_message(e, "Unsupported command '"@ + command + "' for module '"@ + ms[i].id_spec() + "'"@)
                && after == ms && pins_after == pins_before,
            Some(next) => {
                let (m, ox, w) = ms[i].drive(next, now, pins_before.made@, fail_position(pins_before.failure));
                match ox {
                    None => after == ms && pins_after.made@ == w && res == Err::<Vec<String>, AppError>(pins_before.failure_error()),
                    Some(x) => {
                        let (ms2, ch, w2, end) = settle(ms.update(i, m), module_id, x, now, w, fail_position(pins_before.failure));
                        &&& after == ms2
                        &&& run_outcome(res, ch, w2, end, pins_before, pins_after)
                    },
                }
            },
        },
    }
}

/// The command text of a module command payload: the payload as UTF-8,
/// trimmed and upper-cased.
pub open spec fn module_command_text(payload: Seq<u8>) -> Result<Seq<char>, ErrorView> {
    if vstd::utf8::valid_utf8(payload) {
        Ok(spec_to_uppercase(trimmed(vstd::utf8::decode_utf8(payload))))
    } else {
        Err(ErrorView::Utf8(spec_utf8_error_text(payload)))
    }
}

impl ModuleManager {
    /// Executes a module command: its payload, as UTF-8 text, trimmed and
    /// upper-cased, is the command.
    ///
    /// The events of a module step propagate for at most
    /// `MAX_PROPAGATED_EVENTS` events: with more still queued, the step stops
    /// with the error "Module events did not settle", keeping the states
    /// reached so far. Modules that
    /// trigger each other in a ring would otherwise propagate forever.
    pub fn handle_command(&mut self, command: &ModuleCommand, now: u64, pins: &mut PinWrites) -> (res: Result<Vec<String>, AppError>)
        requires
            old(self).deadlines_fit(now),
        ensures
            final(self).deadlines_fit(now),
            match module_command_text(command.payload@) {
                Err(ev) => res matches Err(e) && error_view(e) == ev && final(self).modules_spec() == old(self).modules_spec() && *final(pins) == *old(pins),
                Ok(text) => execute_result(old(self).modules_spec(), command.module_id@, text, now, res, final(self).modules_spec(), *old(pins), *final(pins)),
            },
    {
        let text = match utf8_text(command.payload.as_slice()) {
            Ok(t) => t,
            Err(t) => {
                return Err(AppError::Utf8(t));
            },
        };
        let command_text = to_uppercase(trim(text));
        self.execute_command(command.module_id.as_str(), command_text.as_str(), now, pins)
    }
}

} // verus!
