//! The onboard LED's patterns: what it shows for each runtime state, as a
//! sequence of timed on and off steps that the LED driver plays.

use std::sync::atomic::{AtomicBool, Ordering};
use std::sync::Arc;

use vstd::prelude::*;

use crate::runtime::{DegradedReason, OperationalStatus, RuntimeState};

verus! {

#[derive(Debug, Clone, Copy, PartialEq, Eq, Structural)]
pub enum IndicatorMode {
    Off,
    State(RuntimeState),
}

/// One step of a pattern: the LED on or off for a time, in milliseconds.
#[derive(Debug, Clone, Copy, PartialEq, Eq, Structural)]
pub struct LedStep {
    pub on: bool,
    pub duration_ms: u32,
}

/// How often a degraded state flashes, by its reason.
pub open spec fn flashes_for(reason: DegradedReason) -> nat {
    match reason {
        DegradedReason::WifiDisconnected => 2,
        DegradedReason::MqttDisconnected => 4,
        DegradedReason::Unknown => 8,
    }
}

pub open spec fn step(on: bool, duration_ms: u32) -> LedStep {
    LedStep { on, duration_ms }
}

/// A pause of two seconds dark, then `n` flashes of 200 ms on and 200 ms off.
pub open spec fn error_pattern(n: nat) -> Seq<LedStep> {
    seq![step(false, 2000)] + Seq::new(2 * n, |i: int| step(i % 2 == 0, 200))
}

/// The steps that the LED plays, once, for a mode: off and solid hold for
/// 200 ms, provisioning blinks fast, connecting blinks slowly, and a degraded
/// state flashes its reason.
pub open spec fn pattern_for(mode: IndicatorMode) -> Seq<LedStep> {
    match mode {
        IndicatorMode::Off => seq![step(false, 200)],
        IndicatorMode::State(s) => match s.status {
            OperationalStatus::Provisioning => seq![step(true, 120), step(false, 120)],
            OperationalStatus::Operational => if s.action is Some {
                seq![step(true, 500), step(false, 500)]
            } else {
                seq![step(true, 200)]
            },
            OperationalStatus::Degraded => error_pattern(flashes_for(
                match s.reason {
                    Some(r) => r,
                    None => DegradedReason::Unknown,
                },
            )),
        },
    }
}

/// The steps of the pattern for `mode`.
pub fn indicator_steps(mode: IndicatorMode) -> (res: Vec<LedStep>)
    ensures
        res@ == pattern_for(mode),
{
    match mode {
        IndicatorMode::Off => vec![LedStep { on: false, duration_ms: 200 }],
        IndicatorMode::State(s) => match s.status {
            OperationalStatus::Provisioning => vec![
                LedStep { on: true, duration_ms: 120 },
                LedStep { on: false, duration_ms: 120 },
            ],
            OperationalStatus::Operational => match s.action {
                Some(_) => vec![LedStep { on: true, duration_ms: 500 }, LedStep { on: false, duration_ms: 500 }],
                None => vec![LedStep { on: true, duration_ms: 200 }],
            },
            OperationalStatus::Degraded => {
                let reason = match s.reason {
                    Some(r) => r,
                    None => DegradedReason::Unknown,
                };
                let flashes: usize = match reason {
                    DegradedReason::WifiDisconnected => 2,
                    DegradedReason::MqttDisconnected => 4,
                    DegradedReason::Unknown => 8,
                };
                let mut out: Vec<LedStep> = vec![LedStep { on: false, duration_ms: 2000 }];
                let mut i: usize = 0;
                while i < 2 * flashes
                    invariant
                        flashes == flashes_for(reason),
                        i <= 2 * flashes,
                        out@ == seq![step(false, 2000)] + Seq::new(i as nat, |k: int| step(k % 2 == 0, 200)),
                    decreases 2 * flashes - i,
                {
                    let ghost before = out@;
                    out.push(LedStep { on: i % 2 == 0, duration_ms: 200 });
                    assert(out@ =~= seq![step(false, 2000)] + Seq::new((i + 1) as nat, |k: int| step(k % 2 == 0, 200)));
                    i = i + 1;
                }
                out
            },
        },
    }
}

/// The mode that the LED shows. The driver plays the pattern of the mode it
/// reads, and reads again after each step.
#[derive(Debug, Clone, Copy, PartialEq, Eq, Structural)]
pub struct LedIndicator {
    mode: IndicatorMode,
}

impl LedIndicator {
    pub closed spec fn current(self) -> IndicatorMode {
        self.mode
    }

    /// An indicator that starts off.
    pub fn new() -> (res: LedIndicator)
        ensures
            res.current() == IndicatorMode::Off,
    {
        LedIndicator { mode: IndicatorMode::Off }
    }

    pub fn set_mode(&mut self, mode: IndicatorMode)
        ensures
            final(self).current() == mode,
    {
        self.mode = mode;
    }

    /// The driver runs on its own; a tick changes nothing.
    pub fn tick(&mut self)
        ensures
            *final(self) == *old(self),
    {
    }

    pub fn mode(&self) -> (res: IndicatorMode)
        ensures
            res == self.current(),
    {
        self.mode
    }
}

/// Signals between the runtime and its request handlers. Clones share one
/// flag, which any of them may set from its own thread; a reading therefore
/// depends on what the other holders did, and no contract states it.
#[derive(Debug, Clone, Default)]
pub struct RuntimeSignals {
    restart_pending: Arc<AtomicBool>,
}

impl RuntimeSignals {
    /// Signals on which no restart is pending yet.
    pub fn new() -> (res: RuntimeSignals) {
        RuntimeSignals { restart_pending: Arc::new(AtomicBool::new(false)) }
    }

    /// Marks a restart as pending, for this value and every clone of it.
    pub fn mark_restart_pending(&self) {
        self.restart_pending.store(true, Ordering::SeqCst);
    }

    /// Whether this value or a clone of it marked a restart as pending.
    pub fn is_restart_pending(&self) -> (res: bool) {
        self.restart_pending.load(Ordering::SeqCst)
    }
}

} // verus!
