//! The runtime's state: what it is doing, why it is degraded, when it next
//! retries a lost link, and the boot mode that a stored configuration selects.
//! The platform layer performs each step's outside work and reports back.

use vstd::prelude::*;

use crate::config::{config_is_complete, DeviceConfig};
use crate::error::AppError;

verus! {

#[derive(Debug, Clone, Copy, PartialEq, Eq, Structural)]
pub enum OperationalStatus {
    Provisioning,
    Operational,
    Degraded,
}

#[derive(Debug, Clone, Copy, PartialEq, Eq, Structural)]
pub enum DegradedReason {
    WifiDisconnected,
    MqttDisconnected,
    Unknown,
}

#[derive(Debug, Clone, Copy, PartialEq, Eq, Structural)]
pub enum RuntimeAction {
    WifiConnecting,
    MqttConnecting,
}

#[derive(Debug, Clone, Copy, PartialEq, Eq, Structural)]
pub struct RuntimeState {
    pub status: OperationalStatus,
    pub reason: Option<DegradedReason>,
    pub action: Option<RuntimeAction>,
}

/// How the device boots: into its normal operation, or into provisioning.
#[derive(Debug, Clone, Copy, PartialEq, Eq, Structural)]
pub enum BootMode {
    Normal,
    Provisioning,
}

/// The boot mode for what the store holds: normal with a complete
/// configuration, provisioning otherwise.
pub open spec fn boot_mode_for(stored: Option<DeviceConfig>) -> BootMode {
    match stored {
        Some(cfg) => if config_is_complete(cfg) { BootMode::Normal } else { BootMode::Provisioning },
        None => BootMode::Provisioning,
    }
}

pub fn detect_boot_mode(stored: &Option<DeviceConfig>) -> (res: BootMode)
    ensures
        res == boot_mode_for(*stored),
{
    match stored {
        Some(cfg) => if cfg.is_complete() { BootMode::Normal } else { BootMode::Provisioning },
        None => BootMode::Provisioning,
    }
}

/// How long the runtime waits before it retries a lost link, in milliseconds.
pub const RETRY_DELAY_MS: u64 = 2000;

/// The state in which the runtime starts.
pub open spec fn initial_state() -> RuntimeState {
    RuntimeState { status: OperationalStatus::Degraded, reason: Some(DegradedReason::Unknown), action: None }
}

pub open spec fn operational(action: Option<RuntimeAction>) -> RuntimeState {
    RuntimeState { status: OperationalStatus::Operational, reason: None, action }
}

pub open spec fn provisioning(action: Option<RuntimeAction>) -> RuntimeState {
    RuntimeState { status: OperationalStatus::Provisioning, reason: None, action }
}

pub open spec fn degraded(reason: DegradedReason, action: Option<RuntimeAction>) -> RuntimeState {
    RuntimeState { status: OperationalStatus::Degraded, reason: Some(reason), action }
}

/// The reason a failure is put down to, by what the runtime was doing.
pub open spec fn reason_for(action: Option<RuntimeAction>) -> DegradedReason {
    match action {
        Some(RuntimeAction::WifiConnecting) => DegradedReason::WifiDisconnected,
        Some(RuntimeAction::MqttConnecting) => DegradedReason::MqttDisconnected,
        None => DegradedReason::Unknown,
    }
}

/// Whom a failed broker connection is put down to: Wi-Fi while its link is
/// down, the broker otherwise.
pub open spec fn link_reason(wifi_up: bool) -> DegradedReason {
    if wifi_up { DegradedReason::MqttDisconnected } else { DegradedReason::WifiDisconnected }
}

impl RuntimeState {
    pub fn initial() -> (res: RuntimeState)
        ensures
            res == initial_state(),
    {
        RuntimeState { status: OperationalStatus::Degraded, reason: Some(DegradedReason::Unknown), action: None }
    }
}

/// The runtime's state and the times (in milliseconds of a monotonic clock)
/// at which it next retries Wi-Fi and the broker.
#[derive(Debug, Clone, Copy, PartialEq, Eq, Structural)]
pub struct RuntimeMonitor {
    pub state: RuntimeState,
    pub wifi_retry_at: Option<u64>,
    pub mqtt_retry_at: Option<u64>,
}

/// What the platform layer does after a connectivity check.
#[derive(Debug, Clone, Copy, PartialEq, Eq, Structural)]
pub enum ConnectivityStep {
    /// Nothing more this round.
    Continue,
    /// Drop the broker session and reconnect Wi-Fi, then report with
    /// `wifi_reconnect_finished`.
    ReconnectWifi,
    /// Wait for the broker session to connect, then report with
    /// `mqtt_wait_finished`.
    WaitForMqtt,
}

/// A time that the clock can still add the retry delay to.
pub open spec fn time_fits(now: u64) -> bool {
    now + RETRY_DELAY_MS <= u64::MAX
}

/// Whether a retry time counted from `now` fits in a `u64`, as the
/// monitor's steps require.
pub fn time_fits_at(now: u64) -> (res: bool)
    ensures
        res == time_fits(now),
{
    now <= u64::MAX - RETRY_DELAY_MS
}

/// `m` with its runtime state replaced.
pub open spec fn with_state(m: RuntimeMonitor, s: RuntimeState) -> RuntimeMonitor {
    RuntimeMonitor { state: s, wifi_retry_at: m.wifi_retry_at, mqtt_retry_at: m.mqtt_retry_at }
}

/// The retry time that a pending retry keeps, or that a new one gets.
pub open spec fn retry_time(pending: Option<u64>, now: u64) -> u64 {
    match pending {
        Some(t) => t,
        None => (now + RETRY_DELAY_MS) as u64,
    }
}

/// The broker link is lost and being retried, and the session is back: the
/// runtime is operational again.
pub open spec fn settled(m: RuntimeMonitor, mqtt_connected: bool) -> RuntimeMonitor {
    if m.state == degraded(DegradedReason::MqttDisconnected, Some(RuntimeAction::MqttConnecting)) && mqtt_connected {
        with_state(m, operational(None))
    } else {
        m
    }
}

/// One connectivity check, given whether Wi-Fi is up, what the broker
/// session reports (none without a session, or when it cannot tell), and the time.
pub open spec fn check_spec(m: RuntimeMonitor, wifi_up: bool, mqtt_connected: Option<bool>, now: u64) -> (RuntimeMonitor, ConnectivityStep) {
    if !wifi_up {
        let at = retry_time(m.wifi_retry_at, now);
        let next = RuntimeMonitor {
            state: degraded(DegradedReason::WifiDisconnected, Some(RuntimeAction::WifiConnecting)),
            wifi_retry_at: Some(at),
            mqtt_retry_at: m.mqtt_retry_at,
        };
        if now < at { (next, ConnectivityStep::Continue) } else { (next, ConnectivityStep::ReconnectWifi) }
    } else if mqtt_connected == Some(false) {
        let at = retry_time(m.mqtt_retry_at, now);
        let next = RuntimeMonitor {
            state: degraded(DegradedReason::MqttDisconnected, Some(RuntimeAction::MqttConnecting)),
            wifi_retry_at: m.wifi_retry_at,
            mqtt_retry_at: Some(at),
        };
        if now < at { (next, ConnectivityStep::Continue) } else { (next, ConnectivityStep::WaitForMqtt) }
    } else {
        (settled(m, mqtt_connected == Some(true)), ConnectivityStep::Continue)
    }
}

/// After a Wi-Fi reconnect: on failure a retry is due after the delay; on
/// success both retries are cleared and the broker session is established next.
pub open spec fn wifi_reconnect_spec(m: RuntimeMonitor, ok: bool, now: u64) -> RuntimeMonitor {
    if ok {
        RuntimeMonitor {
            state: degraded(DegradedReason::MqttDisconnected, Some(RuntimeAction::MqttConnecting)),
            wifi_retry_at: None,
            mqtt_retry_at: None,
        }
    } else {
        RuntimeMonitor {
            state: degraded(DegradedReason::WifiDisconnected, Some(RuntimeAction::WifiConnecting)),
            wifi_retry_at: Some((now + RETRY_DELAY_MS) as u64),
            mqtt_retry_at: m.mqtt_retry_at,
        }
    }
}

/// After a broker connection attempt (a new session, or a wait for the
/// current one), reported once the birth and states went out: on success
/// the runtime is operational and no broker retry is pending; on failure the
/// runtime is degraded by the link that failed and retries the broker after
/// the delay.
pub open spec fn mqtt_attempt_spec(m: RuntimeMonitor, ok: bool, wifi_up: bool, now: u64) -> RuntimeMonitor {
    if ok {
        RuntimeMonitor { state: operational(None), wifi_retry_at: m.wifi_retry_at, mqtt_retry_at: None }
    } else {
        RuntimeMonitor {
            state: degraded(link_reason(wifi_up), Some(RuntimeAction::MqttConnecting)),
            wifi_retry_at: m.wifi_retry_at,
            mqtt_retry_at: Some((now + RETRY_DELAY_MS) as u64),
        }
    }
}

impl RuntimeMonitor {
    pub fn new() -> (res: RuntimeMonitor)
        ensures
            res.state == initial_state(),
            res.wifi_retry_at is None,
            res.mqtt_retry_at is None,
    {
        RuntimeMonitor { state: RuntimeState::initial(), wifi_retry_at: None, mqtt_retry_at: None }
    }

    /// Moves to `next`; tells whether the state changed.
    pub fn set_runtime_state(&mut self, next: RuntimeState) -> (changed: bool)
        ensures
            *final(self) == with_state(*old(self), next),
            changed == (old(self).state != next),
    {
        if self.state != next {
            self.state = next;
            true
        } else {
            false
        }
    }

    pub fn set_operational_action(&mut self, action: Option<RuntimeAction>) -> (changed: bool)
        ensures
            *final(self) == with_state(*old(self), operational(action)),
            changed == (old(self).state != operational(action)),
    {
        self.set_runtime_state(RuntimeState { status: OperationalStatus::Operational, reason: None, action })
    }

    pub fn set_provisioning_action(&mut self, action: Option<RuntimeAction>) -> (changed: bool)
        ensures
            *final(self) == with_state(*old(self), provisioning(action)),
            changed == (old(self).state != provisioning(action)),
    {
        self.set_runtime_state(RuntimeState { status: OperationalStatus::Provisioning, reason: None, action })
    }

    pub fn set_degraded(&mut self, reason: DegradedReason, action: Option<RuntimeAction>) -> (changed: bool)
        ensures
            *final(self) == with_state(*old(self), degraded(reason, action)),
            changed == (old(self).state != degraded(reason, action)),
    {
        self.set_runtime_state(RuntimeState { status: OperationalStatus::Degraded, reason: Some(reason), action })
    }

    /// The reason a failure now is put down to.
    pub fn reason_for_current_action(&self) -> (res: DegradedReason)
        ensures
            res == reason_for(self.state.action),
    {
        match self.state.action {
            Some(RuntimeAction::WifiConnecting) => DegradedReason::WifiDisconnected,
            Some(RuntimeAction::MqttConnecting) => DegradedReason::MqttDisconnected,
            None => DegradedReason::Unknown,
        }
    }

    /// Ends a run of the runtime with `result`, which it hands back; a
    /// failure degrades the runtime by what it was doing, with no action.
    pub fn finish_result(&mut self, result: Result<(), AppError>) -> (res: Result<(), AppError>)
        ensures
            res == result,
            result is Ok ==> *final(self) == *old(self),
            result is Err ==> *final(self) == with_state(*old(self), degraded(reason_for(old(self).state.action), None)),
    {
        if result.is_err() {
            let reason = self.reason_for_current_action();
            self.set_degraded(reason, None);
        }
        result
    }

    /// One connectivity check of the operational loop.
    pub fn check_connectivity(&mut self, wifi_up: bool, mqtt_connected: Option<bool>, now: u64) -> (res: ConnectivityStep)
        requires
            time_fits(now),
        ensures
            (*final(self), res) == check_spec(*old(self), wifi_up, mqtt_connected, now),
    {
        if !wifi_up {
            self.set_degraded(DegradedReason::WifiDisconnected, Some(RuntimeAction::WifiConnecting));
            let retry_at = match self.wifi_retry_at {
                Some(t) => t,
                None => {
                    let t = now + RETRY_DELAY_MS;
                    self.wifi_retry_at = Some(t);
                    t
                },
            };
            if now < retry_at {
                return ConnectivityStep::Continue;
            }
            return ConnectivityStep::ReconnectWifi;
        }
        if mqtt_connected == Some(false) {
            self.set_degraded(DegradedReason::MqttDisconnected, Some(RuntimeAction::MqttConnecting));
            let retry_at = match self.mqtt_retry_at {
                Some(t) => t,
                None => {
                    let t = now + RETRY_DELAY_MS;
                    self.mqtt_retry_at = Some(t);
                    t
                },
            };
            if now < retry_at {
                return ConnectivityStep::Continue;
            }
            return ConnectivityStep::WaitForMqtt;
        }
        self.settle(mqtt_connected == Some(true));
        ConnectivityStep::Continue
    }

    /// The broker session reports whether it is connected; a lost broker
    /// link whose session is back makes the runtime operational.
    pub fn settle(&mut self, mqtt_connected: bool)
        ensures
            *final(self) == settled(*old(self), mqtt_connected),
    {
        if self.state.status == OperationalStatus::Degraded
            && self.state.reason == Some(DegradedReason::MqttDisconnected)
            && self.state.action == Some(RuntimeAction::MqttConnecting)
            && mqtt_connected
        {
            self.set_operational_action(None);
        }
    }

    /// Reports a Wi-Fi reconnect; tells whether to establish the broker
    /// session next.
    pub fn wifi_reconnect_finished(&mut self, ok: bool, now: u64) -> (establish: bool)
        requires
            time_fits(now),
        ensures
            *final(self) == wifi_reconnect_spec(*old(self), ok, now),
            establish == ok,
    {
        if !ok {
            self.set_degraded(DegradedReason::WifiDisconnected, Some(RuntimeAction::WifiConnecting));
            self.wifi_retry_at = Some(now + RETRY_DELAY_MS);
            return false;
        }
        self.wifi_retry_at = None;
        self.mqtt_retry_at = None;
        self.set_degraded(DegradedReason::MqttDisconnected, Some(RuntimeAction::MqttConnecting));
        true
    }

    /// Reports a broker connection attempt (a new session after Wi-Fi came
    /// back, or a wait for the current session), with whether Wi-Fi is up.
    /// A successful attempt is reported after the device's birth and states
    /// were published; it makes the runtime operational.
    pub fn mqtt_attempt_finished(&mut self, ok: bool, wifi_up: bool, now: u64)
        requires
            time_fits(now),
        ensures
            *final(self) == mqtt_attempt_spec(*old(self), ok, wifi_up, now),
    {
        if ok {
            self.mqtt_retry_at = None;
            self.set_operational_action(None);
        } else {
            let reason = if wifi_up { DegradedReason::MqttDisconnected } else { DegradedReason::WifiDisconnected };
            self.set_degraded(reason, Some(RuntimeAction::MqttConnecting));
            self.mqtt_retry_at = Some(now + RETRY_DELAY_MS);
        }
    }
}

} // verus!

verus! {

/// Moving to a state twice changes it once: the second move reports no change.
pub proof fn law_state_change_once(m: RuntimeMonitor, next: RuntimeState)
    ensures
        with_state(m, next).state == next,
        with_state(with_state(m, next), next) == with_state(m, next),
{
}

/// After a failed Wi-Fi reconnect at `t`, the runtime does not try Wi-Fi
/// again before the retry delay has passed, and tries as soon as it has.
pub proof fn law_wifi_retry_waits_for_delay(m: RuntimeMonitor, t: u64, now: u64, mqtt_connected: Option<bool>)
    requires
        time_fits(t),
        time_fits(now),
    ensures
        ({
            let after_failure = wifi_reconnect_spec(m, false, t);
            let (checked, step) = check_spec(after_failure, false, mqtt_connected, now);
            &&& checked.state == degraded(DegradedReason::WifiDisconnected, Some(RuntimeAction::WifiConnecting))
            &&& now < t + RETRY_DELAY_MS ==> step == ConnectivityStep::Continue
            &&& now >= t + RETRY_DELAY_MS ==> step == ConnectivityStep::ReconnectWifi
        }),
{
}

/// After a failed broker attempt at `t` while Wi-Fi is up, the runtime does
/// not wait for the broker again before the retry delay has passed, and does
/// as soon as it has.
pub proof fn law_mqtt_retry_waits_for_delay(m: RuntimeMonitor, t: u64, now: u64)
    requires
        time_fits(t),
        time_fits(now),
    ensures
        ({
            let after_failure = mqtt_attempt_spec(m, false, true, t);
            let (checked, step) = check_spec(after_failure, true, Some(false), now);
            &&& checked.state == degraded(DegradedReason::MqttDisconnected, Some(RuntimeAction::MqttConnecting))
            &&& now < t + RETRY_DELAY_MS ==> step == ConnectivityStep::Continue
            &&& now >= t + RETRY_DELAY_MS ==> step == ConnectivityStep::WaitForMqtt
        }),
{
}

/// A broker link that was lost while Wi-Fi stayed up, and whose session
/// reconnected on its own, makes the runtime operational at the next check.
pub proof fn law_recovered_broker_is_operational(m: RuntimeMonitor, t: u64, now: u64)
    requires
        time_fits(t),
        time_fits(now),
    ensures
        check_spec(mqtt_attempt_spec(m, false, true, t), true, Some(true), now).0.state == operational(None),
{
}

} // verus!
