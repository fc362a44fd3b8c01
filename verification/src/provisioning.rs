//! The provisioning flow of the captive portal: a Wi-Fi test, then a broker
//! test, each scheduled by a request, run by the runtime and reported back,
//! and saved only with the details that passed their test.

use vstd::prelude::*;

use crate::config::{same_mqtt, same_wifi, MqttConfig, WifiConfig};
use crate::error::{error_code, error_text, is_message, AppError};
use crate::text::{concat, eq_ignore_ascii_case, eq_ignore_ascii_case_spec, join3, owned, spec_to_lowercase, to_lowercase};

verus! {

/// The state of a connection test as the portal shows it.
#[derive(Debug, Clone, PartialEq, Eq)]
pub struct WifiTestStatus {
    pub state: String,
    pub message: String,
    pub ip: Option<String>,
    pub error_code: Option<i32>,
}

/// The broker details that the portal submits.
#[derive(Debug, Clone, PartialEq, Eq)]
pub struct MqttPayload {
    pub protocol: String,
    pub broker: String,
    pub username: String,
    pub password: String,
}

/// The provisioning state: the access point's SSID, the tests waiting to
/// run, the details that last passed, and each test's status.
#[derive(Debug)]
pub struct ProvisioningController {
    pub ap_ssid: String,
    pub pending_wifi_test: Option<WifiConfig>,
    pub last_successful_wifi: Option<WifiConfig>,
    pub wifi_test_status: WifiTestStatus,
    pub pending_mqtt_test: Option<MqttConfig>,
    pub last_successful_mqtt: Option<MqttConfig>,
    pub mqtt_test_status: WifiTestStatus,
}

/// A status with this state and message, no address and no error code.
pub open spec fn status_is(s: WifiTestStatus, state: Seq<char>, message: Seq<char>) -> bool {
    &&& s.state@ == state
    &&& s.message@ == message
    &&& s.ip is None
    &&& s.error_code is None
}

/// The error status of a test that failed with `e`.
pub open spec fn error_status_is(s: WifiTestStatus, e: AppError) -> bool {
    &&& s.state@ == "error"@
    &&& s.message@ == error_text(e)
    &&& s.ip is None
    &&& s.error_code == error_code(e)
}

/// Two statuses with the same texts.
pub open spec fn same_status(a: WifiTestStatus, b: WifiTestStatus) -> bool {
    &&& a.state@ == b.state@
    &&& a.message@ == b.message@
    &&& match (a.ip, b.ip) {
        (Some(x), Some(y)) => x@ == y@,
        (None, None) => true,
        _ => false,
    }
    &&& a.error_code == b.error_code
}

/// The device id that the access point's SSID gives: the SSID in lower case.
pub open spec fn device_id_for(ap_ssid: Seq<char>) -> Seq<char> {
    spec_to_lowercase(ap_ssid)
}

/// The MQTT configuration that broker details give on the device whose
/// access point has SSID `ap_ssid`: port 8883 for the `ssl` protocol (in any
/// case), 1883 otherwise; the device id as client id, under `nks/home/`.
pub open spec fn mqtt_config_for(ap_ssid: Seq<char>, p: MqttPayload, c: MqttConfig) -> bool {
    &&& c.host@ == p.broker@
    &&& c.port == (if eq_ignore_ascii_case_spec(p.protocol@, "ssl"@) { 8883u16 } else { 1883u16 })
    &&& c.username@ == p.username@
    &&& c.password@ == p.password@
    &&& c.client_id@ == device_id_for(ap_ssid)
    &&& c.base_topic@ == "nks/home/"@ + device_id_for(ap_ssid)
}

impl WifiTestStatus {
    fn with(state: &str, message: String) -> (res: WifiTestStatus)
        ensures
            status_is(res, state@, message@),
    {
        WifiTestStatus { state: owned(state), message, ip: None, error_code: None }
    }

    /// A copy of the status.
    pub fn duplicate(&self) -> (res: WifiTestStatus)
        ensures
            same_status(res, *self),
    {
        WifiTestStatus {
            state: self.state.clone(),
            message: self.message.clone(),
            ip: match &self.ip {
                Some(ip) => Some(ip.clone()),
                None => None,
            },
            error_code: self.error_code,
        }
    }
}

/// The MQTT configuration for broker details on the device whose access
/// point has SSID `ap_ssid`.
pub fn build_mqtt_config(ap_ssid: &str, payload: MqttPayload) -> (res: MqttConfig)
    ensures
        mqtt_config_for(ap_ssid@, payload, res),
{
    let device_id = to_lowercase(ap_ssid);
    let port: u16 = if eq_ignore_ascii_case(payload.protocol.as_str(), "ssl") { 8883 } else { 1883 };
    let base_topic = concat("nks/home/", device_id.as_str());
    MqttConfig {
        host: payload.broker,
        port,
        username: payload.username,
        password: payload.password,
        client_id: device_id,
        base_topic,
    }
}

/// Whether two MQTT configurations agree in every field.
pub fn same_mqtt_config(left: &MqttConfig, right: &MqttConfig) -> (res: bool)
    ensures
        res == same_mqtt(*left, *right),
{
    crate::text::text_eq(left.host.as_str(), right.host.as_str()) && left.port == right.port
        && crate::text::text_eq(left.username.as_str(), right.username.as_str())
        && crate::text::text_eq(left.password.as_str(), right.password.as_str())
        && crate::text::text_eq(left.client_id.as_str(), right.client_id.as_str())
        && crate::text::text_eq(left.base_topic.as_str(), right.base_topic.as_str())
}

impl ProvisioningController {
    /// The flow at its start: nothing pending or confirmed, both tests idle.
    pub fn new(ap_ssid: String) -> (res: ProvisioningController)
        ensures
            res.ap_ssid == ap_ssid,
            res.pending_wifi_test is None,
            res.last_successful_wifi is None,
            status_is(res.wifi_test_status, "idle"@, "Ready to connect H0m3."@),
            res.pending_mqtt_test is None,
            res.last_successful_mqtt is None,
            status_is(res.mqtt_test_status, "idle"@, "Ready to connect H0m3 to your broker."@),
    {
        ProvisioningController {
            ap_ssid,
            pending_wifi_test: None,
            last_successful_wifi: None,
            wifi_test_status: WifiTestStatus::with("idle", owned("Ready to connect H0m3.")),
            pending_mqtt_test: None,
            last_successful_mqtt: None,
            mqtt_test_status: WifiTestStatus::with("idle", owned("Ready to connect H0m3 to your broker.")),
        }
    }

    /// Schedules a Wi-Fi test; the details confirmed before are forgotten.
    pub fn schedule_wifi_test(&mut self, wifi: WifiConfig)
        ensures
            final(self).pending_wifi_test == Some(wifi),
            final(self).last_successful_wifi is None,
            status_is(final(self).wifi_test_status, "scheduled"@, "Connecting H0m3 to your Wi-Fi."@),
            final(self).ap_ssid == old(self).ap_ssid,
            final(self).pending_mqtt_test == old(self).pending_mqtt_test,
            final(self).last_successful_mqtt == old(self).last_successful_mqtt,
            final(self).mqtt_test_status == old(self).mqtt_test_status,
    {
        self.pending_wifi_test = Some(wifi);
        self.last_successful_wifi = None;
        self.wifi_test_status = WifiTestStatus::with("scheduled", owned("Connecting H0m3 to your Wi-Fi."));
    }

    /// The Wi-Fi test waiting to run, which is no longer pending.
    pub fn take_pending_wifi_test(&mut self) -> (res: Option<WifiConfig>)
        ensures
            res == old(self).pending_wifi_test,
            final(self).pending_wifi_test is None,
            final(self).ap_ssid == old(self).ap_ssid,
            final(self).last_successful_wifi == old(self).last_successful_wifi,
            final(self).wifi_test_status == old(self).wifi_test_status,
            final(self).pending_mqtt_test == old(self).pending_mqtt_test,
            final(self).last_successful_mqtt == old(self).last_successful_mqtt,
            final(self).mqtt_test_status == old(self).mqtt_test_status,
    {
        self.pending_wifi_test.take()
    }

    pub fn mark_wifi_test_running(&mut self, ssid: &str)
        ensures
            status_is(final(self).wifi_test_status, "testing"@, "Checking connection to '"@ + ssid@ + "'"@),
            final(self).ap_ssid == old(self).ap_ssid,
            final(self).pending_wifi_test == old(self).pending_wifi_test,
            final(self).last_successful_wifi == old(self).last_successful_wifi,
            final(self).pending_mqtt_test == old(self).pending_mqtt_test,
            final(self).last_successful_mqtt == old(self).last_successful_mqtt,
            final(self).mqtt_test_status == old(self).mqtt_test_status,
    {
        self.wifi_test_status = WifiTestStatus::with("testing", join3("Checking connection to '", ssid, "'"));
    }

    /// The test passed with these details, and the station got address `ip`.
    pub fn mark_wifi_test_success(&mut self, wifi: WifiConfig, ip: String)
        ensures
            final(self).last_successful_wifi == Some(wifi),
            final(self).wifi_test_status.state@ == "success"@,
            final(self).wifi_test_status.message@ == "H0m3 connected successfully."@,
            final(self).wifi_test_status.ip == Some(ip),
            final(self).wifi_test_status.error_code is None,
            final(self).ap_ssid == old(self).ap_ssid,
            final(self).pending_wifi_test == old(self).pending_wifi_test,
            final(self).pending_mqtt_test == old(self).pending_mqtt_test,
            final(self).last_successful_mqtt == old(self).last_successful_mqtt,
            final(self).mqtt_test_status == old(self).mqtt_test_status,
    {
        self.last_successful_wifi = Some(wifi);
        self.wifi_test_status = WifiTestStatus {
            state: owned("success"),
            message: owned("H0m3 connected successfully."),
            ip: Some(ip),
            error_code: None,
        };
    }

    pub fn mark_wifi_test_error(&mut self, error: &AppError)
        ensures
            error_status_is(final(self).wifi_test_status, *error),
            final(self).ap_ssid == old(self).ap_ssid,
            final(self).pending_wifi_test == old(self).pending_wifi_test,
            final(self).last_successful_wifi == old(self).last_successful_wifi,
            final(self).pending_mqtt_test == old(self).pending_mqtt_test,
            final(self).last_successful_mqtt == old(self).last_successful_mqtt,
            final(self).mqtt_test_status == old(self).mqtt_test_status,
    {
        self.wifi_test_status = WifiTestStatus {
            state: owned("error"),
            message: error.display_text(),
            ip: None,
            error_code: error.esp_code(),
        };
    }

    pub fn wifi_test_status(&self) -> (res: WifiTestStatus)
        ensures
            same_status(res, self.wifi_test_status),
    {
        self.wifi_test_status.duplicate()
    }

    pub fn ap_ssid(&self) -> (res: String)
        ensures
            res@ == self.ap_ssid@,
    {
        self.ap_ssid.clone()
    }

    /// Whether Wi-Fi details may be saved: only the details that the last
    /// test confirmed.
    pub fn confirm_tested_wifi(&self, wifi: &WifiConfig) -> (res: Result<(), AppError>)
        ensures
            match self.last_successful_wifi {
                None => res matches Err(e) && is_message(e, "Please confirm your Wi-Fi connection before continuing."@),
                Some(last) => if same_wifi(last, *wifi) {
                    res is Ok
                } else {
                    res matches Err(e) && is_message(e, "Please use the same Wi-Fi details you just confirmed."@)
                },
            },
    {
        match &self.last_successful_wifi {
            None => Err(AppError::Message(owned("Please confirm your Wi-Fi connection before continuing."))),
            Some(last) => {
                if !crate::text::text_eq(last.ssid.as_str(), wifi.ssid.as_str())
                    || !crate::text::text_eq(last.password.as_str(), wifi.password.as_str())
                {
                    Err(AppError::Message(owned("Please use the same Wi-Fi details you just confirmed.")))
                } else {
                    Ok(())
                }
            },
        }
    }

    /// The confirmed Wi-Fi details were stored.
    pub fn mark_wifi_saved(&mut self)
        ensures
            status_is(final(self).wifi_test_status, "saved"@, "Wi-Fi saved. You're ready for the next step."@),
            final(self).ap_ssid == old(self).ap_ssid,
            final(self).pending_wifi_test == old(self).pending_wifi_test,
            final(self).last_successful_wifi == old(self).last_successful_wifi,
            final(self).pending_mqtt_test == old(self).pending_mqtt_test,
            final(self).last_successful_mqtt == old(self).last_successful_mqtt,
            final(self).mqtt_test_status == old(self).mqtt_test_status,
    {
        self.wifi_test_status = WifiTestStatus::with("saved", owned("Wi-Fi saved. You're ready for the next step."));
    }

    /// The Wi-Fi details that the broker test runs over: those last confirmed.
    pub fn wifi_for_mqtt_test(&self) -> (res: Result<WifiConfig, AppError>)
        ensures
            match self.last_successful_wifi {
                Some(w) => res matches Ok(r) && same_wifi(r, w),
                None => res matches Err(e) && is_message(e, "Please finish the Wi-Fi step before broker setup."@),
            },
    {
        match &self.last_successful_wifi {
            Some(w) => Ok(w.duplicate()),
            None => Err(AppError::Message(owned("Please finish the Wi-Fi step before broker setup."))),
        }
    }

    /// Schedules a broker test; the details confirmed before are forgotten.
    pub fn schedule_mqtt_test(&mut self, payload: MqttPayload)
        ensures
            final(self).pending_mqtt_test matches Some(c) && mqtt_config_for(old(self).ap_ssid@, payload, c),
            final(self).last_successful_mqtt is None,
            status_is(final(self).mqtt_test_status, "scheduled"@, "Connecting H0m3 to your broker."@),
            final(self).ap_ssid == old(self).ap_ssid,
            final(self).pending_wifi_test == old(self).pending_wifi_test,
            final(self).last_successful_wifi == old(self).last_successful_wifi,
            final(self).wifi_test_status == old(self).wifi_test_status,
    {
        let config = build_mqtt_config(self.ap_ssid.as_str(), payload);
        self.pending_mqtt_test = Some(config);
        self.last_successful_mqtt = None;
        self.mqtt_test_status = WifiTestStatus::with("scheduled", owned("Connecting H0m3 to your broker."));
    }

    /// The broker test waiting to run, which is no longer pending.
    pub fn take_pending_mqtt_test(&mut self) -> (res: Option<MqttConfig>)
        ensures
            res == old(self).pending_mqtt_test,
            final(self).pending_mqtt_test is None,
            final(self).ap_ssid == old(self).ap_ssid,
            final(self).pending_wifi_test == old(self).pending_wifi_test,
            final(self).last_successful_wifi == old(self).last_successful_wifi,
            final(self).wifi_test_status == old(self).wifi_test_status,
            final(self).last_successful_mqtt == old(self).last_successful_mqtt,
            final(self).mqtt_test_status == old(self).mqtt_test_status,
    {
        self.pending_mqtt_test.take()
    }

    pub fn mark_mqtt_test_running(&mut self, host: &str)
        ensures
            status_is(final(self).mqtt_test_status, "testing"@, "Checking broker connection to '"@ + host@ + "'"@),
            final(self).ap_ssid == old(self).ap_ssid,
            final(self).pending_wifi_test == old(self).pending_wifi_test,
            final(self).last_successful_wifi == old(self).last_successful_wifi,
            final(self).wifi_test_status == old(self).wifi_test_status,
            final(self).pending_mqtt_test == old(self).pending_mqtt_test,
            final(self).last_successful_mqtt == old(self).last_successful_mqtt,
    {
        self.mqtt_test_status = WifiTestStatus::with("testing", join3("Checking broker connection to '", host, "'"));
    }

    /// The broker test passed with these details.
    pub fn mark_mqtt_test_success(&mut self, mqtt: MqttConfig)
        ensures
            final(self).last_successful_mqtt == Some(mqtt),
            status_is(final(self).mqtt_test_status, "success"@, "H0m3 connected to your broker successfully."@),
            final(self).ap_ssid == old(self).ap_ssid,
            final(self).pending_wifi_test == old(self).pending_wifi_test,
            final(self).last_successful_wifi == old(self).last_successful_wifi,
            final(self).wifi_test_status == old(self).wifi_test_status,
            final(self).pending_mqtt_test == old(self).pending_mqtt_test,
    {
        self.last_successful_mqtt = Some(mqtt);
        self.mqtt_test_status = WifiTestStatus::with("success", owned("H0m3 connected to your broker successfully."));
    }

    pub fn mark_mqtt_test_error(&mut self, error: &AppError)
        ensures
            error_status_is(final(self).mqtt_test_status, *error),
            final(self).ap_ssid == old(self).ap_ssid,
            final(self).pending_wifi_test == old(self).pending_wifi_test,
            final(self).last_successful_wifi == old(self).last_successful_wifi,
            final(self).wifi_test_status == old(self).wifi_test_status,
            final(self).pending_mqtt_test == old(self).pending_mqtt_test,
            final(self).last_successful_mqtt == old(self).last_successful_mqtt,
    {
        self.mqtt_test_status = WifiTestStatus {
            state: owned("error"),
            message: error.display_text(),
            ip: None,
            error_code: error.esp_code(),
        };
    }

    pub fn mqtt_test_status(&self) -> (res: WifiTestStatus)
        ensures
            same_status(res, self.mqtt_test_status),
    {
        self.mqtt_test_status.duplicate()
    }

    /// The MQTT configuration that broker details give, if it may be saved:
    /// only the configuration that the last broker test confirmed.
    pub fn confirm_tested_mqtt(&self, payload: MqttPayload) -> (res: Result<MqttConfig, AppError>)
        ensures
            match self.last_successful_mqtt {
                None => res matches Err(e) && is_message(e, "Please confirm your broker connection before finishing."@),
                Some(last) => forall|c: MqttConfig| #[trigger] mqtt_config_for(self.ap_ssid@, payload, c) ==> if same_mqtt(last, c) {
                    res matches Ok(r) && same_mqtt(r, c)
                } else {
                    res matches Err(e) && is_message(e, "Please use the same broker details you just confirmed."@)
                },
            },
            res matches Ok(r) ==> mqtt_config_for(self.ap_ssid@, payload, r),
    {
        let mqtt = build_mqtt_config(self.ap_ssid.as_str(), payload);
        match &self.last_successful_mqtt {
            None => Err(AppError::Message(owned("Please confirm your broker connection before finishing."))),
            Some(last) => {
                if !same_mqtt_config(last, &mqtt) {
                    Err(AppError::Message(owned("Please use the same broker details you just confirmed.")))
                } else {
                    Ok(mqtt)
                }
            },
        }
    }

    /// The confirmed broker details were stored; the message tells that the
    /// device reboots to apply them.
    pub fn mark_mqtt_saved(&mut self) -> (res: String)
        ensures
            res@ == "H0m3 is ready and will reboot to apply your settings."@,
            status_is(final(self).mqtt_test_status, "saved"@, "H0m3 is ready and will reboot to apply your settings."@),
            final(self).ap_ssid == old(self).ap_ssid,
            final(self).pending_wifi_test == old(self).pending_wifi_test,
            final(self).last_successful_wifi == old(self).last_successful_wifi,
            final(self).wifi_test_status == old(self).wifi_test_status,
            final(self).pending_mqtt_test == old(self).pending_mqtt_test,
            final(self).last_successful_mqtt == old(self).last_successful_mqtt,
    {
        self.mqtt_test_status = WifiTestStatus::with(
            "saved",
            owned("H0m3 is ready and will reboot to apply your settings."),
        );
        owned("H0m3 is ready and will reboot to apply your settings.")
    }
}

} // verus!

verus! {

/// The same broker details give the same configuration, field by field: a
/// broker configuration that passed its test is saved with the details that
/// were tested.
pub proof fn law_same_details_same_broker_config(ap_ssid: Seq<char>, p: MqttPayload, c1: MqttConfig, c2: MqttConfig)
    requires
        mqtt_config_for(ap_ssid, p, c1),
        mqtt_config_for(ap_ssid, p, c2),
    ensures
        same_mqtt(c1, c2),
{
}

} // verus!
