//! The MQTT side of the firmware: the topic layout under the base topic, the
//! config command contract, topic filter matching, and the connection state
//! that the client's events drive.

use vstd::prelude::*;

use crate::board::BoardProfile;
use crate::config::{MqttConfig, ResourceConfig};
use crate::text::{concat, contains_char, decimal, decimal_text, ends_with, join3, owned, starts_with, text_eq, trim, trimmed};

verus! {

/// The firmware version that the device info reports.
pub const FIRMWARE_VERSION: &'static str = "0.1.0";

#[derive(Debug, Clone)]
pub struct MqttMessage {
    pub topic: String,
    pub payload: Vec<u8>,
}

/// The topics of one device, all under its base topic.
#[derive(Debug, Clone)]
pub struct MqttTopics {
    base_topic: String,
}

#[derive(Debug, Clone, PartialEq, Eq)]
pub struct DeviceAvailabilityPayload {
    pub state: String,
}

#[derive(Debug, Clone, PartialEq, Eq)]
pub struct DeviceInfoPayload {
    pub device_id: String,
    pub client_id: String,
    pub board_id: String,
    pub board_name: String,
    pub firmware_version: String,
    pub topic_root: String,
}

#[derive(Debug, Clone, PartialEq, Eq)]
pub struct ConfigOperationResultPayload {
    pub request_id: Option<String>,
    pub command: String,
    pub ok: bool,
    pub message: String,
}

/// What a message on a config command topic asks for.
#[derive(Debug, Clone)]
pub enum ContractAction {
    GetConfig { request_id: Option<String> },
    ValidateResources { request_id: Option<String>, resources: ResourceConfig },
    SetResources { request_id: Option<String>, resources: ResourceConfig },
    PublishResult(ConfigOperationResultPayload),
}

/// Which config command a topic names, and so how its payload is decoded.
#[derive(Debug, Clone, Copy, PartialEq, Eq, Structural)]
pub enum ContractCommand {
    GetConfig,
    ValidateResources,
    SetResources,
    Unsupported,
}

/// A decoded command payload: a request envelope (`request_id`) for
/// `get_config`, a resource command envelope (`request_id`, `resources`) for
/// the resource commands, or the decoder's error text.
#[derive(Debug, Clone)]
pub enum DecodedRequest {
    RequestId(Option<String>),
    Resources { request_id: Option<String>, resources: ResourceConfig },
    Invalid(String),
}

/// The device's config command contract: its topics and the info it publishes.
#[derive(Debug, Clone)]
pub struct MqttContract {
    topics: MqttTopics,
    info: DeviceInfoPayload,
}

impl DeviceAvailabilityPayload {
    pub fn online() -> (res: DeviceAvailabilityPayload)
        ensures
            res.state@ == "online"@,
    {
        DeviceAvailabilityPayload { state: owned("online") }
    }

    pub fn offline() -> (res: DeviceAvailabilityPayload)
        ensures
            res.state@ == "offline"@,
    {
        DeviceAvailabilityPayload { state: owned("offline") }
    }
}

/// The prefix of module topics under base topic `b`.
pub open spec fn module_prefix(b: Seq<char>) -> Seq<char> {
    b + "/mod/"@
}

/// The prefix of device topics under base topic `b`.
pub open spec fn device_prefix(b: Seq<char>) -> Seq<char> {
    b + "/dev/"@
}

/// The id that a command topic names under prefix `p`: the text between the
/// prefix and the `/cmd` suffix, when it is non-empty and has no `/`.
pub open spec fn command_topic_id(p: Seq<char>, topic: Seq<char>) -> Option<Seq<char>> {
    let s = "/cmd"@;
    if p.is_prefix_of(topic) && s.is_suffix_of(topic) {
        let id = topic.subrange(p.len() as int, topic.len() - s.len());
        if id.len() > 0 && !id.contains('/') {
            Some(id)
        } else {
            None
        }
    } else {
        None
    }
}

/// A topic whose prefix `p` and `/cmd` suffix overlap; slicing the id out of
/// it is out of bounds.
pub open spec fn overlapping_topic(p: Seq<char>, topic: Seq<char>) -> bool {
    &&& p.is_prefix_of(topic)
    &&& "/cmd"@.is_suffix_of(topic)
    &&& topic.len() < p.len() + "/cmd"@.len()
}

/// The module id that a topic names as a module command topic.
pub open spec fn module_command_id(b: Seq<char>, topic: Seq<char>) -> Option<Seq<char>> {
    command_topic_id(module_prefix(b), topic)
}

/// The device id that a topic names as a device command topic.
pub open spec fn device_command_id(b: Seq<char>, topic: Seq<char>) -> Option<Seq<char>> {
    command_topic_id(device_prefix(b), topic)
}

/// A topic whose module prefix and `/cmd` suffix overlap.
pub open spec fn overlapping_module_topic(b: Seq<char>, topic: Seq<char>) -> bool {
    overlapping_topic(module_prefix(b), topic)
}

/// A topic whose device prefix and `/cmd` suffix overlap.
pub open spec fn overlapping_device_topic(b: Seq<char>, topic: Seq<char>) -> bool {
    overlapping_topic(device_prefix(b), topic)
}

fn overlaps_command_topic(prefix: String, topic: &str) -> (res: bool)
    ensures
        res == overlapping_topic(prefix@, topic@),
{
    let suffix = "/cmd";
    if !starts_with(topic, prefix.as_str()) || !ends_with(topic, suffix) {
        return false;
    }
    topic.unicode_len() - prefix.as_str().unicode_len() < suffix.unicode_len()
}

/// The id of a command topic under `prefix`.
fn parse_command_topic(prefix: String, topic: &str) -> (res: Option<String>)
    requires
        !overlapping_topic(prefix@, topic@),
    ensures
        match command_topic_id(prefix@, topic@) {
            Some(id) => res matches Some(s) && s@ == id,
            None => res is None,
        },
{
    let suffix = "/cmd";
    if !starts_with(topic, prefix.as_str()) || !ends_with(topic, suffix) {
        return None;
    }
    let p = prefix.as_str().unicode_len();
    let s = suffix.unicode_len();
    let n = topic.unicode_len();
    let id = topic.substring_char(p, n - s);
    if id.unicode_len() == 0 || contains_char(id, '/') {
        None
    } else {
        Some(owned(id))
    }
}

impl MqttTopics {
    pub closed spec fn base(self) -> Seq<char> {
        self.base_topic@
    }

    pub fn new(base_topic: String) -> (res: MqttTopics)
        ensures
            res.base() == base_topic@,
    {
        MqttTopics { base_topic }
    }

    pub fn availability(&self) -> (res: String)
        ensures
            res@ == self.base() + "/status/availability"@,
    {
        concat(self.base_topic.as_str(), "/status/availability")
    }

    pub fn info(&self) -> (res: String)
        ensures
            res@ == self.base() + "/status/info"@,
    {
        concat(self.base_topic.as_str(), "/status/info")
    }

    pub fn board_config(&self) -> (res: String)
        ensures
            res@ == self.base() + "/config/board"@,
    {
        concat(self.base_topic.as_str(), "/config/board")
    }

    pub fn resources_config(&self) -> (res: String)
        ensures
            res@ == self.base() + "/config/resources"@,
    {
        concat(self.base_topic.as_str(), "/config/resources")
    }

    pub fn devices_config(&self) -> (res: String)
        ensures
            res@ == self.base() + "/config/devices"@,
    {
        concat(self.base_topic.as_str(), "/config/devices")
    }

    pub fn module_types(&self) -> (res: String)
        ensures
            res@ == self.base() + "/schema/module_types"@,
    {
        concat(self.base_topic.as_str(), "/schema/module_types")
    }

    pub fn device_types(&self) -> (res: String)
        ensures
            res@ == self.base() + "/schema/device_types"@,
    {
        concat(self.base_topic.as_str(), "/schema/device_types")
    }

    pub fn config_result(&self) -> (res: String)
        ensures
            res@ == self.base() + "/evt/config_result"@,
    {
        concat(self.base_topic.as_str(), "/evt/config_result")
    }

    pub fn get_config_command(&self) -> (res: String)
        ensures
            res@ == self.base() + "/cmd/get_config"@,
    {
        concat(self.base_topic.as_str(), "/cmd/get_config")
    }

    pub fn validate_resources_command(&self) -> (res: String)
        ensures
            res@ == self.base() + "/cmd/validate_resources"@,
    {
        concat(self.base_topic.as_str(), "/cmd/validate_resources")
    }

    pub fn set_resources_command(&self) -> (res: String)
        ensures
            res@ == self.base() + "/cmd/set_resources"@,
    {
        concat(self.base_topic.as_str(), "/cmd/set_resources")
    }

    pub fn command_wildcard(&self) -> (res: String)
        ensures
            res@ == self.base() + "/cmd/#"@,
    {
        concat(self.base_topic.as_str(), "/cmd/#")
    }

    pub fn module_command(&self, module_id: &str) -> (res: String)
        ensures
            res@ == self.base() + "/mod/"@ + module_id@ + "/cmd"@,
    {
        join3(concat(self.base_topic.as_str(), "/mod/").as_str(), module_id, "/cmd")
    }

    pub fn module_state(&self, module_id: &str) -> (res: String)
        ensures
            res@ == self.base() + "/mod/"@ + module_id@ + "/state"@,
    {
        join3(concat(self.base_topic.as_str(), "/mod/").as_str(), module_id, "/state")
    }

    pub fn module_command_wildcard(&self) -> (res: String)
        ensures
            res@ == self.base() + "/mod/+/cmd"@,
    {
        concat(self.base_topic.as_str(), "/mod/+/cmd")
    }

    /// Whether a topic starts with the module prefix and ends with `/cmd`
    /// so that the two overlap.
    pub fn overlaps_module_command(&self, topic: &str) -> (res: bool)
        ensures
            res == overlapping_module_topic(self.base(), topic@),
    {
        overlaps_command_topic(concat(self.base_topic.as_str(), "/mod/"), topic)
    }

    /// Whether a topic starts with the device prefix and ends with `/cmd`
    /// so that the two overlap.
    pub fn overlaps_device_command(&self, topic: &str) -> (res: bool)
        ensures
            res == overlapping_device_topic(self.base(), topic@),
    {
        overlaps_command_topic(concat(self.base_topic.as_str(), "/dev/"), topic)
    }

    /// The module id of a module command topic.
    pub fn parse_module_command_topic(&self, topic: &str) -> (res: Option<String>)
        requires
            !overlapping_module_topic(self.base(), topic@),
        ensures
            match module_command_id(self.base(), topic@) {
                Some(id) => res matches Some(s) && s@ == id,
                None => res is None,
            },
    {
        parse_command_topic(concat(self.base_topic.as_str(), "/mod/"), topic)
    }

    pub fn device_state(&self, device_id: &str) -> (res: String)
        ensures
            res@ == self.base() + "/dev/"@ + device_id@ + "/state"@,
    {
        join3(concat(self.base_topic.as_str(), "/dev/").as_str(), device_id, "/state")
    }

    pub fn device_command(&self, device_id: &str) -> (res: String)
        ensures
            res@ == self.base() + "/dev/"@ + device_id@ + "/cmd"@,
    {
        join3(concat(self.base_topic.as_str(), "/dev/").as_str(), device_id, "/cmd")
    }

    pub fn device_command_wildcard(&self) -> (res: String)
        ensures
            res@ == self.base() + "/dev/+/cmd"@,
    {
        concat(self.base_topic.as_str(), "/dev/+/cmd")
    }

    /// The device id of a device command topic.
    pub fn parse_device_command_topic(&self, topic: &str) -> (res: Option<String>)
        requires
            !overlapping_device_topic(self.base(), topic@),
        ensures
            match device_command_id(self.base(), topic@) {
                Some(id) => res matches Some(s) && s@ == id,
                None => res is None,
            },
    {
        parse_command_topic(concat(self.base_topic.as_str(), "/dev/"), topic)
    }
}

/// The levels of a topic or filter: its text split at each `/`, keeping empty levels.
pub open spec fn split_levels_from(s: Seq<char>, i: int, start: int, acc: Seq<Seq<char>>) -> Seq<Seq<char>>
    decreases s.len() - i,
{
    if i < 0 || i >= s.len() {
        acc.push(s.subrange(start, s.len() as int))
    } else if s[i] == '/' {
        split_levels_from(s, i + 1, i + 1, acc.push(s.subrange(start, i)))
    } else {
        split_levels_from(s, i + 1, start, acc)
    }
}

pub open spec fn levels(s: Seq<char>) -> Seq<Seq<char>> {
    split_levels_from(s, 0, 0, seq![])
}

/// Whether filter levels `f[fi..]` match topic levels `t[ti..]`: `+` matches
/// one level, `#` as the last filter level matches the rest, any other level
/// matches itself.
pub open spec fn levels_match(f: Seq<Seq<char>>, t: Seq<Seq<char>>, fi: int, ti: int) -> bool
    decreases f.len() - fi,
{
    if fi < 0 || fi >= f.len() {
        ti == t.len()
    } else if f[fi] == "#"@ {
        fi == f.len() - 1
    } else if f[fi] == "+"@ {
        if ti >= t.len() {
            false
        } else {
            levels_match(f, t, fi + 1, ti + 1)
        }
    } else if ti < 0 || ti >= t.len() || t[ti] != f[fi] {
        false
    } else {
        levels_match(f, t, fi + 1, ti + 1)
    }
}

/// Whether an MQTT topic filter matches a topic.
pub open spec fn filter_matches(filter: Seq<char>, topic: Seq<char>) -> bool {
    levels_match(levels(filter), levels(topic), 0, 0)
}

fn split_levels(s: &str) -> (res: Vec<String>)
    ensures
        res@.map_values(|x: String| x@) == levels(s@),
{
    let n = s.unicode_len();
    let mut out: Vec<String> = Vec::new();
    let mut start: usize = 0;
    let mut i: usize = 0;
    assert(out@.map_values(|x: String| x@) =~= Seq::<Seq<char>>::empty());
    while i < n
        invariant
            n == s@.len(),
            0 <= start <= i <= n,
            levels(s@) == split_levels_from(s@, i as int, start as int, out@.map_values(|x: String| x@)),
        decreases n - i,
    {
        if s.get_char(i) == '/' {
            let level = owned(s.substring_char(start, i));
            let ghost before = out@.map_values(|x: String| x@);
            out.push(level);
            assert(out@.map_values(|x: String| x@) =~= before.push(s@.subrange(start as int, i as int)));
            start = i + 1;
        }
        i = i + 1;
    }
    let level = owned(s.substring_char(start, n));
    let ghost before = out@.map_values(|x: String| x@);
    out.push(level);
    assert(out@.map_values(|x: String| x@) =~= before.push(s@.subrange(start as int, n as int)));
    out
}

/// Whether the MQTT topic filter `filter` matches `topic`.
pub fn topic_matches(filter: &str, topic: &str) -> (res: bool)
    ensures
        res == filter_matches(filter@, topic@),
{
    let filter_levels = split_levels(filter);
    let topic_levels = split_levels(topic);
    let ghost f = filter_levels@.map_values(|x: String| x@);
    let ghost t = topic_levels@.map_values(|x: String| x@);
    let mut topic_index: usize = 0;
    let n = filter_levels.len();
    let m = topic_levels.len();
    for index in 0..n
        invariant
            n == f.len(),
            m == t.len(),
            f == filter_levels@.map_values(|x: String| x@),
            t == topic_levels@.map_values(|x: String| x@),
            f == levels(filter@),
            t == levels(topic@),
            topic_index <= m,
            filter_matches(filter@, topic@) == levels_match(f, t, index as int, topic_index as int),
    {
        let level = filter_levels[index].as_str();
        assert(level@ == f[index as int]);
        if text_eq(level, "#") {
            return index == n - 1;
        } else if text_eq(level, "+") {
            if topic_index >= m {
                return false;
            }
            topic_index = topic_index + 1;
        } else {
            if topic_index >= m || !text_eq(topic_levels[topic_index].as_str(), level) {
                proof {
                    if topic_index < m {
                        assert(t[topic_index as int] == topic_levels@[topic_index as int]@);
                    }
                }
                return false;
            }
            assert(t[topic_index as int] == topic_levels@[topic_index as int]@);
            topic_index = topic_index + 1;
        }
    }
    topic_index == m
}

/// The broker URL for a configuration: `mqtts` on port 8883, `mqtt` otherwise.
pub open spec fn broker_url_text(c: MqttConfig) -> Seq<char> {
    (if c.port == 8883 { "mqtts"@ } else { "mqtt"@ }) + "://"@ + c.host@ + ":"@ + decimal(c.port as nat)
}

pub fn broker_url(config: &MqttConfig) -> (res: String)
    ensures
        res@ == broker_url_text(*config),
{
    let scheme = if config.port == 8883 { "mqtts" } else { "mqtt" };
    let digits = decimal_text(config.port as u64);
    crate::text::join5(scheme, "://", config.host.as_str(), ":", digits.as_str())
}

/// The trimmed text, or none when it is blank.
pub fn optional_str(value: &str) -> (res: Option<&str>)
    ensures
        trimmed(value@).len() == 0 ==> res is None,
        trimmed(value@).len() > 0 ==> (res matches Some(t) && t@ == trimmed(value@)),
{
    let t = trim(value);
    if t.unicode_len() == 0 {
        None
    } else {
        Some(t)
    }
}

/// The indices of the subscription filters that match `topic`, in order.
pub fn matching_subscriptions(filters: &Vec<String>, topic: &str) -> (res: Vec<usize>)
    ensures
        forall|k: int| 0 <= k < res@.len() ==> (res@[k] as int) < filters@.len() && filter_matches(filters@[res@[k] as int]@, topic@),
        forall|j: int| 0 <= j < filters@.len() && filter_matches(filters@[j]@, topic@) ==> res@.contains(j as usize),
        forall|a: int, b: int| 0 <= a < b < res@.len() ==> res@[a] < res@[b],
{
    let mut out: Vec<usize> = Vec::new();
    let n = filters.len();
    for i in 0..n
        invariant
            n == filters@.len(),
            forall|k: int| 0 <= k < out@.len() ==> (out@[k] as int) < i && filter_matches(filters@[out@[k] as int]@, topic@),
            forall|j: int| 0 <= j < i && filter_matches(filters@[j]@, topic@) ==> out@.contains(j as usize),
            forall|a: int, b: int| 0 <= a < b < out@.len() ==> out@[a] < out@[b],
    {
        if topic_matches(filters[i].as_str(), topic) {
            let ghost before = out@;
            out.push(i);
            proof {
                assert forall|j: int| 0 <= j < i + 1 && filter_matches(filters@[j]@, topic@) implies out@.contains(j as usize) by {
                    if j == i {
                        assert(out@[out@.len() - 1] == i);
                    } else {
                        assert(before.contains(j as usize));
                        let q = choose|q: int| 0 <= q < before.len() && before[q] == j as usize;
                        assert(out@[q] == before[q]);
                    }
                }
            }
        } else {
            proof {
                assert forall|j: int| 0 <= j < i + 1 && filter_matches(filters@[j]@, topic@) implies out@.contains(j as usize) by {
                    if j == i {
                        assert(!filter_matches(filters@[j]@, topic@));
                    }
                }
            }
        }
    }
    out
}


/// The config command that a topic under base topic `b` names.
pub open spec fn command_of(b: Seq<char>, topic: Seq<char>) -> ContractCommand {
    if topic == b + "/cmd/get_config"@ {
        ContractCommand::GetConfig
    } else if topic == b + "/cmd/validate_resources"@ {
        ContractCommand::ValidateResources
    } else if topic == b + "/cmd/set_resources"@ {
        ContractCommand::SetResources
    } else {
        ContractCommand::Unsupported
    }
}

/// A decoded payload has the shape that the command's decoder gives: a
/// request envelope for `get_config`, a resource command envelope for the
/// resource commands, or an error from either.
pub open spec fn decoded_fits(command: ContractCommand, decoded: DecodedRequest) -> bool {
    match command {
        ContractCommand::GetConfig => !(decoded is Resources),
        ContractCommand::ValidateResources => !(decoded is RequestId),
        ContractCommand::SetResources => !(decoded is RequestId),
        ContractCommand::Unsupported => true,
    }
}

/// A failed result of `command` for a request without id, with `message`.
pub open spec fn is_error_result(p: ConfigOperationResultPayload, command: Seq<char>, message: Seq<char>) -> bool {
    &&& p.request_id is None
    &&& p.command@ == command
    &&& !p.ok
    &&& p.message@ == message
}

/// What a message on a config command topic asks for, given its payload
/// and the decoder's result on it.
pub open spec fn action_for(b: Seq<char>, topic: Seq<char>, payload: Seq<u8>, decoded: DecodedRequest, res: ContractAction) -> bool {
    match command_of(b, topic) {
        ContractCommand::GetConfig => if payload.len() == 0 {
            res == ContractAction::GetConfig { request_id: None }
        } else {
            match decoded {
                DecodedRequest::RequestId(r) => res == ContractAction::GetConfig { request_id: r },
                DecodedRequest::Invalid(e) => res matches ContractAction::PublishResult(p)
                    && is_error_result(p, "get_config"@, "Invalid get_config request: "@ + e@),
                DecodedRequest::Resources { .. } => false,
            }
        },
        ContractCommand::ValidateResources => match decoded {
            DecodedRequest::Resources { request_id, resources } => res == ContractAction::ValidateResources { request_id, resources },
            DecodedRequest::Invalid(e) => res matches ContractAction::PublishResult(p)
                && is_error_result(p, "validate_resources"@, "Invalid validate_resources request: "@ + e@),
            DecodedRequest::RequestId(_) => false,
        },
        ContractCommand::SetResources => match decoded {
            DecodedRequest::Resources { request_id, resources } => res == ContractAction::SetResources { request_id, resources },
            DecodedRequest::Invalid(e) => res matches ContractAction::PublishResult(p)
                && is_error_result(p, "set_resources"@, "Invalid set_resources request: "@ + e@),
            DecodedRequest::RequestId(_) => false,
        },
        ContractCommand::Unsupported => res matches ContractAction::PublishResult(p)
            && is_error_result(p, "unknown"@, "Unsupported MQTT command topic '"@ + topic + "'"@),
    }
}

/// What the device publishes on a topic of its contract.
#[derive(Debug, Clone)]
pub enum PublishedDocument {
    Availability(DeviceAvailabilityPayload),
    Info(DeviceInfoPayload),
    BoardConfig,
    ResourcesConfig,
    /// The logical devices of the resource configuration.
    DevicesConfig,
    /// The module type schemas the firmware runs.
    ModuleTypes,
    /// The device type schemas of the firmware's devices.
    DeviceTypes,
    ConfigResult(ConfigOperationResultPayload),
}

impl DeviceInfoPayload {
    /// The two payloads carry the same texts.
    pub open spec fn same_text(self, other: DeviceInfoPayload) -> bool {
        &&& self.device_id@ == other.device_id@
        &&& self.client_id@ == other.client_id@
        &&& self.board_id@ == other.board_id@
        &&& self.board_name@ == other.board_name@
        &&& self.firmware_version@ == other.firmware_version@
        &&& self.topic_root@ == other.topic_root@
    }

    /// A copy of the payload.
    pub fn duplicate(&self) -> (res: DeviceInfoPayload)
        ensures
            res.same_text(*self),
    {
        DeviceInfoPayload {
            device_id: owned(self.device_id.as_str()),
            client_id: owned(self.client_id.as_str()),
            board_id: owned(self.board_id.as_str()),
            board_name: owned(self.board_name.as_str()),
            firmware_version: owned(self.firmware_version.as_str()),
            topic_root: owned(self.topic_root.as_str()),
        }
    }
}

/// One publication: a topic, what goes on it, and whether the broker
/// retains it. Every publication of the contract is sent at least once.
#[derive(Debug, Clone)]
pub struct PlannedPublish {
    pub topic: String,
    pub document: PublishedDocument,
    pub retain: bool,
}

impl MqttContract {
    pub closed spec fn base(self) -> Seq<char> {
        self.topics.base()
    }

    pub closed spec fn info_spec(self) -> DeviceInfoPayload {
        self.info
    }

    /// The contract of a device with this MQTT configuration on this board.
    pub fn new(mqtt: &MqttConfig, board: &BoardProfile) -> (res: MqttContract)
        ensures
            res.base() == mqtt.base_topic@,
            res.info_spec().device_id@ == mqtt.client_id@,
            res.info_spec().client_id@ == mqtt.client_id@,
            res.info_spec().board_id@ == board.id@,
            res.info_spec().board_name@ == board.name@,
            res.info_spec().firmware_version@ == FIRMWARE_VERSION@,
            res.info_spec().topic_root@ == mqtt.base_topic@,
    {
        let topics = MqttTopics::new(owned(mqtt.base_topic.as_str()));
        let info = DeviceInfoPayload {
            device_id: owned(mqtt.client_id.as_str()),
            client_id: owned(mqtt.client_id.as_str()),
            board_id: owned(board.id.as_str()),
            board_name: owned(board.name.as_str()),
            firmware_version: owned(FIRMWARE_VERSION),
            topic_root: owned(mqtt.base_topic.as_str()),
        };
        MqttContract { topics, info }
    }

    pub fn topics(&self) -> (res: &MqttTopics)
        ensures
            res.base() == self.base(),
    {
        &self.topics
    }

    pub fn info(&self) -> (res: &DeviceInfoPayload)
        ensures
            *res == self.info_spec(),
    {
        &self.info
    }

    /// The config command that a topic names.
    pub fn command_for_topic(&self, topic: &str) -> (res: ContractCommand)
        ensures
            res == command_of(self.base(), topic@),
    {
        let get_config = self.topics.get_config_command();
        if text_eq(topic, get_config.as_str()) {
            return ContractCommand::GetConfig;
        }
        let validate = self.topics.validate_resources_command();
        if text_eq(topic, validate.as_str()) {
            return ContractCommand::ValidateResources;
        }
        let set = self.topics.set_resources_command();
        if text_eq(topic, set.as_str()) {
            return ContractCommand::SetResources;
        }
        ContractCommand::Unsupported
    }

    /// The action that a command message asks for. `decoded` is what the
    /// command's decoder made of the payload; an empty `get_config` payload
    /// is a request without id.
    pub fn parse_action(&self, topic: &str, payload: &[u8], decoded: DecodedRequest) -> (res: ContractAction)
        requires
            payload@.len() > 0 ==> decoded_fits(command_of(self.base(), topic@), decoded),
            command_of(self.base(), topic@) != ContractCommand::GetConfig ==> decoded_fits(command_of(self.base(), topic@), decoded),
        ensures
            action_for(self.base(), topic@, payload@, decoded, res),
    {
        let command = self.command_for_topic(topic);
        match command {
            ContractCommand::GetConfig => {
                if payload.len() == 0 {
                    return ContractAction::GetConfig { request_id: None };
                }
                match decoded {
                    DecodedRequest::RequestId(request_id) => ContractAction::GetConfig { request_id },
                    DecodedRequest::Invalid(error) => ContractAction::PublishResult(Self::error_result(
                        "get_config",
                        None,
                        concat("Invalid get_config request: ", error.as_str()),
                    )),
                    DecodedRequest::Resources { request_id, .. } => ContractAction::GetConfig { request_id },
                }
            },
            ContractCommand::ValidateResources => match decoded {
                DecodedRequest::Resources { request_id, resources } => ContractAction::ValidateResources { request_id, resources },
                DecodedRequest::Invalid(error) => ContractAction::PublishResult(Self::error_result(
                    "validate_resources",
                    None,
                    concat("Invalid validate_resources request: ", error.as_str()),
                )),
                DecodedRequest::RequestId(_) => ContractAction::PublishResult(Self::error_result(
                    "validate_resources",
                    None,
                    owned("Invalid validate_resources request"),
                )),
            },
            ContractCommand::SetResources => match decoded {
                DecodedRequest::Resources { request_id, resources } => ContractAction::SetResources { request_id, resources },
                DecodedRequest::Invalid(error) => ContractAction::PublishResult(Self::error_result(
                    "set_resources",
                    None,
                    concat("Invalid set_resources request: ", error.as_str()),
                )),
                DecodedRequest::RequestId(_) => ContractAction::PublishResult(Self::error_result(
                    "set_resources",
                    None,
                    owned("Invalid set_resources request"),
                )),
            },
            ContractCommand::Unsupported => ContractAction::PublishResult(Self::error_result(
                "unknown",
                None,
                join3("Unsupported MQTT command topic '", topic, "'"),
            )),
        }
    }

    /// A successful result of `command`.
    pub fn ok_result(command: &str, request_id: Option<String>, message: String) -> (res: ConfigOperationResultPayload)
        ensures
            res.request_id == request_id,
            res.command@ == command@,
            res.ok,
            res.message == message,
    {
        ConfigOperationResultPayload { request_id, command: owned(command), ok: true, message }
    }

    /// A failed result of `command`.
    pub fn error_result(command: &str, request_id: Option<String>, message: String) -> (res: ConfigOperationResultPayload)
        ensures
            res.request_id == request_id,
            res.command@ == command@,
            !res.ok,
            res.message == message,
    {
        ConfigOperationResultPayload { request_id, command: owned(command), ok: false, message }
    }

    /// What the device publishes once connected, in order: it is online, its
    /// info, its board, its resources, its logical devices, the module type
    /// schemas and the device type schemas, all retained.
    pub fn birth_publications(&self) -> (res: Vec<PlannedPublish>)
        ensures
            res@.len() == 7,
            res@[0].topic@ == self.base() + "/status/availability"@,
            res@[0].document matches PublishedDocument::Availability(a) && a.state@ == "online"@,
            res@[1].topic@ == self.base() + "/status/info"@,
            res@[1].document matches PublishedDocument::Info(i) && i.same_text(self.info_spec()),
            res@[2].topic@ == self.base() + "/config/board"@,
            res@[2].document == PublishedDocument::BoardConfig,
            res@[3].topic@ == self.base() + "/config/resources"@,
            res@[3].document == PublishedDocument::ResourcesConfig,
            res@[4].topic@ == self.base() + "/config/devices"@,
            res@[4].document == PublishedDocument::DevicesConfig,
            res@[5].topic@ == self.base() + "/schema/module_types"@,
            res@[5].document == PublishedDocument::ModuleTypes,
            res@[6].topic@ == self.base() + "/schema/device_types"@,
            res@[6].document == PublishedDocument::DeviceTypes,
            forall|i: int| 0 <= i < 7 ==> #[trigger] res@[i].retain,
    {
        let mut out: Vec<PlannedPublish> = Vec::new();
        out.push(PlannedPublish {
            topic: self.topics.availability(),
            document: PublishedDocument::Availability(DeviceAvailabilityPayload::online()),
            retain: true,
        });
        out.push(PlannedPublish {
            topic: self.topics.info(),
            document: PublishedDocument::Info(self.info.duplicate()),
            retain: true,
        });
        out.push(PlannedPublish { topic: self.topics.board_config(), document: PublishedDocument::BoardConfig, retain: true });
        out.push(PlannedPublish { topic: self.topics.resources_config(), document: PublishedDocument::ResourcesConfig, retain: true });
        out.push(PlannedPublish { topic: self.topics.devices_config(), document: PublishedDocument::DevicesConfig, retain: true });
        out.push(PlannedPublish { topic: self.topics.module_types(), document: PublishedDocument::ModuleTypes, retain: true });
        out.push(PlannedPublish { topic: self.topics.device_types(), document: PublishedDocument::DeviceTypes, retain: true });
        out
    }
}


impl MqttContract {
    /// The publication of the current resource snapshot, retained.
    pub fn resources_snapshot_publication(&self) -> (res: PlannedPublish)
        ensures
            res.topic@ == self.base() + "/config/resources"@,
            res.document == PublishedDocument::ResourcesConfig,
            res.retain,
    {
        PlannedPublish { topic: self.topics.resources_config(), document: PublishedDocument::ResourcesConfig, retain: true }
    }

    /// The publication of a config command's result, not retained.
    pub fn config_result_publication(&self, payload: ConfigOperationResultPayload) -> (res: PlannedPublish)
        ensures
            res.topic@ == self.base() + "/evt/config_result"@,
            res.document == PublishedDocument::ConfigResult(payload),
            !res.retain,
    {
        PlannedPublish { topic: self.topics.config_result(), document: PublishedDocument::ConfigResult(payload), retain: false }
    }

    /// The will that the broker publishes when the device drops away: it is
    /// offline, retained.
    pub fn last_will(&self) -> (res: PlannedPublish)
        ensures
            res.topic@ == self.base() + "/status/availability"@,
            res.document matches PublishedDocument::Availability(a) && a.state@ == "offline"@,
            res.retain,
    {
        PlannedPublish {
            topic: self.topics.availability(),
            document: PublishedDocument::Availability(DeviceAvailabilityPayload::offline()),
            retain: true,
        }
    }
}

/// A copy of a byte slice.
pub fn copy_bytes(data: &[u8]) -> (res: Vec<u8>)
    ensures
        res@ == data@,
{
    let mut out: Vec<u8> = Vec::new();
    for i in 0..data.len()
        invariant
            out@ == data@.subrange(0, i as int),
    {
        out.push(data[i]);
    }
    out
}

/// The message that a received event carries: none for a chunked message
/// or one without topic.
pub fn received_message(complete: bool, topic: Option<&str>, data: &[u8]) -> (res: Option<MqttMessage>)
    ensures
        (complete && topic is Some) <==> res is Some,
        res matches Some(m) ==> m.topic@ == topic.unwrap()@ && m.payload@ == data@,
{
    if !complete {
        return None;
    }
    match topic {
        Some(t) => Some(MqttMessage { topic: owned(t), payload: copy_bytes(data) }),
        None => None,
    }
}

/// The text of a connection error, from the client's description of it.
pub open spec fn connection_error_text(description: Seq<char>) -> Seq<char> {
    "MQTT connection error: "@ + description
}

/// The message of a connection attempt that ran out of time.
pub open spec fn unreachable_broker_text() -> Seq<char> {
    "Unable to reach your broker. Please check the MQTT details and try again."@
}

/// What the client's events have told of the connection.
#[derive(Debug, Clone)]
pub struct MqttSessionState {
    pub connected: bool,
    pub last_error: Option<String>,
}

/// What a wait for the connection does next.
#[derive(Debug, Clone, PartialEq, Eq)]
pub enum WaitStep {
    Connected,
    Failed(String),
    KeepWaiting,
}

impl MqttSessionState {
    /// Before any event: not connected, no error.
    pub fn new() -> (res: MqttSessionState)
        ensures
            !res.connected,
            res.last_error is None,
    {
        MqttSessionState { connected: false, last_error: None }
    }

    /// The broker accepted the connection: connected, and the last error is forgotten.
    pub fn on_connected(&mut self)
        ensures
            final(self).connected,
            final(self).last_error is None,
    {
        self.connected = true;
        self.last_error = None;
    }

    /// The connection dropped; the last error stays.
    pub fn on_disconnected(&mut self)
        ensures
            !final(self).connected,
            final(self).last_error == old(self).last_error,
    {
        self.connected = false;
    }

    /// The client reported an error, described by `description`.
    pub fn on_error(&mut self, description: &str)
        ensures
            final(self).connected == old(self).connected,
            final(self).last_error matches Some(e) && e@ == connection_error_text(description@),
    {
        self.last_error = Some(concat("MQTT connection error: ", description));
    }

    /// The next step of a wait for the connection, while time is left or
    /// once it ran out: connected first, then the last error, else wait on.
    pub fn wait_step(&self, time_left: bool) -> (res: WaitStep)
        ensures
            !time_left ==> (res matches WaitStep::Failed(m) && m@ == unreachable_broker_text()),
            time_left && self.connected ==> res == WaitStep::Connected,
            time_left && !self.connected ==> match self.last_error {
                Some(e) => res matches WaitStep::Failed(m) && m@ == e@,
                None => res == WaitStep::KeepWaiting,
            },
    {
        if !time_left {
            return WaitStep::Failed(owned("Unable to reach your broker. Please check the MQTT details and try again."));
        }
        if self.connected {
            return WaitStep::Connected;
        }
        match &self.last_error {
            Some(e) => WaitStep::Failed(owned(e.as_str())),
            None => WaitStep::KeepWaiting,
        }
    }
}

} // verus!

verus! {

/// The module id that a module command topic is built from is the id that
/// parsing the topic gives back, for every id that is one topic level (not
/// empty, no `/`); such a topic never has overlapping prefix and suffix.
pub proof fn law_module_command_topic_round_trip(b: Seq<char>, id: Seq<char>)
    requires
        id.len() > 0,
        !id.contains('/'),
    ensures
        !overlapping_module_topic(b, b + "/mod/"@ + id + "/cmd"@),
        module_command_id(b, b + "/mod/"@ + id + "/cmd"@) == Some(id),
{
    lemma_command_topic_round_trip(module_prefix(b), id);
    assert(b + "/mod/"@ + id + "/cmd"@ =~= module_prefix(b) + id + "/cmd"@);
}

/// The same for device command topics.
pub proof fn law_device_command_topic_round_trip(b: Seq<char>, id: Seq<char>)
    requires
        id.len() > 0,
        !id.contains('/'),
    ensures
        !overlapping_device_topic(b, b + "/dev/"@ + id + "/cmd"@),
        device_command_id(b, b + "/dev/"@ + id + "/cmd"@) == Some(id),
{
    lemma_command_topic_round_trip(device_prefix(b), id);
    assert(b + "/dev/"@ + id + "/cmd"@ =~= device_prefix(b) + id + "/cmd"@);
}

proof fn lemma_command_topic_round_trip(p: Seq<char>, id: Seq<char>)
    requires
        !id.contains('/'),
    ensures
        !overlapping_topic(p, p + id + "/cmd"@),
        command_topic_id(p, p + id + "/cmd"@) == (if id.len() > 0 { Some(id) } else { None }),
{
    let t = p + id + "/cmd"@;
    let s = "/cmd"@;
    assert(p.is_prefix_of(t)) by {
        assert(t.subrange(0, p.len() as int) =~= p);
    }
    assert(s.is_suffix_of(t)) by {
        assert(t.subrange(t.len() - s.len(), t.len() as int) =~= s);
    }
    assert(t.subrange(p.len() as int, t.len() - s.len()) =~= id);
}

/// Each config command topic dispatches to its command.
pub proof fn law_command_topics_dispatch(b: Seq<char>)
    ensures
        command_of(b, b + "/cmd/get_config"@) == ContractCommand::GetConfig,
        command_of(b, b + "/cmd/validate_resources"@) == ContractCommand::ValidateResources,
        command_of(b, b + "/cmd/set_resources"@) == ContractCommand::SetResources,
{
    reveal_strlit("/cmd/get_config");
    reveal_strlit("/cmd/validate_resources");
    reveal_strlit("/cmd/set_resources");
    assert((b + "/cmd/validate_resources"@).len() != (b + "/cmd/get_config"@).len());
    assert((b + "/cmd/set_resources"@).len() != (b + "/cmd/get_config"@).len());
    assert((b + "/cmd/set_resources"@).len() != (b + "/cmd/validate_resources"@).len());
}

/// The resource commands do what their topic names: a resource request on
/// the `validate_resources` topic is only checked, as a validate action with
/// its request id and resources, and only the `set_resources` topic makes a
/// set action, which applies a configuration; a validate action comes only
/// from the `validate_resources` topic, a `get_config` action only from the
/// `get_config` topic.
pub proof fn law_resource_commands_do_what_their_topic_names(
    b: Seq<char>,
    topic: Seq<char>,
    payload: Seq<u8>,
    decoded: DecodedRequest,
    res: ContractAction,
)
    requires
        action_for(b, topic, payload, decoded, res),
    ensures
        res is SetResources ==> topic == b + "/cmd/set_resources"@,
        res is ValidateResources ==> topic == b + "/cmd/validate_resources"@,
        res is GetConfig ==> topic == b + "/cmd/get_config"@,
        topic == b + "/cmd/validate_resources"@ ==> !(res is SetResources),
        topic == b + "/cmd/set_resources"@ ==> !(res is ValidateResources),
        (topic == b + "/cmd/validate_resources"@ && decoded is Resources) ==> res == (ContractAction::ValidateResources {
            request_id: decoded->Resources_request_id,
            resources: decoded->Resources_resources,
        }),
        (topic == b + "/cmd/set_resources"@ && decoded is Resources) ==> res == (ContractAction::SetResources {
            request_id: decoded->Resources_request_id,
            resources: decoded->Resources_resources,
        }),
{
    law_command_topics_dispatch(b);
    reveal_strlit("/cmd/get_config");
    reveal_strlit("/cmd/validate_resources");
    reveal_strlit("/cmd/set_resources");
    assert((b + "/cmd/validate_resources"@).len() != (b + "/cmd/get_config"@).len());
    assert((b + "/cmd/set_resources"@).len() != (b + "/cmd/get_config"@).len());
    assert((b + "/cmd/set_resources"@).len() != (b + "/cmd/validate_resources"@).len());
}

} // verus!

verus! {

proof fn lemma_split_acc(s: Seq<char>, i: int, st: int, acc: Seq<Seq<char>>)
    ensures
        split_levels_from(s, i, st, acc) == acc + split_levels_from(s, i, st, seq![]),
    decreases s.len() - i,
{
    if i < 0 || i >= s.len() {
        assert(acc.push(s.subrange(st, s.len() as int)) =~= acc + seq![].push(s.subrange(st, s.len() as int)));
    } else if s[i] == '/' {
        let seg = s.subrange(st, i);
        lemma_split_acc(s, i + 1, i + 1, acc.push(seg));
        lemma_split_acc(s, i + 1, i + 1, seq![].push(seg));
        assert(acc.push(seg) + split_levels_from(s, i + 1, i + 1, seq![]) =~= acc + (seq![].push(seg) + split_levels_from(s, i + 1, i + 1, seq![])));
    } else {
        lemma_split_acc(s, i + 1, st, acc);
        lemma_split_acc(s, i + 1, st, seq![]);
    }
}

proof fn lemma_split_no_slash(s: Seq<char>, i: int, st: int, acc: Seq<Seq<char>>)
    requires
        0 <= i <= s.len(),
        forall|k: int| i <= k < s.len() ==> s[k] != '/',
    ensures
        split_levels_from(s, i, st, acc) == acc.push(s.subrange(st, s.len() as int)),
    decreases s.len() - i,
{
    if i < s.len() {
        lemma_split_no_slash(s, i + 1, st, acc);
    }
}

/// A text without `/` is one level.
proof fn lemma_levels_single(s: Seq<char>)
    requires
        !s.contains('/'),
    ensures
        levels(s) == seq![s],
{
    assert forall|k: int| 0 <= k < s.len() implies s[k] != '/' by {
        if s[k] == '/' {
            assert(s.contains('/'));
        }
    }
    lemma_split_no_slash(s, 0, 0, seq![]);
    assert(s.subrange(0, s.len() as int) =~= s);
    assert(seq![].push(s) =~= seq![s]);
}

proof fn lemma_split_shift(a: Seq<char>, c: Seq<char>, j: int, st: int, acc: Seq<Seq<char>>)
    requires
        0 <= st <= j <= c.len(),
    ensures
        split_levels_from(a + seq!['/'] + c, a.len() + 1 + j, a.len() + 1 + st, acc) == split_levels_from(c, j, st, acc),
    decreases c.len() - j,
{
    let s = a + seq!['/'] + c;
    let n = a.len() as int;
    if j >= c.len() {
        assert(s.subrange(n + 1 + st, s.len() as int) =~= c.subrange(st, c.len() as int));
    } else {
        assert(s[n + 1 + j] == c[j]);
        if c[j] == '/' {
            assert(s.subrange(n + 1 + st, n + 1 + j) =~= c.subrange(st, j));
            lemma_split_shift(a, c, j + 1, j + 1, acc.push(c.subrange(st, j)));
        } else {
            lemma_split_shift(a, c, j + 1, st, acc);
        }
    }
}

proof fn lemma_split_concat(a: Seq<char>, c: Seq<char>, i: int, st: int, acc: Seq<Seq<char>>)
    requires
        0 <= st <= i <= a.len(),
    ensures
        split_levels_from(a + seq!['/'] + c, i, st, acc) == split_levels_from(a, i, st, acc) + levels(c),
    decreases a.len() - i,
{
    let s = a + seq!['/'] + c;
    let n = a.len() as int;
    if i == n {
        assert(s[n] == '/');
        let seg = a.subrange(st, n);
        assert(s.subrange(st, n) =~= seg);
        lemma_split_shift(a, c, 0, 0, acc.push(seg));
        lemma_split_acc(c, 0, 0, acc.push(seg));
    } else {
        assert(s[i] == a[i]);
        if a[i] == '/' {
            assert(s.subrange(st, i) =~= a.subrange(st, i));
            lemma_split_concat(a, c, i + 1, i + 1, acc.push(a.subrange(st, i)));
        } else {
            lemma_split_concat(a, c, i + 1, st, acc);
        }
    }
}

/// The levels of `a/c` are those of `a`, then those of `c`.
proof fn lemma_levels_concat(a: Seq<char>, c: Seq<char>)
    ensures
        levels(a + seq!['/'] + c) == levels(a) + levels(c),
{
    lemma_split_concat(a, c, 0, 0, seq![]);
}

/// A topic name level: no wildcard.
pub open spec fn plain_levels(p: Seq<Seq<char>>) -> bool {
    forall|k: int| 0 <= k < p.len() ==> (#[trigger] p[k]) != "+"@ && p[k] != "#"@
}

proof fn lemma_match_prefix(p: Seq<Seq<char>>, f: Seq<Seq<char>>, t: Seq<Seq<char>>, k: int)
    requires
        plain_levels(p),
        0 <= k <= p.len(),
    ensures
        levels_match(p + f, p + t, k, k) == levels_match(p + f, p + t, p.len() as int, p.len() as int),
    decreases p.len() - k,
{
    if k < p.len() {
        assert((p + f)[k] == p[k]);
        assert((p + t)[k] == p[k]);
        assert(p[k] != "+"@ && p[k] != "#"@);
        lemma_match_prefix(p, f, t, k + 1);
    }
}

/// Every module command topic of a device reaches its module command
/// subscription, when the base topic has no wildcard level.
pub proof fn law_module_wildcard_covers_commands(b: Seq<char>, id: Seq<char>)
    requires
        plain_levels(levels(b)),
        !id.contains('/'),
    ensures
        filter_matches(b + "/mod/+/cmd"@, b + "/mod/"@ + id + "/cmd"@),
{
    lemma_segment_wildcard_covers(b, "mod"@, id);
    reveal_strlit("/mod/+/cmd");
    reveal_strlit("/mod/");
    reveal_strlit("mod");
    reveal_strlit("/cmd");
    reveal_strlit("+");
    reveal_strlit("cmd");
    assert(b + "/mod/+/cmd"@ =~= b + seq!['/'] + ("mod"@ + seq!['/'] + ("+"@ + seq!['/'] + "cmd"@)));
    assert(b + "/mod/"@ + id + "/cmd"@ =~= b + seq!['/'] + ("mod"@ + seq!['/'] + (id + seq!['/'] + "cmd"@)));
}

/// Every device command topic of a device reaches its device command
/// subscription, when the base topic has no wildcard level.
pub proof fn law_device_wildcard_covers_commands(b: Seq<char>, id: Seq<char>)
    requires
        plain_levels(levels(b)),
        !id.contains('/'),
    ensures
        filter_matches(b + "/dev/+/cmd"@, b + "/dev/"@ + id + "/cmd"@),
{
    lemma_segment_wildcard_covers(b, "dev"@, id);
    reveal_strlit("/dev/+/cmd");
    reveal_strlit("/dev/");
    reveal_strlit("dev");
    reveal_strlit("/cmd");
    reveal_strlit("+");
    reveal_strlit("cmd");
    assert(b + "/dev/+/cmd"@ =~= b + seq!['/'] + ("dev"@ + seq!['/'] + ("+"@ + seq!['/'] + "cmd"@)));
    assert(b + "/dev/"@ + id + "/cmd"@ =~= b + seq!['/'] + ("dev"@ + seq!['/'] + (id + seq!['/'] + "cmd"@)));
}

proof fn lemma_segment_wildcard_covers(b: Seq<char>, seg: Seq<char>, id: Seq<char>)
    requires
        plain_levels(levels(b)),
        !id.contains('/'),
        seg == "mod"@ || seg == "dev"@,
    ensures
        filter_matches(
            b + seq!['/'] + (seg + seq!['/'] + ("+"@ + seq!['/'] + "cmd"@)),
            b + seq!['/'] + (seg + seq!['/'] + (id + seq!['/'] + "cmd"@)),
        ),
{
    reveal_strlit("mod");
    reveal_strlit("dev");
    reveal_strlit("+");
    reveal_strlit("#");
    reveal_strlit("cmd");
    assert(!seg.contains('/')) by {
        if seg.contains('/') {
            let k = choose|k: int| 0 <= k < seg.len() && seg[k] == '/';
        }
    }
    assert(!"+"@.contains('/')) by {
        if "+"@.contains('/') {
            let k = choose|k: int| 0 <= k < "+"@.len() && "+"@[k] == '/';
        }
    }
    assert(!"cmd"@.contains('/')) by {
        if "cmd"@.contains('/') {
            let k = choose|k: int| 0 <= k < "cmd"@.len() && "cmd"@[k] == '/';
        }
    }
    lemma_levels_single(seg);
    lemma_levels_single("+"@);
    lemma_levels_single("cmd"@);
    lemma_levels_single(id);
    lemma_levels_concat("+"@, "cmd"@);
    lemma_levels_concat(id, "cmd"@);
    lemma_levels_concat(seg, "+"@ + seq!['/'] + "cmd"@);
    lemma_levels_concat(seg, id + seq!['/'] + "cmd"@);
    lemma_levels_concat(b, seg + seq!['/'] + ("+"@ + seq!['/'] + "cmd"@));
    lemma_levels_concat(b, seg + seq!['/'] + (id + seq!['/'] + "cmd"@));
    let p = levels(b);
    let f: Seq<Seq<char>> = seq![seg, "+"@, "cmd"@];
    let t: Seq<Seq<char>> = seq![seg, id, "cmd"@];
    assert(levels(b + seq!['/'] + (seg + seq!['/'] + ("+"@ + seq!['/'] + "cmd"@))) =~= p + f);
    assert(levels(b + seq!['/'] + (seg + seq!['/'] + (id + seq!['/'] + "cmd"@))) =~= p + t);
    lemma_match_prefix(p, f, t, 0);
    let n = p.len() as int;
    assert((p + f)[n] == seg && (p + t)[n] == seg);
    assert(seg != "#"@ && seg != "+"@);
    assert((p + f)[n + 1] == "+"@);
    assert((p + f)[n + 2] == "cmd"@ && (p + t)[n + 2] == "cmd"@);
    assert("cmd"@ != "#"@ && "cmd"@ != "+"@);
    assert(levels_match(p + f, p + t, n + 3, n + 3));
    assert(levels_match(p + f, p + t, n + 2, n + 2));
    assert(levels_match(p + f, p + t, n + 1, n + 1));
    assert(levels_match(p + f, p + t, n, n));
}

/// Every topic under the device's command prefix reaches its config command
/// subscription, when the base topic has no wildcard level.
pub proof fn law_command_wildcard_covers_commands(b: Seq<char>, rest: Seq<char>)
    requires
        plain_levels(levels(b)),
    ensures
        filter_matches(b + "/cmd/#"@, b + "/cmd/"@ + rest),
{
    reveal_strlit("/cmd/#");
    reveal_strlit("/cmd/");
    reveal_strlit("cmd");
    reveal_strlit("#");
    reveal_strlit("+");
    assert(b + "/cmd/#"@ =~= b + seq!['/'] + ("cmd"@ + seq!['/'] + "#"@));
    assert(b + "/cmd/"@ + rest =~= b + seq!['/'] + ("cmd"@ + seq!['/'] + rest));
    assert(!"cmd"@.contains('/')) by {
        if "cmd"@.contains('/') {
            let k = choose|k: int| 0 <= k < "cmd"@.len() && "cmd"@[k] == '/';
        }
    }
    assert(!"#"@.contains('/')) by {
        if "#"@.contains('/') {
            let k = choose|k: int| 0 <= k < "#"@.len() && "#"@[k] == '/';
        }
    }
    lemma_levels_single("cmd"@);
    lemma_levels_single("#"@);
    lemma_levels_concat("cmd"@, "#"@);
    lemma_levels_concat("cmd"@, rest);
    lemma_levels_concat(b, "cmd"@ + seq!['/'] + "#"@);
    lemma_levels_concat(b, "cmd"@ + seq!['/'] + rest);
    let p = levels(b);
    let f: Seq<Seq<char>> = seq!["cmd"@, "#"@];
    let t: Seq<Seq<char>> = seq!["cmd"@] + levels(rest);
    assert(levels(b + seq!['/'] + ("cmd"@ + seq!['/'] + "#"@)) =~= p + f);
    assert(levels(b + seq!['/'] + ("cmd"@ + seq!['/'] + rest)) =~= p + t);
    lemma_match_prefix(p, f, t, 0);
    let n = p.len() as int;
    assert((p + f)[n] == "cmd"@ && (p + t)[n] == "cmd"@);
    assert("cmd"@ != "#"@ && "cmd"@ != "+"@);
    assert((p + f)[n + 1] == "#"@);
    assert(levels_match(p + f, p + t, n + 1, n + 1));
    assert(levels_match(p + f, p + t, n, n));
}

} // verus!

verus! {

proof fn lemma_split_nonempty(s: Seq<char>, i: int, st: int, acc: Seq<Seq<char>>)
    ensures
        split_levels_from(s, i, st, acc).len() >= acc.len() + 1,
    decreases s.len() - i,
{
    if i >= 0 && i < s.len() {
        if s[i] == '/' {
            lemma_split_nonempty(s, i + 1, i + 1, acc.push(s.subrange(st, i)));
        } else {
            lemma_split_nonempty(s, i + 1, st, acc);
        }
    }
}

proof fn lemma_split_levels_plain(s: Seq<char>, i: int, st: int, acc: Seq<Seq<char>>)
    requires
        0 <= st <= i <= s.len(),
        forall|k: int| st <= k < i ==> s[k] != '/',
        forall|j: int| 0 <= j < acc.len() ==> !(#[trigger] acc[j]).contains('/'),
    ensures
        forall|j: int| 0 <= j < split_levels_from(s, i, st, acc).len()
            ==> !(#[trigger] split_levels_from(s, i, st, acc)[j]).contains('/'),
    decreases s.len() - i,
{
    if i >= s.len() {
        let seg = s.subrange(st, s.len() as int);
        assert(!seg.contains('/')) by {
            if seg.contains('/') {
                let q = choose|q: int| 0 <= q < seg.len() && seg[q] == '/';
                assert(s[st + q] == '/');
            }
        }
        let r = acc.push(seg);
        assert forall|j: int| 0 <= j < r.len() implies !(#[trigger] r[j]).contains('/') by {
            if j < acc.len() {
                assert(r[j] == acc[j]);
            }
        }
        assert(split_levels_from(s, i, st, acc) == r);
    } else if s[i] == '/' {
        let seg = s.subrange(st, i);
        assert(!seg.contains('/')) by {
            if seg.contains('/') {
                let q = choose|q: int| 0 <= q < seg.len() && seg[q] == '/';
                assert(s[st + q] == '/');
            }
        }
        let r = acc.push(seg);
        assert forall|j: int| 0 <= j < r.len() implies !(#[trigger] r[j]).contains('/') by {
            if j < acc.len() {
                assert(r[j] == acc[j]);
            }
        }
        lemma_split_levels_plain(s, i + 1, i + 1, r);
        assert(split_levels_from(s, i, st, acc) == split_levels_from(s, i + 1, i + 1, r));
    } else {
        lemma_split_levels_plain(s, i + 1, st, acc);
        assert(split_levels_from(s, i, st, acc) == split_levels_from(s, i + 1, st, acc));
    }
}

/// A topic has at least one level, and no level holds a `/`.
proof fn lemma_levels_shape(s: Seq<char>)
    ensures
        levels(s).len() >= 1,
        forall|j: int| 0 <= j < levels(s).len() ==> !(#[trigger] levels(s)[j]).contains('/'),
{
    lemma_split_nonempty(s, 0, 0, seq![]);
    lemma_split_levels_plain(s, 0, 0, seq![]);
}

/// The text that levels make, joined with `/`.
pub open spec fn join_levels(ls: Seq<Seq<char>>) -> Seq<char>
    decreases ls.len(),
{
    if ls.len() == 0 {
        Seq::empty()
    } else if ls.len() == 1 {
        ls[0]
    } else {
        join_levels(ls.drop_last()) + seq!['/'] + ls.last()
    }
}

proof fn lemma_split_join(s: Seq<char>, i: int, st: int, acc: Seq<Seq<char>>)
    requires
        0 <= st <= i <= s.len(),
        (acc.len() == 0 && st == 0) || (acc.len() > 0 && join_levels(acc) + seq!['/'] == s.subrange(0, st)),
    ensures
        join_levels(split_levels_from(s, i, st, acc)) == s,
    decreases s.len() - i,
{
    if i >= s.len() {
        let seg = s.subrange(st, s.len() as int);
        let r = acc.push(seg);
        if acc.len() == 0 {
            assert(r.len() == 1);
            assert(seg =~= s);
        } else {
            assert(r.drop_last() =~= acc);
            assert(join_levels(acc) + seq!['/'] + seg =~= s.subrange(0, st) + seg);
            assert(s.subrange(0, st) + seg =~= s);
        }
    } else if s[i] == '/' {
        let seg = s.subrange(st, i);
        let r = acc.push(seg);
        if acc.len() == 0 {
            assert(join_levels(r) == seg);
            assert(seg + seq!['/'] =~= s.subrange(0, i + 1));
        } else {
            assert(r.drop_last() =~= acc);
            assert(join_levels(r) + seq!['/'] =~= s.subrange(0, st) + seg + seq!['/']);
            assert(s.subrange(0, st) + seg + seq!['/'] =~= s.subrange(0, i + 1));
        }
        lemma_split_join(s, i + 1, i + 1, r);
    } else {
        lemma_split_join(s, i + 1, st, acc);
    }
}

/// Joining the levels of a topic gives the topic back.
proof fn lemma_join_levels(s: Seq<char>)
    ensures
        join_levels(levels(s)) == s,
{
    lemma_split_join(s, 0, 0, seq![]);
}

proof fn lemma_join_concat(a: Seq<Seq<char>>, b: Seq<Seq<char>>)
    requires
        a.len() > 0,
        b.len() > 0,
    ensures
        join_levels(a + b) == join_levels(a) + seq!['/'] + join_levels(b),
    decreases b.len(),
{
    if b.len() == 1 {
        assert((a + b).drop_last() =~= a);
        assert((a + b).last() == b[0]);
    } else {
        lemma_join_concat(a, b.drop_last());
        assert((a + b).drop_last() =~= a + b.drop_last());
        assert((a + b).last() == b.last());
        assert(join_levels(a) + seq!['/'] + join_levels(b.drop_last()) + seq!['/'] + b.last()
            =~= join_levels(a) + seq!['/'] + (join_levels(b.drop_last()) + seq!['/'] + b.last()));
    }
}

/// Matching a filter that starts with plain levels `p` walks `p` level by
/// level: the topic starts with the same levels.
proof fn lemma_match_plain_prefix(p: Seq<Seq<char>>, f: Seq<Seq<char>>, t: Seq<Seq<char>>, k: int)
    requires
        plain_levels(p),
        0 <= k <= p.len(),
        levels_match(p + f, t, k, k),
    ensures
        k < p.len() ==> t.len() >= p.len(),
        forall|j: int| k <= j < p.len() ==> t[j] == p[j],
        levels_match(p + f, t, p.len() as int, p.len() as int),
    decreases p.len() - k,
{
    if k < p.len() {
        assert((p + f)[k] == p[k]);
        assert(p[k] != "+"@ && p[k] != "#"@);
        lemma_match_plain_prefix(p, f, t, k + 1);
    }
}

/// A filter without wildcard levels matches exactly the topic it spells.
pub proof fn law_plain_filter_matches_only_itself(filter: Seq<char>, topic: Seq<char>)
    requires
        plain_levels(levels(filter)),
    ensures
        filter_matches(filter, filter),
        filter_matches(filter, topic) ==> topic == filter,
{
    let p = levels(filter);
    lemma_levels_shape(filter);
    lemma_match_prefix(p, seq![], seq![], 0);
    assert(p + seq![] =~= p);
    if filter_matches(filter, topic) {
        let t = levels(topic);
        lemma_match_plain_prefix(p, seq![], t, 0);
        assert(t =~= p);
        lemma_join_levels(filter);
        lemma_join_levels(topic);
    }
}

/// `f/#` matches `f` itself and every topic under `f/`, when `f` has no
/// wildcard level.
pub proof fn law_multi_level_wildcard(f: Seq<char>, rest: Seq<char>)
    requires
        plain_levels(levels(f)),
    ensures
        filter_matches(f + "/#"@, f),
        filter_matches(f + "/#"@, f + seq!['/'] + rest),
{
    reveal_strlit("/#");
    reveal_strlit("#");
    let p = levels(f);
    assert(f + "/#"@ =~= f + seq!['/'] + "#"@);
    assert(!"#"@.contains('/')) by {
        if "#"@.contains('/') {
            let k = choose|k: int| 0 <= k < "#"@.len() && "#"@[k] == '/';
        }
    }
    lemma_levels_single("#"@);
    lemma_levels_concat(f, "#"@);
    lemma_levels_concat(f, rest);
    let fl: Seq<Seq<char>> = seq!["#"@];
    assert(levels(f + seq!['/'] + "#"@) =~= p + fl);
    lemma_match_prefix(p, fl, seq![], 0);
    assert(p + seq![] =~= p);
    assert((p + fl)[p.len() as int] == "#"@);
    assert(levels_match(p + fl, p + seq![], p.len() as int, p.len() as int));
    lemma_match_prefix(p, fl, levels(rest), 0);
    assert(levels_match(p + fl, p + levels(rest), p.len() as int, p.len() as int));
}

proof fn lemma_inner_hash(f: Seq<Seq<char>>, t: Seq<Seq<char>>, fi: int, ti: int, k: int)
    requires
        0 <= fi <= k < f.len() - 1,
        f[k] == "#"@,
    ensures
        !levels_match(f, t, fi, ti),
    decreases k - fi,
{
    if fi < k {
        lemma_inner_hash(f, t, fi + 1, ti + 1, k);
    }
}

/// A `#` that is not the last level of a filter makes it match nothing.
pub proof fn law_inner_hash_matches_nothing(filter: Seq<char>, topic: Seq<char>, k: int)
    requires
        0 <= k < levels(filter).len() - 1,
        levels(filter)[k] == "#"@,
    ensures
        !filter_matches(filter, topic),
{
    lemma_inner_hash(levels(filter), levels(topic), 0, 0, k);
}

proof fn lemma_literal_levels()
    ensures
        levels("mod"@) == seq!["mod"@],
        levels("cmd"@) == seq!["cmd"@],
        levels("state"@) == seq!["state"@],
        levels("+"@) == seq!["+"@],
        levels("#"@) == seq!["#"@],
        "mod"@ != "cmd"@,
        "state"@ != "cmd"@,
        "mod"@ != "+"@ && "mod"@ != "#"@,
        "cmd"@ != "+"@ && "cmd"@ != "#"@,
{
    reveal_strlit("mod");
    reveal_strlit("cmd");
    reveal_strlit("state");
    reveal_strlit("+");
    reveal_strlit("#");
    assert(!"mod"@.contains('/')) by {
        if "mod"@.contains('/') {
            let k = choose|k: int| 0 <= k < "mod"@.len() && "mod"@[k] == '/';
        }
    }
    assert(!"cmd"@.contains('/')) by {
        if "cmd"@.contains('/') {
            let k = choose|k: int| 0 <= k < "cmd"@.len() && "cmd"@[k] == '/';
        }
    }
    assert(!"state"@.contains('/')) by {
        if "state"@.contains('/') {
            let k = choose|k: int| 0 <= k < "state"@.len() && "state"@[k] == '/';
        }
    }
    assert(!"+"@.contains('/')) by {
        if "+"@.contains('/') {
            let k = choose|k: int| 0 <= k < "+"@.len() && "+"@[k] == '/';
        }
    }
    assert(!"#"@.contains('/')) by {
        if "#"@.contains('/') {
            let k = choose|k: int| 0 <= k < "#"@.len() && "#"@[k] == '/';
        }
    }
    lemma_levels_single("mod"@);
    lemma_levels_single("cmd"@);
    lemma_levels_single("state"@);
    lemma_levels_single("+"@);
    lemma_levels_single("#"@);
    assert("mod"@[0] != "cmd"@[0]);
    assert("state"@.len() != "cmd"@.len());
}

/// The levels of `b/mod/<id>/<last>`.
proof fn lemma_module_topic_levels(b: Seq<char>, id: Seq<char>, last: Seq<char>)
    requires
        !last.contains('/'),
    ensures
        levels(b + "/mod/"@ + id + seq!['/'] + last) == levels(b) + seq!["mod"@] + levels(id) + seq![last],
{
    reveal_strlit("/mod/");
    reveal_strlit("mod");
    lemma_literal_levels();
    lemma_levels_single(last);
    lemma_levels_concat(id, last);
    lemma_levels_concat("mod"@, id + seq!['/'] + last);
    lemma_levels_concat(b, "mod"@ + seq!['/'] + (id + seq!['/'] + last));
    assert(b + "/mod/"@ + id + seq!['/'] + last =~= b + seq!['/'] + ("mod"@ + seq!['/'] + (id + seq!['/'] + last)));
    assert(levels(b) + (seq!["mod"@] + (levels(id) + seq![last])) =~= levels(b) + seq!["mod"@] + levels(id) + seq![last]);
}

/// A module command topic never reaches the config command subscription,
/// whatever the base topic.
pub proof fn law_command_wildcard_excludes_module_commands(b: Seq<char>, id: Seq<char>)
    ensures
        !filter_matches(b + "/cmd/#"@, b + "/mod/"@ + id + "/cmd"@),
{
    reveal_strlit("/cmd/#");
    reveal_strlit("/cmd");
    reveal_strlit("cmd");
    reveal_strlit("#");
    lemma_literal_levels();
    lemma_module_topic_levels(b, id, "cmd"@);
    assert(b + "/mod/"@ + id + "/cmd"@ =~= b + "/mod/"@ + id + seq!['/'] + "cmd"@);
    lemma_command_filter_rejects_module_topic(b, levels(id) + seq!["cmd"@]);
    assert(levels(b) + seq!["mod"@] + levels(id) + seq!["cmd"@] =~= levels(b) + (seq!["mod"@] + (levels(id) + seq!["cmd"@])));
}

/// Matching a filter that starts with the levels `p` of the topic itself
/// walks `p` level by level, when `p` has no `#` level from `k` on.
proof fn lemma_match_same_prefix(p: Seq<Seq<char>>, f: Seq<Seq<char>>, t1: Seq<Seq<char>>, k: int)
    requires
        0 <= k <= p.len(),
        forall|j: int| k <= j < p.len() ==> (#[trigger] p[j]) != "#"@,
        levels_match(p + f, p + t1, k, k),
    ensures
        levels_match(p + f, p + t1, p.len() as int, p.len() as int),
    decreases p.len() - k,
{
    if k < p.len() {
        assert((p + f)[k] == p[k]);
        assert((p + t1)[k] == p[k]);
        lemma_match_same_prefix(p, f, t1, k + 1);
    }
}

/// A filter `p + f` with `f` not empty matches no topic `p + t1` whose
/// levels after `p` differ from what `f` asks at the first of them: when
/// `p` holds a `#` it is an inner one, and otherwise the match reaches the
/// first level after `p`.
proof fn lemma_same_prefix_first_level(p: Seq<Seq<char>>, f: Seq<Seq<char>>, t1: Seq<Seq<char>>)
    requires
        f.len() >= 2,
        t1.len() >= 1,
        f[0] != "+"@ && f[0] != "#"@,
        f[0] != t1[0],
    ensures
        !levels_match(p + f, p + t1, 0, 0),
{
    if exists|j: int| 0 <= j < p.len() && p[j] == "#"@ {
        let j = choose|j: int| 0 <= j < p.len() && p[j] == "#"@;
        assert((p + f)[j] == "#"@);
        lemma_inner_hash(p + f, p + t1, 0, 0, j);
    } else if levels_match(p + f, p + t1, 0, 0) {
        lemma_match_same_prefix(p, f, t1, 0);
        let n = p.len() as int;
        assert((p + f)[n] == f[0]);
        assert((p + t1)[n] == t1[0]);
    }
}

proof fn lemma_command_filter_rejects_module_topic(b: Seq<char>, tail: Seq<Seq<char>>)
    ensures
        !levels_match(levels(b + "/cmd/#"@), levels(b) + (seq!["mod"@] + tail), 0, 0),
{
    reveal_strlit("/cmd/#");
    reveal_strlit("cmd");
    reveal_strlit("#");
    lemma_literal_levels();
    assert(b + "/cmd/#"@ =~= b + seq!['/'] + ("cmd"@ + seq!['/'] + "#"@));
    lemma_levels_concat("cmd"@, "#"@);
    lemma_levels_concat(b, "cmd"@ + seq!['/'] + "#"@);
    let p = levels(b);
    let f: Seq<Seq<char>> = seq!["cmd"@, "#"@];
    assert(levels(b + "/cmd/#"@) =~= p + f);
    lemma_same_prefix_first_level(p, f, seq!["mod"@] + tail);
}

} // verus!

verus! {

/// The levels of the module command wildcard.
proof fn lemma_module_wildcard_levels(b: Seq<char>)
    ensures
        levels(b + "/mod/+/cmd"@) == levels(b) + seq!["mod"@, "+"@, "cmd"@],
{
    reveal_strlit("/mod/+/cmd");
    reveal_strlit("/mod/");
    reveal_strlit("+");
    reveal_strlit("cmd");
    lemma_literal_levels();
    lemma_module_topic_levels(b, "+"@, "cmd"@);
    assert(b + "/mod/+/cmd"@ =~= b + "/mod/"@ + "+"@ + seq!['/'] + "cmd"@);
    assert(levels(b) + seq!["mod"@] + seq!["+"@] + seq!["cmd"@] =~= levels(b) + seq!["mod"@, "+"@, "cmd"@]);
}

/// A published module state never reaches a command subscription: neither
/// the module command wildcard nor the config command wildcard matches it,
/// whatever the base topic.
pub proof fn law_module_state_matches_no_command_filter(b: Seq<char>, id: Seq<char>)
    ensures
        !filter_matches(b + "/mod/+/cmd"@, b + "/mod/"@ + id + "/state"@),
        !filter_matches(b + "/cmd/#"@, b + "/mod/"@ + id + "/state"@),
{
    reveal_strlit("/state");
    reveal_strlit("state");
    lemma_literal_levels();
    let topic = b + "/mod/"@ + id + "/state"@;
    assert(topic =~= b + "/mod/"@ + id + seq!['/'] + "state"@);
    lemma_module_topic_levels(b, id, "state"@);
    let p = levels(b);
    let l = levels(id);
    let t = p + seq!["mod"@] + l + seq!["state"@];
    assert(levels(topic) == t);
    lemma_command_filter_rejects_module_topic(b, l + seq!["state"@]);
    assert(t =~= p + (seq!["mod"@] + (l + seq!["state"@])));
    lemma_module_wildcard_levels(b);
    let f: Seq<Seq<char>> = seq!["mod"@, "+"@, "cmd"@];
    let t1 = seq!["mod"@] + l + seq!["state"@];
    assert(t =~= p + t1);
    lemma_levels_shape(id);
    let n = p.len() as int;
    if exists|j: int| 0 <= j < p.len() && p[j] == "#"@ {
        let j = choose|j: int| 0 <= j < p.len() && p[j] == "#"@;
        assert((p + f)[j] == "#"@);
        lemma_inner_hash(p + f, p + t1, 0, 0, j);
    } else if levels_match(p + f, p + t1, 0, 0) {
        lemma_match_same_prefix(p, f, t1, 0);
        assert(t.len() == n + 2 + l.len());
        assert(t[n] == "mod"@);
        assert((p + f)[n] == "mod"@ && (p + f)[n + 1] == "+"@ && (p + f)[n + 2] == "cmd"@);
        assert(levels_match(p + f, t, n + 1, n + 1));
        assert(levels_match(p + f, t, n + 2, n + 2));
        if l.len() == 1 {
            assert(t[n + 2] == "state"@);
        } else {
            assert(levels_match(p + f, t, n + 3, n + 3));
        }
    }
}

/// Every topic that the module command wildcard matches is a module command
/// topic `<base>/mod/<x>/cmd` of one level `x`, and parsing it gives back
/// `x`, or none when `x` is empty; such a topic never has overlapping prefix
/// and suffix. The base topic has no wildcard level.
pub proof fn law_module_wildcard_parses_back(b: Seq<char>, topic: Seq<char>)
    requires
        plain_levels(levels(b)),
        filter_matches(b + "/mod/+/cmd"@, topic),
    ensures
        !overlapping_module_topic(b, topic),
        match module_command_id(b, topic) {
            Some(x) => topic == b + "/mod/"@ + x + "/cmd"@ && !x.contains('/'),
            None => topic == b + "/mod/"@ + "/cmd"@,
        },
{
    reveal_strlit("/mod/");
    reveal_strlit("/cmd");
    reveal_strlit("mod");
    reveal_strlit("cmd");
    lemma_literal_levels();
    lemma_module_wildcard_levels(b);
    lemma_levels_shape(b);
    lemma_levels_shape(topic);
    let p = levels(b);
    let t = levels(topic);
    let f: Seq<Seq<char>> = seq!["mod"@, "+"@, "cmd"@];
    let n = p.len() as int;
    lemma_match_plain_prefix(p, f, t, 0);
    assert((p + f)[n] == "mod"@ && (p + f)[n + 1] == "+"@ && (p + f)[n + 2] == "cmd"@);
    assert(levels_match(p + f, t, n + 1, n + 1));
    assert(levels_match(p + f, t, n + 2, n + 2));
    assert(levels_match(p + f, t, n + 3, n + 3));
    let x = t[n + 1];
    assert(!x.contains('/'));
    let tail: Seq<Seq<char>> = seq!["mod"@, x, "cmd"@];
    assert(t =~= p + tail);
    lemma_join_levels(topic);
    lemma_join_levels(b);
    lemma_join_concat(p, tail);
    assert(tail.drop_last() =~= seq!["mod"@, x]);
    assert(seq!["mod"@, x].drop_last() =~= seq!["mod"@]);
    assert(join_levels(seq!["mod"@]) == "mod"@);
    assert(seq!["mod"@, x].last() == x);
    assert(join_levels(seq!["mod"@, x]) == "mod"@ + seq!['/'] + x);
    assert(tail.last() == "cmd"@);
    assert(join_levels(tail) == join_levels(seq!["mod"@, x]) + seq!['/'] + "cmd"@);
    assert(topic =~= module_prefix(b) + x + "/cmd"@);
    lemma_command_topic_round_trip(module_prefix(b), x);
    if x.len() == 0 {
        assert(module_prefix(b) + x =~= module_prefix(b));
    }
}

} // verus!
