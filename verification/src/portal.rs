//! The HTTP side of the device: which handler a request reaches on the
//! captive portal and on the normal-mode server, the bounded reading of a
//! request body, and the texts of the portal's action responses.

use vstd::prelude::*;

use crate::error::{is_message, AppError};
use crate::text::{owned, text_eq};

verus! {

#[derive(Debug, Clone, Copy, PartialEq, Eq, Structural)]
pub enum HttpMethod {
    Get,
    Post,
    Other,
}

/// The handlers of the captive portal.
#[derive(Debug, Clone, Copy, PartialEq, Eq, Structural)]
pub enum PortalRoute {
    ProvisioningPage,
    Stylesheet,
    Script,
    ProvisioningStatus,
    Networks,
    TestWifi,
    WifiStatus,
    SaveWifi,
    TestMqtt,
    MqttStatus,
    SaveMqtt,
    /// The path is served, but not for this method: every path is, by the
    /// provisioning page's `GET` handler.
    MethodNotAllowed,
}

/// The handlers of the normal-mode server.
#[derive(Debug, Clone, Copy, PartialEq, Eq, Structural)]
pub enum ServerRoute {
    Index,
    ResetConfiguration,
    /// The path is served, but not for this method.
    MethodNotAllowed,
    /// No handler serves the path.
    NotFound,
}

/// The path of a request target: the text before the first `?`.
pub open spec fn path_of(uri: Seq<char>) -> Seq<char>
    decreases uri.len(),
{
    if uri.len() == 0 || uri[0] == '?' {
        Seq::empty()
    } else {
        seq![uri[0]] + path_of(uri.drop_first())
    }
}

/// The portal handler for a request. Handlers are tried in the order they
/// are registered; the last one serves the provisioning page for every other
/// `GET`, so that any address leads to the portal. A request whose method
/// no handler of its path takes is refused as a method not allowed; as the
/// last handler takes every path, no request is refused as not found.
pub open spec fn portal_route_for(method: HttpMethod, path: Seq<char>) -> PortalRoute {
    match method {
        HttpMethod::Get => if path == "/"@ {
            PortalRoute::ProvisioningPage
        } else if path == "/assets/provisioning.css"@ {
            PortalRoute::Stylesheet
        } else if path == "/assets/provisioning.js"@ {
            PortalRoute::Script
        } else if path == "/api/provisioning/status"@ {
            PortalRoute::ProvisioningStatus
        } else if path == "/api/networks"@ {
            PortalRoute::Networks
        } else if path == "/api/wifi-status"@ {
            PortalRoute::WifiStatus
        } else if path == "/api/mqtt-status"@ {
            PortalRoute::MqttStatus
        } else {
            PortalRoute::ProvisioningPage
        },
        HttpMethod::Post => if path == "/api/test-wifi"@ {
            PortalRoute::TestWifi
        } else if path == "/api/save-wifi"@ {
            PortalRoute::SaveWifi
        } else if path == "/api/test-mqtt"@ {
            PortalRoute::TestMqtt
        } else if path == "/api/save-mqtt"@ {
            PortalRoute::SaveMqtt
        } else {
            PortalRoute::MethodNotAllowed
        },
        HttpMethod::Other => PortalRoute::MethodNotAllowed,
    }
}

/// The normal-mode handler for a request: the index page on `GET /`, the
/// reset on `POST /api/reset-configuration`; another method on one of these
/// two paths is not allowed, and any other path is not found.
pub open spec fn server_route_for(method: HttpMethod, path: Seq<char>) -> ServerRoute {
    if method == HttpMethod::Get && path == "/"@ {
        ServerRoute::Index
    } else if method == HttpMethod::Post && path == "/api/reset-configuration"@ {
        ServerRoute::ResetConfiguration
    } else if path == "/"@ || path == "/api/reset-configuration"@ {
        ServerRoute::MethodNotAllowed
    } else {
        ServerRoute::NotFound
    }
}

/// The path of a request target.
pub fn request_path(uri: &str) -> (res: &str)
    ensures
        res@ == path_of(uri@),
{
    let n = uri.unicode_len();
    let mut i: usize = 0;
    while i < n
        invariant
            n == uri@.len(),
            i <= n,
            forall|k: int| 0 <= k < i ==> uri@[k] != '?',
        decreases n - i,
    {
        if uri.get_char(i) == '?' {
            proof {
                lemma_path_of_first(uri@, i as int);
            }
            return uri.substring_char(0, i);
        }
        i = i + 1;
    }
    proof {
        lemma_path_of_first(uri@, n as int);
    }
    uri
}

/// The path ends at the first `?`, or is the whole target without one.
proof fn lemma_path_of_first(uri: Seq<char>, i: int)
    requires
        0 <= i <= uri.len(),
        forall|k: int| 0 <= k < i ==> uri[k] != '?',
        i < uri.len() ==> uri[i] == '?',
    ensures
        path_of(uri) == uri.subrange(0, i),
    decreases uri.len(),
{
    if i == 0 {
        assert(uri.subrange(0, 0) =~= Seq::<char>::empty());
    } else {
        let d = uri.drop_first();
        lemma_path_of_first(d, i - 1);
        assert(seq![uri[0]] + d.subrange(0, i - 1) =~= uri.subrange(0, i));
    }
}

/// The portal handler for a request.
pub fn portal_route(method: HttpMethod, path: &str) -> (res: PortalRoute)
    ensures
        res == portal_route_for(method, path@),
{
    match method {
        HttpMethod::Get => {
            if text_eq(path, "/") {
                PortalRoute::ProvisioningPage
            } else if text_eq(path, "/assets/provisioning.css") {
                PortalRoute::Stylesheet
            } else if text_eq(path, "/assets/provisioning.js") {
                PortalRoute::Script
            } else if text_eq(path, "/api/provisioning/status") {
                PortalRoute::ProvisioningStatus
            } else if text_eq(path, "/api/networks") {
                PortalRoute::Networks
            } else if text_eq(path, "/api/wifi-status") {
                PortalRoute::WifiStatus
            } else if text_eq(path, "/api/mqtt-status") {
                PortalRoute::MqttStatus
            } else {
                PortalRoute::ProvisioningPage
            }
        },
        HttpMethod::Post => {
            if text_eq(path, "/api/test-wifi") {
                PortalRoute::TestWifi
            } else if text_eq(path, "/api/save-wifi") {
                PortalRoute::SaveWifi
            } else if text_eq(path, "/api/test-mqtt") {
                PortalRoute::TestMqtt
            } else if text_eq(path, "/api/save-mqtt") {
                PortalRoute::SaveMqtt
            } else {
                PortalRoute::MethodNotAllowed
            }
        },
        HttpMethod::Other => PortalRoute::MethodNotAllowed,
    }
}

/// The normal-mode handler for a request.
pub fn server_route(method: HttpMethod, path: &str) -> (res: ServerRoute)
    ensures
        res == server_route_for(method, path@),
{
    if method == HttpMethod::Get && text_eq(path, "/") {
        ServerRoute::Index
    } else if method == HttpMethod::Post && text_eq(path, "/api/reset-configuration") {
        ServerRoute::ResetConfiguration
    } else if text_eq(path, "/") || text_eq(path, "/api/reset-configuration") {
        ServerRoute::MethodNotAllowed
    } else {
        ServerRoute::NotFound
    }
}

/// The answer of an action request.
#[derive(Debug, Clone, PartialEq, Eq)]
pub struct ActionResponse {
    pub ok: bool,
    pub message: String,
}

/// A successful action's answer.
pub open spec fn answers(r: ActionResponse, message: Seq<char>) -> bool {
    r.ok && r.message@ == message
}

impl ActionResponse {
    pub fn wifi_test_started() -> (res: ActionResponse)
        ensures
            answers(res, "Wi-Fi test started. Polling for result."@),
    {
        ActionResponse { ok: true, message: owned("Wi-Fi test started. Polling for result.") }
    }

    pub fn wifi_saved() -> (res: ActionResponse)
        ensures
            answers(res, "Wi-Fi configuration saved. MQTT setup is next."@),
    {
        ActionResponse { ok: true, message: owned("Wi-Fi configuration saved. MQTT setup is next.") }
    }

    pub fn mqtt_test_started() -> (res: ActionResponse)
        ensures
            answers(res, "Broker connection check started."@),
    {
        ActionResponse { ok: true, message: owned("Broker connection check started.") }
    }

    /// The answer to a saved broker configuration, with the flow's message.
    pub fn mqtt_saved(message: String) -> (res: ActionResponse)
        ensures
            answers(res, message@),
    {
        ActionResponse { ok: true, message }
    }

    pub fn configuration_cleared() -> (res: ActionResponse)
        ensures
            answers(res, "Configuration cleared. Rebooting device."@),
    {
        ActionResponse { ok: true, message: owned("Configuration cleared. Rebooting device.") }
    }
}

/// The most bytes a request body may have.
pub const MAX_BODY_BYTES: usize = 4096;

/// A request body as it is read, chunk by chunk.
#[derive(Debug)]
pub struct RequestBody {
    bytes: Vec<u8>,
}

impl RequestBody {
    pub closed spec fn bytes_spec(self) -> Seq<u8> {
        self.bytes@
    }

    pub fn new() -> (res: RequestBody)
        ensures
            res.bytes_spec() == Seq::<u8>::empty(),
    {
        RequestBody { bytes: Vec::new() }
    }

    /// Appends a chunk that was read; a body grown past the limit is refused.
    pub fn append_chunk(&mut self, chunk: &[u8]) -> (res: Result<(), AppError>)
        requires
            old(self).bytes_spec().len() <= MAX_BODY_BYTES,
        ensures
            final(self).bytes_spec() == old(self).bytes_spec() + chunk@,
            final(self).bytes_spec().len() <= MAX_BODY_BYTES <==> res is Ok,
            res matches Err(e) ==> is_message(e, "Request body too large"@),
    {
        let ghost start = self.bytes@;
        let mut i: usize = 0;
        while i < chunk.len()
            invariant
                i <= chunk@.len(),
                self.bytes@ == start + chunk@.subrange(0, i as int),
                start.len() <= MAX_BODY_BYTES,
            decreases chunk@.len() - i,
        {
            self.bytes.push(chunk[i]);
            i = i + 1;
        }
        assert(chunk@.subrange(0, chunk@.len() as int) =~= chunk@);
        if self.bytes.len() > MAX_BODY_BYTES {
            return Err(AppError::Message(owned("Request body too large")));
        }
        Ok(())
    }

    /// The body once the reading ended; an empty body is refused.
    pub fn finish(self) -> (res: Result<Vec<u8>, AppError>)
        ensures
            self.bytes_spec().len() == 0 ==> (res matches Err(e) && is_message(e, "Request body is empty"@)),
            self.bytes_spec().len() > 0 ==> (res matches Ok(b) && b@ == self.bytes_spec()),
    {
        if self.bytes.len() == 0 {
            return Err(AppError::Message(owned("Request body is empty")));
        }
        Ok(self.bytes)
    }
}

} // verus!
