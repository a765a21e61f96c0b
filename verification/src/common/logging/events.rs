use vstd::prelude::*;

verus! {

pub const APP_START: &'static str = "app_start";

pub const APP_READY: &'static str = "app_ready";

pub const APP_SHUTDOWN: &'static str = "app_shutdown";

pub const HTTP_REQUEST: &'static str = "http_request";

pub const HTTP_RESPONSE: &'static str = "http_response";

pub const RELAY_START: &'static str = "relay_start";

pub const RELAY_STOP: &'static str = "relay_stop";

pub const RELAY_ERROR: &'static str = "relay_error";

pub const PEER_CONNECTED: &'static str = "peer_connected";

pub const PEER_DISCONNECTED: &'static str = "peer_disconnected";

pub const RECONNECT_SCHEDULED: &'static str = "reconnect_scheduled";

pub const RECONNECT_ATTEMPT: &'static str = "reconnect_attempt";

pub const RECONNECT_SUCCESS: &'static str = "reconnect_success";

pub const RECONNECT_GIVEUP: &'static str = "reconnect_giveup";

} // verus!
