use vstd::prelude::*;
use vstd::string::StringExecFns;
use crate::common::text::{
    chars_of, decimal, push_decimal, string_of, strip_all, strip_prefix_all,
};
use crate::relay::endpoint::{
    describe_spec, describe_with, remote_address, remote_of_rest, resolve_rest, role_of,
    role_of_rest, wildcard_host, Endpoint,
};
use crate::relay::transport::{after_open, EndpointState, Role, TransportMeta};
use crate::structures::error::TResult;

verus! {

/// The scheme that SRT endpoint URIs begin with.
pub const SCHEME: &'static str = "srt://";

/// The tag of the SRT protocol.
pub const TAG: &'static str = "srt";

/// What an SRT endpoint adds to its description before the latency.
pub const LATENCY_LABEL: &'static str = " latency_ms=";

/// `uri` without the scheme `srt://` at its front, as often as it stands
/// there.
pub fn strip_scheme(uri: &str) -> (r: &str)
    ensures
        r@ == strip_all(uri@, SCHEME@),
{
    strip_prefix_all(uri, SCHEME)
}

/// Whether `uri` asks for a listener: behind the scheme, its host is the
/// marker `@` or its query holds `mode=listener`.
pub fn is_listener_uri(uri: &str) -> (r: bool)
    ensures
        r == (role_of(strip_all(uri@, SCHEME@)) == Role::Listener),
{
    let rest = chars_of(strip_scheme(uri));
    match role_of_rest(rest.as_slice()) {
        Role::Listener => true,
        Role::Caller => false,
    }
}

/// The remote host and port that `uri` names behind the scheme, if it
/// names both: a host that is not the listener marker, and a port.
pub fn parse_host_port(uri: &str) -> (r: Option<(String, u16)>)
    ensures
        match remote_address(strip_all(uri@, SCHEME@)) {
            Some(a) => r matches Some(hp) && hp.0@ == a.0 && hp.1 == a.1,
            None => r is None,
        },
{
    let rest = chars_of(strip_scheme(uri));
    remote_of_rest(rest.as_slice())
}

/// Describes `uri` under the label `prefix`, with its secrets masked.
pub fn describe_uri(prefix: &str, uri: &str) -> (r: String)
    ensures
        r@ == describe_spec(prefix@, uri@),
{
    describe_with(prefix, uri)
}

/// The description of an SRT endpoint: that of its URI, and the latency.
pub open spec fn describe_with_latency(prefix: Seq<char>, uri: Seq<char>, latency_ms: u64) -> Seq<
    char,
> {
    describe_spec(prefix, uri) + LATENCY_LABEL@ + decimal(latency_ms as nat)
}

/// Describes an SRT endpoint: its URI under the label `prefix`, with its
/// secrets masked, and the latency.
fn describe_endpoint(prefix: &str, uri: &str, latency_ms: u64) -> (r: String)
    ensures
        r@ == describe_with_latency(prefix@, uri@, latency_ms),
{
    let mut digits: Vec<char> = Vec::new();
    push_decimal(&mut digits, latency_ms);
    assert(digits@ =~= decimal(latency_ms as nat));
    let number = string_of(digits.as_slice());
    describe_uri(prefix, uri).concat(LATENCY_LABEL).concat(number.as_str())
}

/// The receiving end of an SRT relay.
#[derive(Debug, PartialEq, Eq)]
pub struct SrtReceiver {
    pub core: Endpoint,
    pub latency_ms: u64,
}

/// The sending end of an SRT relay.
#[derive(Debug, PartialEq, Eq)]
pub struct SrtSender {
    pub core: Endpoint,
    pub latency_ms: u64,
}

impl SrtReceiver {
    /// The receiver for the input URI `uri`: it will bind the wildcard
    /// host on the port that the URI names. A URI that names no port is
    /// refused as `InvalidUri`.
    pub fn from_input_uri(uri: &str, latency_ms: u64) -> (r: TResult<SrtReceiver>)
        ensures
            match resolve_rest(TAG@, strip_all(uri@, SCHEME@)) {
                Some(a) => r matches Ok(rx) && rx.latency_ms == latency_ms && rx.core.uri@ == uri@
                    && rx.core.host@ == wildcard_host() && rx.core.port == a.port && rx.core.role
                    == Role::Listener && rx.core.state == EndpointState::Init,
                None => r matches Err(err) && err.is_invalid_uri(uri@),
            },
    {
        match Endpoint::for_input(uri, SCHEME, TAG) {
            Ok(core) => Ok(SrtReceiver { core, latency_ms }),
            Err(e) => Err(e),
        }
    }
}

impl SrtSender {
    /// The sender for the output URI `uri`: it will reach the remote host
    /// and port that the URI names. A URI that names no remote host, as
    /// one with the listener marker does, or no port, is refused as
    /// `InvalidUri`.
    pub fn from_output_uri(uri: &str, latency_ms: u64) -> (r: TResult<SrtSender>)
        ensures
            match remote_address(strip_all(uri@, SCHEME@)) {
                Some(a) => r matches Ok(tx) && tx.latency_ms == latency_ms && tx.core.uri@ == uri@
                    && tx.core.host@ == a.0 && tx.core.port == a.1 && tx.core.role == Role::Caller
                    && tx.core.state == EndpointState::Init,
                None => r matches Err(err) && err.is_invalid_uri(uri@),
            },
    {
        match Endpoint::for_output(uri, SCHEME) {
            Ok(core) => Ok(SrtSender { core, latency_ms }),
            Err(e) => Err(e),
        }
    }
}

impl TransportMeta for SrtReceiver {
    open spec fn state_spec(&self) -> EndpointState {
        self.core.state
    }

    open spec fn role_spec(&self) -> Role {
        self.core.role
    }

    fn state(&self) -> (s: EndpointState) {
        self.core.state
    }

    fn role(&self) -> (r: Role) {
        self.core.role
    }

    /// Opens the receiver: from `Init` it goes to the open state of its
    /// role, and from nowhere else.
    fn open(&mut self) -> (r: TResult<()>)
        ensures
            r is Ok <==> old(self).core.state is Init,
            final(self).core.state == after_open(old(self).core.role, old(self).core.state),
            final(self).core.uri == old(self).core.uri,
            final(self).core.host == old(self).core.host,
            final(self).core.port == old(self).core.port,
            final(self).latency_ms == old(self).latency_ms,
    {
        self.core.open()
    }

    fn close(&mut self)
        ensures
            final(self).core.uri == old(self).core.uri,
            final(self).core.host == old(self).core.host,
            final(self).core.port == old(self).core.port,
            final(self).latency_ms == old(self).latency_ms,
    {
        self.core.close()
    }

    /// `input=`, the URI with its secrets masked, and the latency.
    fn describe(&self) -> (r: String)
        ensures
            r@ == describe_with_latency("input"@, self.core.uri@, self.latency_ms),
    {
        describe_endpoint("input", self.core.uri.as_str(), self.latency_ms)
    }
}

impl TransportMeta for SrtSender {
    open spec fn state_spec(&self) -> EndpointState {
        self.core.state
    }

    open spec fn role_spec(&self) -> Role {
        self.core.role
    }

    fn state(&self) -> (s: EndpointState) {
        self.core.state
    }

    fn role(&self) -> (r: Role) {
        self.core.role
    }

    /// Opens the sender: from `Init` it goes to the open state of its
    /// role, and from nowhere else.
    fn open(&mut self) -> (r: TResult<()>)
        ensures
            r is Ok <==> old(self).core.state is Init,
            final(self).core.state == after_open(old(self).core.role, old(self).core.state),
            final(self).core.uri == old(self).core.uri,
            final(self).core.host == old(self).core.host,
            final(self).core.port == old(self).core.port,
            final(self).latency_ms == old(self).latency_ms,
    {
        self.core.open()
    }

    fn close(&mut self)
        ensures
            final(self).core.uri == old(self).core.uri,
            final(self).core.host == old(self).core.host,
            final(self).core.port == old(self).core.port,
            final(self).latency_ms == old(self).latency_ms,
    {
        self.core.close()
    }

    /// `output=`, the URI with its secrets masked, and the latency.
    fn describe(&self) -> (r: String)
        ensures
            r@ == describe_with_latency("output"@, self.core.uri@, self.latency_ms),
    {
        describe_endpoint("output", self.core.uri.as_str(), self.latency_ms)
    }
}

} // verus!
