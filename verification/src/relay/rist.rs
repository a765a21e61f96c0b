use vstd::prelude::*;
use crate::common::text::{chars_of, strip_all, strip_prefix_all};
use crate::relay::endpoint::{
    describe_spec, describe_with, remote_address, remote_of_rest, resolve_rest, role_of,
    role_of_rest, wildcard_host, Endpoint,
};
use crate::relay::transport::{after_open, EndpointState, Role, TransportMeta};
use crate::structures::error::TResult;

verus! {

/// The scheme that RIST endpoint URIs begin with.
pub const SCHEME: &'static str = "rist://";

/// The tag of the RIST protocol.
pub const TAG: &'static str = "rist";

/// `uri` without the scheme `rist://` at its front, as often as it stands
/// there.
pub fn strip_scheme(uri: &str) -> (r: &str)
    ensures
        r@ == strip_all(uri@, SCHEME@),
{
    strip_prefix_all(uri, SCHEME)
}

/// Whether `uri` asks for a listener: behind the scheme, its host is the
/// marker `@` or its query holds `mode=listener`.
pub fn is_listener_uri(uri: &str) -> (r: bool)
    ensures
        r == (role_of(strip_all(uri@, SCHEME@)) == Role::Listener),
{
    let rest = chars_of(strip_scheme(uri));
    match role_of_rest(rest.as_slice()) {
        Role::Listener => true,
        Role::Caller => false,
    }
}

/// The remote host and port that `uri` names behind the scheme, if it
/// names both: a host that is not the listener marker, and a port.
pub fn parse_host_port(uri: &str) -> (r: Option<(String, u16)>)
    ensures
        match remote_address(strip_all(uri@, SCHEME@)) {
            Some(a) => r matches Some(hp) && hp.0@ == a.0 && hp.1 == a.1,
            None => r is None,
        },
{
    let rest = chars_of(strip_scheme(uri));
    remote_of_rest(rest.as_slice())
}

/// Describes `uri` under the label `prefix`, with its secrets masked.
pub fn describe_uri(prefix: &str, uri: &str) -> (r: String)
    ensures
        r@ == describe_spec(prefix@, uri@),
{
    describe_with(prefix, uri)
}

/// The receiving end of a RIST relay.
#[derive(Debug, PartialEq, Eq)]
pub struct RistReceiver {
    pub core: Endpoint,
}

/// The sending end of a RIST relay.
#[derive(Debug, PartialEq, Eq)]
pub struct RistSender {
    pub core: Endpoint,
}

impl RistReceiver {
    /// The receiver for the input URI `uri`: it will bind the wildcard
    /// host on the port that the URI names. A URI that names no port is
    /// refused as `InvalidUri`.
    pub fn from_input_uri(uri: &str) -> (r: TResult<RistReceiver>)
        ensures
            match resolve_rest(TAG@, strip_all(uri@, SCHEME@)) {
                Some(a) => r matches Ok(rx) && rx.core.uri@ == uri@ && rx.core.host@
                    == wildcard_host() && rx.core.port == a.port && rx.core.role == Role::Listener
                    && rx.core.state == EndpointState::Init,
                None => r matches Err(err) && err.is_invalid_uri(uri@),
            },
    {
        match Endpoint::for_input(uri, SCHEME, TAG) {
            Ok(core) => Ok(RistReceiver { core }),
            Err(e) => Err(e),
        }
    }
}

impl RistSender {
    /// The sender for the output URI `uri`: it will reach the remote host
    /// and port that the URI names. A URI that names no remote host, as
    /// one with the listener marker does, or no port, is refused as
    /// `InvalidUri`.
    pub fn from_output_uri(uri: &str) -> (r: TResult<RistSender>)
        ensures
            match remote_address(strip_all(uri@, SCHEME@)) {
                Some(a) => r matches Ok(tx) && tx.core.uri@ == uri@ && tx.core.host@ == a.0
                    && tx.core.port == a.1 && tx.core.role == Role::Caller && tx.core.state
                    == EndpointState::Init,
                None => r matches Err(err) && err.is_invalid_uri(uri@),
            },
    {
        match Endpoint::for_output(uri, SCHEME) {
            Ok(core) => Ok(RistSender { core }),
            Err(e) => Err(e),
        }
    }
}

impl TransportMeta for RistReceiver {
    open spec fn state_spec(&self) -> EndpointState {
        self.core.state
    }

    open spec fn role_spec(&self) -> Role {
        self.core.role
    }

    fn state(&self) -> (s: EndpointState) {
        self.core.state
    }

    fn role(&self) -> (r: Role) {
        self.core.role
    }

    /// Opens the receiver: from `Init` it goes to the open state of its
    /// role, and from nowhere else.
    fn open(&mut self) -> (r: TResult<()>)
        ensures
            r is Ok <==> old(self).core.state is Init,
            final(self).core.state == after_open(old(self).core.role, old(self).core.state),
            final(self).core.uri == old(self).core.uri,
            final(self).core.host == old(self).core.host,
            final(self).core.port == old(self).core.port,
    {
        self.core.open()
    }

    fn close(&mut self)
        ensures
            final(self).core.uri == old(self).core.uri,
            final(self).core.host == old(self).core.host,
            final(self).core.port == old(self).core.port,
    {
        self.core.close()
    }

    /// `input=` and the URI with its secrets masked.
    fn describe(&self) -> (r: String)
        ensures
            r@ == describe_spec("input"@, self.core.uri@),
    {
        describe_uri("input", self.core.uri.as_str())
    }
}

impl TransportMeta for RistSender {
    open spec fn state_spec(&self) -> EndpointState {
        self.core.state
    }

    open spec fn role_spec(&self) -> Role {
        self.core.role
    }

    fn state(&self) -> (s: EndpointState) {
        self.core.state
    }

    fn role(&self) -> (r: Role) {
        self.core.role
    }

    /// Opens the sender: from `Init` it goes to the open state of its
    /// role, and from nowhere else.
    fn open(&mut self) -> (r: TResult<()>)
        ensures
            r is Ok <==> old(self).core.state is Init,
            final(self).core.state == after_open(old(self).core.role, old(self).core.state),
            final(self).core.uri == old(self).core.uri,
            final(self).core.host == old(self).core.host,
            final(self).core.port == old(self).core.port,
    {
        self.core.open()
    }

    fn close(&mut self)
        ensures
            final(self).core.uri == old(self).core.uri,
            final(self).core.host == old(self).core.host,
            final(self).core.port == old(self).core.port,
    {
        self.core.close()
    }

    /// `output=` and the URI with its secrets masked.
    fn describe(&self) -> (r: String)
        ensures
            r@ == describe_spec("output"@, self.core.uri@),
    {
        describe_uri("output", self.core.uri.as_str())
    }
}

} // verus!
