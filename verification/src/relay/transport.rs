use vstd::prelude::*;
use crate::structures::error::{TResult, TransportError};

verus! {

/// The part that an endpoint plays when its connection is set up.
#[derive(Debug, Clone, Copy, PartialEq, Eq, Structural)]
pub enum Role {
    /// Binds locally and waits for the counterpart.
    Listener,
    /// Reaches out to a known remote address.
    Caller,
}

/// Where an endpoint stands in its life cycle.
///
/// An endpoint starts in `Init`. Opening takes a listener to `Listening` and
/// a caller to `Connected`. Closing takes any state to `Closed`, and nothing
/// leaves `Closed`.
#[derive(Debug, Clone, Copy, PartialEq, Eq, Structural)]
pub enum EndpointState {
    Init,
    Listening,
    Connected,
    Closed,
}

/// The state that opening gives an endpoint of the role `role`.
pub open spec fn opened_state(role: Role) -> EndpointState {
    match role {
        Role::Listener => EndpointState::Listening,
        Role::Caller => EndpointState::Connected,
    }
}

/// The state of an endpoint after an attempt to open it: from `Init` the
/// open state of its role, and from any other state that state again.
pub open spec fn after_open(role: Role, state: EndpointState) -> EndpointState {
    if state is Init {
        opened_state(role)
    } else {
        state
    }
}

/// The state of an endpoint after it has been closed.
pub open spec fn after_close(state: EndpointState) -> EndpointState {
    EndpointState::Closed
}

/// Nothing leaves `Closed`: neither opening nor closing a closed endpoint
/// changes its state.
pub proof fn lemma_closed_is_terminal(role: Role)
    ensures
        after_open(role, EndpointState::Closed) == EndpointState::Closed,
        after_close(EndpointState::Closed) == EndpointState::Closed,
{
}

/// An endpoint is opened once: a second attempt changes nothing.
pub proof fn lemma_open_happens_once(role: Role, state: EndpointState)
    ensures
        after_open(role, after_open(role, state)) == after_open(role, state),
        after_open(role, state) is Init ==> false,
{
}

/// Closing is idempotent, and from every state it leads to `Closed`.
pub proof fn lemma_close_is_idempotent(state: EndpointState)
    ensures
        after_close(state) == EndpointState::Closed,
        after_close(after_close(state)) == after_close(state),
{
}

/// Whether `e` is an error that an attempt to open may give to an endpoint
/// in the state `state`: an endpoint in `Init` fails with `Io` or
/// `InvalidUri`, and a closed one with `Closed`. Of an endpoint that is
/// open already nothing is laid down but that the attempt fails.
pub open spec fn open_error_fits(state: EndpointState, e: TransportError) -> bool {
    match state {
        EndpointState::Init => e is Io || e is InvalidUri,
        EndpointState::Closed => e is Closed,
        _ => true,
    }
}

/// Whether an endpoint in the state `state` can receive or send.
pub open spec fn is_open(state: EndpointState) -> bool {
    state is Listening || state is Connected
}

/// The life cycle that every endpoint offers.
///
/// An endpoint is opened once, from `Init`, and may be closed at any time
/// and any number of times.
pub trait TransportMeta {
    /// Where the endpoint stands in its life cycle, for contracts.
    spec fn state_spec(&self) -> EndpointState;

    /// The role that the endpoint was made for, for contracts.
    spec fn role_spec(&self) -> Role;

    /// Where the endpoint stands in its life cycle.
    fn state(&self) -> (s: EndpointState)
        ensures
            s == self.state_spec(),
    ;

    /// The role that the endpoint was made for.
    fn role(&self) -> (r: Role)
        ensures
            r == self.role_spec(),
    ;

    /// Opens the endpoint. Success is had only from `Init` and leads to the
    /// open state of the role; a failure leaves the state as it was. An
    /// endpoint in `Init` fails with `Io` or `InvalidUri` if it fails, and a
    /// closed endpoint fails with `Closed`.
    fn open(&mut self) -> (r: TResult<()>)
        ensures
            final(self).role_spec() == old(self).role_spec(),
            r is Ok ==> old(self).state_spec() is Init && final(self).state_spec() == opened_state(
                old(self).role_spec(),
            ),
            r is Err ==> final(self).state_spec() == old(self).state_spec(),
            !(old(self).state_spec() is Init) ==> r is Err,
            r matches Err(e) ==> open_error_fits(old(self).state_spec(), e),
    ;

    /// Closes the endpoint, whatever its state.
    fn close(&mut self)
        ensures
            final(self).role_spec() == old(self).role_spec(),
            final(self).state_spec() is Closed,
    ;

    /// A description of the endpoint fit for logs.
    fn describe(&self) -> String;
}

} // verus!
