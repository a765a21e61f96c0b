use vstd::prelude::*;
use vstd::string::StringExecFns;
use crate::relay::transport::{open_error_fits, opened_state, EndpointState, TransportMeta};
use crate::structures::error::{TResult, TransportError};
use crate::structures::metrics::{protocol_code_of, Metrics, MetricsView};

verus! {

/// Size of the buffer that a relay receives into, in bytes.
pub const RELAY_BUFFER_LEN: usize = 64 * 1024;

/// How long a relay sleeps after a receive that timed out, milliseconds.
pub const IDLE_SLEEP_MS: u64 = 5;

/// What has just happened in a relay.
#[derive(Debug, PartialEq, Eq)]
pub enum PipeEvent {
    /// The receiver has answered: so many bytes stand in the buffer, or the
    /// receive failed.
    Received(TResult<usize>),
    /// The sender has answered: so many bytes went out, or the send failed.
    Sent(TResult<usize>),
    /// The sleep is over.
    Woke,
}

/// What a relay does next. There is no variant for a happy end: a relay
/// runs until it fails.
#[derive(Debug, PartialEq, Eq)]
pub enum PipeAction {
    /// Receive into the buffer.
    Receive,
    /// Send the first `len` bytes of the buffer, in one call.
    Send { len: usize },
    /// Sleep for `millis` milliseconds, then receive again.
    Sleep { millis: u64 },
    /// Give up: the relay has failed with `error`.
    Stop { error: TransportError },
}

/// The action that follows `event`.
///
/// Bytes that came in go out at once and whole; an empty receive is passed
/// over; a timeout leads to a short sleep; any other error stops the relay
/// with that error.
pub open spec fn next_action(event: PipeEvent) -> PipeAction {
    match event {
        PipeEvent::Received(Ok(n)) => if n > 0 {
            PipeAction::Send { len: n }
        } else {
            PipeAction::Receive
        },
        PipeEvent::Received(Err(e)) | PipeEvent::Sent(Err(e)) => if e is Timeout {
            PipeAction::Sleep { millis: IDLE_SLEEP_MS }
        } else {
            PipeAction::Stop { error: e }
        },
        PipeEvent::Sent(Ok(_)) => PipeAction::Receive,
        PipeEvent::Woke => PipeAction::Receive,
    }
}

/// The metrics after `event`.
///
/// A receive of `n > 0` bytes counts one packet and `n` bytes in; a send
/// counts one packet and the bytes that went out; a timeout counts one
/// timeout; any other error takes the relay off the count of active relays.
pub open spec fn metrics_after(event: PipeEvent, m: MetricsView) -> MetricsView {
    match event {
        PipeEvent::Received(Ok(n)) => if n > 0 {
            MetricsView {
                pkt_in_total: m.pkt_in_total.wrapping_add(1),
                bytes_in_total: m.bytes_in_total.wrapping_add(n as u64),
                ..m
            }
        } else {
            m
        },
        PipeEvent::Sent(Ok(sent)) => MetricsView {
            pkt_out_total: m.pkt_out_total.wrapping_add(1),
            bytes_out_total: m.bytes_out_total.wrapping_add(sent as u64),
            ..m
        },
        PipeEvent::Received(Err(e)) | PipeEvent::Sent(Err(e)) => if e is Timeout {
            MetricsView { timeouts_total: m.timeouts_total.wrapping_add(1), ..m }
        } else {
            MetricsView { active_relays: m.active_relays.wrapping_sub(1), ..m }
        },
        PipeEvent::Woke => m,
    }
}

/// The metrics once a relay of the protocol `protocol` has registered.
pub open spec fn metrics_registered(m: MetricsView, protocol: Seq<char>) -> MetricsView {
    MetricsView {
        active_relays: m.active_relays.wrapping_add(1),
        protocol_code: protocol_code_of(protocol),
        ..m
    }
}

/// Decides what a relay does after `event` and brings the metrics up to
/// date.
pub fn step(event: PipeEvent, metrics: &mut Metrics) -> (action: PipeAction)
    ensures
        action == next_action(event),
        final(metrics)@ == metrics_after(event, old(metrics)@),
        final(metrics).start_time == old(metrics).start_time,
{
    match event {
        PipeEvent::Received(Ok(n)) => {
            if n > 0 {
                metrics.inc_pkt_in();
                metrics.add_bytes_in(n as u64);
                PipeAction::Send { len: n }
            } else {
                PipeAction::Receive
            }
        },
        PipeEvent::Sent(Ok(sent)) => {
            metrics.inc_pkt_out();
            metrics.add_bytes_out(sent as u64);
            PipeAction::Receive
        },
        PipeEvent::Received(Err(e)) | PipeEvent::Sent(Err(e)) => {
            if e.is_fatal() {
                metrics.dec_active_relays();
                PipeAction::Stop { error: e }
            } else {
                metrics.inc_timeout();
                PipeAction::Sleep { millis: IDLE_SLEEP_MS }
            }
        },
        PipeEvent::Woke => PipeAction::Receive,
    }
}

/// Whether `e` is an error that opening a receiver in the state `rx` and
/// then a sender in the state `tx` may end in: an error of the receiver,
/// or, where the receiver may have opened, an error of the sender.
pub open spec fn pair_error_fits(rx: EndpointState, tx: EndpointState, e: TransportError) -> bool {
    open_error_fits(rx, e) || (rx is Init && open_error_fits(tx, e))
}

/// One running relay: its two endpoints, its correlation id and the tag of
/// its protocol.
pub struct RelayHandle<Rx: TransportMeta, Tx: TransportMeta> {
    pub rx: Rx,
    pub tx: Tx,
    pub relay_id: String,
    pub protocol: String,
}

impl<Rx: TransportMeta, Tx: TransportMeta> RelayHandle<Rx, Tx> {
    /// Opens the receiver and then the sender. The first failure is the
    /// answer, and after it nothing more is tried.
    ///
    /// Whether an endpoint in `Init` opens is for the endpoint to say. An
    /// endpoint in another state does not open, so the answer is then an
    /// error: that of the receiver if it is the receiver, and else that of
    /// the receiver or of the sender.
    pub fn open_both(rx: &mut Rx, tx: &mut Tx) -> (r: TResult<()>)
        ensures
            !(old(rx).state_spec() is Init && old(tx).state_spec() is Init) ==> r is Err,
            r matches Err(e) ==> pair_error_fits(old(rx).state_spec(), old(tx).state_spec(), e),
            final(rx).role_spec() == old(rx).role_spec(),
            final(tx).role_spec() == old(tx).role_spec(),
            r is Ok ==> {
                &&& old(rx).state_spec() is Init
                &&& old(tx).state_spec() is Init
                &&& final(rx).state_spec() == opened_state(old(rx).role_spec())
                &&& final(tx).state_spec() == opened_state(old(tx).role_spec())
            },
            r is Err ==> final(tx).state_spec() == old(tx).state_spec(),
            r is Err ==> final(rx).state_spec() == old(rx).state_spec() || final(rx).state_spec()
                == opened_state(old(rx).role_spec()),
    {
        match rx.open() {
            Ok(()) => {},
            Err(e) => {
                return Err(e);
            },
        }
        tx.open()
    }

    /// Makes the handle of a relay whose endpoints have answered `opened`
    /// to the attempt to open them: where they are open, the relay is
    /// registered with the metrics; where they are not, their error is the
    /// answer and the metrics stay untouched.
    pub fn register(
        rx: Rx,
        tx: Tx,
        opened: TResult<()>,
        protocol: &str,
        relay_id: &str,
        metrics: &mut Metrics,
    ) -> (r: TResult<RelayHandle<Rx, Tx>>)
        ensures
            final(metrics).start_time == old(metrics).start_time,
            match opened {
                Ok(()) => {
                    &&& r matches Ok(h)
                    &&& h.rx == rx
                    &&& h.tx == tx
                    &&& h.protocol@ == protocol@
                    &&& h.relay_id@ == relay_id@
                    &&& final(metrics)@ == metrics_registered(old(metrics)@, protocol@)
                },
                Err(e) => r matches Err(err) && err == e && final(metrics)@ == old(metrics)@,
            },
    {
        match opened {
            Ok(()) => {
                metrics.inc_active_relays();
                metrics.set_protocol(protocol);
                Ok(
                    RelayHandle {
                        rx,
                        tx,
                        relay_id: String::from_str(relay_id),
                        protocol: String::from_str(protocol),
                    },
                )
            },
            Err(e) => Err(e),
        }
    }

    /// Starts a relay: opens the receiver, then the sender, and registers
    /// with the metrics.
    ///
    /// A failure to open is returned at once, with the metrics untouched;
    /// nothing is tried a second time.
    ///
    /// Whether endpoints in `Init` open is for them to say. Where one of
    /// them is in another state the relay does not start, and the error is
    /// the one that opening gives in that state.
    pub fn start(rx: Rx, tx: Tx, protocol: &str, relay_id: &str, metrics: &mut Metrics) -> (r: TResult<
        RelayHandle<Rx, Tx>,
    >)
        ensures
            final(metrics).start_time == old(metrics).start_time,
            !(rx.state_spec() is Init && tx.state_spec() is Init) ==> r is Err,
            r matches Err(e) ==> pair_error_fits(rx.state_spec(), tx.state_spec(), e),
            match r {
                Ok(h) => {
                    &&& rx.state_spec() is Init
                    &&& tx.state_spec() is Init
                    &&& h.rx.role_spec() == rx.role_spec()
                    &&& h.tx.role_spec() == tx.role_spec()
                    &&& h.rx.state_spec() == opened_state(rx.role_spec())
                    &&& h.tx.state_spec() == opened_state(tx.role_spec())
                    &&& h.protocol@ == protocol@
                    &&& h.relay_id@ == relay_id@
                    &&& final(metrics)@ == metrics_registered(old(metrics)@, protocol@)
                },
                Err(e) => final(metrics)@ == old(metrics)@,
            },
    {
        let mut rx = rx;
        let mut tx = tx;
        let opened = Self::open_both(&mut rx, &mut tx);
        Self::register(rx, tx, opened, protocol, relay_id, metrics)
    }

    /// Ends the relay: closes both endpoints and hands them back.
    pub fn close(self) -> (r: (Rx, Tx))
        ensures
            r.0.state_spec() is Closed,
            r.1.state_spec() is Closed,
            r.0.role_spec() == self.rx.role_spec(),
            r.1.role_spec() == self.tx.role_spec(),
    {
        let mut rx = self.rx;
        let mut tx = self.tx;
        rx.close();
        tx.close();
        (rx, tx)
    }
}

/// A timeout never ends a relay: after it the relay sleeps for the idle
/// interval, and the count of active relays stands.
pub proof fn lemma_timeout_is_absorbed(m: MetricsView)
    ensures
        next_action(PipeEvent::Received(Err(TransportError::Timeout))) == (PipeAction::Sleep {
            millis: IDLE_SLEEP_MS,
        }),
        next_action(PipeEvent::Sent(Err(TransportError::Timeout))) == (PipeAction::Sleep {
            millis: IDLE_SLEEP_MS,
        }),
        metrics_after(PipeEvent::Received(Err(TransportError::Timeout)), m).active_relays
            == m.active_relays,
{
}

/// A relay stops only on a fatal error, and then with that very error.
pub proof fn lemma_stop_only_on_fatal_error(event: PipeEvent)
    ensures
        next_action(event) is Stop <==> (event matches PipeEvent::Received(Err(e)) && e.is_fatal())
            || (event matches PipeEvent::Sent(Err(e)) && e.is_fatal()),
        forall|e: TransportError|
            e.is_fatal() ==> next_action(PipeEvent::Received(Err(e))) == (PipeAction::Stop { error: e })
                && next_action(PipeEvent::Sent(Err(e))) == (PipeAction::Stop { error: e }),
{
}

/// The count of active relays is balanced over the life of a relay: what
/// registering adds, the fatal error takes away again. A relay is taken
/// off the count only after it was put on, so the count does not fall
/// below zero on its account.
pub proof fn lemma_active_relays_balance(m: MetricsView, protocol: Seq<char>, e: TransportError)
    requires
        e.is_fatal(),
    ensures
        metrics_after(PipeEvent::Received(Err(e)), metrics_registered(m, protocol)).active_relays
            == m.active_relays,
        metrics_after(PipeEvent::Sent(Err(e)), metrics_registered(m, protocol)).active_relays
            == m.active_relays,
        m.active_relays < u64::MAX ==> metrics_registered(m, protocol).active_relays
            == m.active_relays + 1,
{
}

/// One datagram relayed counts once on each side: after `n > 0` bytes are
/// received and `sent` bytes have gone out, one packet and `n` bytes are
/// counted in, one packet and `sent` bytes out, and nothing else changes.
pub proof fn lemma_one_datagram_counts_once(m: MetricsView, n: usize, sent: usize)
    requires
        n > 0,
    ensures
        next_action(PipeEvent::Received(Ok(n))) == (PipeAction::Send { len: n }),
        next_action(PipeEvent::Sent(Ok(sent))) == PipeAction::Receive,
        metrics_after(PipeEvent::Sent(Ok(sent)), metrics_after(PipeEvent::Received(Ok(n)), m)) == (
        MetricsView {
            pkt_in_total: m.pkt_in_total.wrapping_add(1),
            bytes_in_total: m.bytes_in_total.wrapping_add(n as u64),
            pkt_out_total: m.pkt_out_total.wrapping_add(1),
            bytes_out_total: m.bytes_out_total.wrapping_add(sent as u64),
            ..m
        }),
{
}

} // verus!
