use vstd::prelude::*;
use vstd::string::StringExecFns;
use std::time::{Duration, Instant};
use crate::common::text::{eq_ignoring_case, same_ignoring_case};
use crate::structures::stats_data::{RateSample, NANOS_PER_SECOND};

verus! {

/// `std::time::Instant`, a reading of the monotonic clock.
#[verifier::external_type_specification]
#[verifier::external_body]
pub struct ExInstant(Instant);

/// `Instant::now` reads the clock: nothing is known of the reading.
pub assume_specification[ Instant::now ]() -> Instant;

/// `Instant::elapsed` reads the clock: nothing is known of the time that
/// has passed.
pub assume_specification[ Instant::elapsed ](start: &Instant) -> Duration;

/// `Duration::as_nanos`: the whole span in nanoseconds.
pub assume_specification[ Duration::as_nanos ](span: &Duration) -> u128;

/// Protocol code for "unknown".
pub const PROTOCOL_UNKNOWN: u64 = 0;

/// Protocol code for SRT.
pub const PROTOCOL_SRT: u64 = 1;

/// Protocol code for RIST.
pub const PROTOCOL_RIST: u64 = 2;

/// Round-trip estimate with no sign of trouble, milliseconds.
pub const RTT_BASE_MS: u64 = 20;

/// What each observed timeout adds to the round-trip estimate, milliseconds.
pub const RTT_STEP_MS: u64 = 5;

/// The most that timeouts can add to the round-trip estimate, milliseconds.
pub const RTT_MAX_EXTRA_MS: u64 = 200;

/// The receive buffer assumed once packets flow, milliseconds.
pub const RECEIVE_BUFFER_MS: i64 = 100;

/// The plain values of a [`Metrics`]: everything but its clock.
pub struct MetricsView {
    pub bytes_in_total: u64,
    pub bytes_out_total: u64,
    pub pkt_in_total: u64,
    pub pkt_out_total: u64,
    pub timeouts_total: u64,
    pub active_relays: u64,
    pub pkt_rcv_drop: u64,
    pub pkt_rcv_loss: u64,
    pub bytes_rcv_drop: u64,
    pub bytes_rcv_loss: u64,
    pub protocol_code: u64,
    /// Time of the last rate sample in nanoseconds since creation, and the
    /// two byte totals at that time.
    pub last_snapshot: (u128, u64, u64),
    pub rtt_millis: u64,
}

/// The counters that the relays feed and the estimates drawn from them.
///
/// Counters wrap around at `u64::MAX`. Times are nanoseconds since the
/// aggregator was created.
pub struct Metrics {
    pub start_time: Instant,
    pub bytes_in_total: u64,
    pub bytes_out_total: u64,
    pub pkt_in_total: u64,
    pub pkt_out_total: u64,
    pub timeouts_total: u64,
    pub active_relays: u64,
    pub pkt_rcv_drop: u64,
    pub pkt_rcv_loss: u64,
    pub bytes_rcv_drop: u64,
    pub bytes_rcv_loss: u64,
    /// Code of the protocol last registered.
    pub current_protocol: u64,
    /// Time of the last rate sample in nanoseconds since creation, and the
    /// two byte totals at that time.
    pub last_snapshot: (u128, u64, u64),
    /// Round-trip estimate last stored, milliseconds.
    pub rtt_millis: u64,
}

/// The code under which a protocol name is registered: 1 for "srt", 2 for
/// "rist", in any case of letters, and 0 for every other name.
pub open spec fn protocol_code_of(name: Seq<char>) -> u64 {
    if same_ignoring_case(name, "srt"@) {
        PROTOCOL_SRT
    } else if same_ignoring_case(name, "rist"@) {
        PROTOCOL_RIST
    } else {
        PROTOCOL_UNKNOWN
    }
}

/// The name shown for a protocol code.
pub open spec fn protocol_name_of(code: u64) -> Seq<char> {
    if code == PROTOCOL_SRT {
        "srt"@
    } else if code == PROTOCOL_RIST {
        "rist"@
    } else {
        "unknown"@
    }
}

/// The round-trip estimate in milliseconds: 20, and 5 more for each timeout
/// seen, up to 200 more, while at least one relay is active.
pub open spec fn rtt_estimate(timeouts: u64, active: u64) -> int {
    if active > 0 && timeouts > 0 {
        RTT_BASE_MS + if timeouts * RTT_STEP_MS > RTT_MAX_EXTRA_MS {
            RTT_MAX_EXTRA_MS as int
        } else {
            timeouts * RTT_STEP_MS
        }
    } else {
        RTT_BASE_MS as int
    }
}

/// The receive buffer estimate in milliseconds: 100 once the aggregator has
/// lived a whole second and a packet has come in, 0 before.
pub open spec fn receive_buffer_estimate(uptime_secs: u64, pkt_in: u64) -> int {
    if uptime_secs > 0 && pkt_in > 0 {
        RECEIVE_BUFFER_MS as int
    } else {
        0
    }
}

/// A counter read as a signed number, as two's complement does.
pub open spec fn as_signed(x: u64) -> int {
    if x <= i64::MAX {
        x as int
    } else {
        x - 0x1_0000_0000_0000_0000
    }
}

/// `a - b`, and 0 where `b` is the larger.
pub open spec fn gap(a: int, b: int) -> int {
    if a >= b {
        a - b
    } else {
        0
    }
}

/// The two rates (outgoing, incoming) between the snapshot `last` and the
/// time `now` at which the totals are `bytes_in` and `bytes_out`.
///
/// Over an interval that is empty or runs backwards both are zero.
pub open spec fn rates_between(last: (u128, u64, u64), now: u128, bytes_in: u64, bytes_out: u64) -> (
    RateSample,
    RateSample,
) {
    if now <= last.0 {
        (RateSample { bytes: 0, nanos: 0 }, RateSample { bytes: 0, nanos: 0 })
    } else {
        (
            RateSample { bytes: gap(bytes_out as int, last.2 as int) as u64, nanos: (now - last.0) as u128 },
            RateSample { bytes: gap(bytes_in as int, last.1 as int) as u64, nanos: (now - last.0) as u128 },
        )
    }
}

/// The value of a counter that stood at `start` after `n` additions of `b`.
pub open spec fn after_adds(start: u64, b: u64, n: nat) -> u64
    decreases n,
{
    if n == 0 {
        start
    } else {
        after_adds(start, b, (n - 1) as nat).wrapping_add(b)
    }
}

/// No addition to a counter is lost: `n` additions of `b` to a counter at
/// zero leave it at `n * b` modulo 2^64, which is `n * b` itself while that
/// fits the counter.
pub proof fn lemma_adds_accumulate(b: u64, n: nat)
    ensures
        after_adds(0, b, n) == (n * b) % 0x1_0000_0000_0000_0000,
        n * b <= u64::MAX ==> after_adds(0, b, n) == n * b,
    decreases n,
{
    let m: int = 0x1_0000_0000_0000_0000;
    if n == 0 {
        assert(n * b == 0);
    } else {
        let k = (n - 1) as nat;
        lemma_adds_accumulate(b, k);
        let prev = after_adds(0, b, k);
        assert(n * b == k * b + b) by (nonlinear_arith)
            requires
                n == k + 1,
        ;
        assert(prev.wrapping_add(b) == (prev + b) % m) by {
            if prev + b > u64::MAX {
                vstd::arithmetic::div_mod::lemma_mod_add_multiples_vanish(prev + b - m, m);
                vstd::arithmetic::div_mod::lemma_small_mod((prev + b - m) as nat, m as nat);
            } else {
                vstd::arithmetic::div_mod::lemma_small_mod((prev + b) as nat, m as nat);
            }
        }
        assert((prev + b) % m == (k * b + b) % m) by {
            vstd::arithmetic::div_mod::lemma_add_mod_noop((k * b) as int, b as int, m);
            vstd::arithmetic::div_mod::lemma_add_mod_noop(prev as int, b as int, m);
            vstd::arithmetic::div_mod::lemma_small_mod(prev as nat, m as nat);
            vstd::arithmetic::div_mod::lemma_mod_twice((k * b) as int, m);
        }
    }
    if n * b <= u64::MAX {
        vstd::arithmetic::div_mod::lemma_small_mod((n * b) as nat, m as nat);
    }
}

/// A second sample at the instant of the first reports no traffic: the
/// first has moved the snapshot to that instant.
pub proof fn lemma_second_sample_is_zero(m: MetricsView, now: u128)
    ensures
        m.sampled(now).rates(now) == (
            RateSample { bytes: 0, nanos: 0 },
            RateSample { bytes: 0, nanos: 0 },
        ),
        m.sampled(now).sampled(now) == m.sampled(now),
{
}

/// Between two samples the rates cover exactly the bytes counted and the
/// time passed, so long as no counter has wrapped around in between.
pub proof fn lemma_rates_cover_the_interval(m: MetricsView, now: u128)
    requires
        now > m.last_snapshot.0,
        m.bytes_in_total >= m.last_snapshot.1,
        m.bytes_out_total >= m.last_snapshot.2,
    ensures
        m.rates(now).0.bytes == m.bytes_out_total - m.last_snapshot.2,
        m.rates(now).1.bytes == m.bytes_in_total - m.last_snapshot.1,
        m.rates(now).0.nanos == now - m.last_snapshot.0,
        m.rates(now).1.nanos == now - m.last_snapshot.0,
{
}

/// Additions to a counter commute: the order in which two relays report
/// does not change the total.
pub proof fn lemma_adds_commute(start: u64, a: u64, b: u64)
    ensures
        start.wrapping_add(a).wrapping_add(b) == start.wrapping_add(b).wrapping_add(a),
{
}

/// A counter as a signed number, as two's complement reads it.
pub fn signed(x: u64) -> (r: i64)
    ensures
        r == as_signed(x),
{
    if x <= i64::MAX as u64 {
        x as i64
    } else {
        ((x - 0x8000_0000_0000_0000) as i64) + i64::MIN
    }
}

impl View for Metrics {
    type V = MetricsView;

    open spec fn view(&self) -> MetricsView {
        MetricsView {
            bytes_in_total: self.bytes_in_total,
            bytes_out_total: self.bytes_out_total,
            pkt_in_total: self.pkt_in_total,
            pkt_out_total: self.pkt_out_total,
            timeouts_total: self.timeouts_total,
            active_relays: self.active_relays,
            pkt_rcv_drop: self.pkt_rcv_drop,
            pkt_rcv_loss: self.pkt_rcv_loss,
            bytes_rcv_drop: self.bytes_rcv_drop,
            bytes_rcv_loss: self.bytes_rcv_loss,
            protocol_code: self.current_protocol,
            last_snapshot: self.last_snapshot,
            rtt_millis: self.rtt_millis,
        }
    }
}

impl MetricsView {
    /// The values of a fresh aggregator: all zero.
    pub open spec fn fresh() -> MetricsView {
        MetricsView {
            bytes_in_total: 0,
            bytes_out_total: 0,
            pkt_in_total: 0,
            pkt_out_total: 0,
            timeouts_total: 0,
            active_relays: 0,
            pkt_rcv_drop: 0,
            pkt_rcv_loss: 0,
            bytes_rcv_drop: 0,
            bytes_rcv_loss: 0,
            protocol_code: PROTOCOL_UNKNOWN,
            last_snapshot: (0, 0, 0),
            rtt_millis: 0,
        }
    }

    /// The values after a rate sample taken at `now`.
    pub open spec fn sampled(self, now: u128) -> MetricsView {
        MetricsView { last_snapshot: (now, self.bytes_in_total, self.bytes_out_total), ..self }
    }

    /// The rates that a sample taken at `now` reports.
    pub open spec fn rates(self, now: u128) -> (RateSample, RateSample) {
        rates_between(self.last_snapshot, now, self.bytes_in_total, self.bytes_out_total)
    }
}

impl Metrics {
    /// A fresh aggregator: every counter at zero, no protocol registered,
    /// and the clock started.
    pub fn new() -> (m: Metrics)
        ensures
            m@ == MetricsView::fresh(),
    {
        Metrics {
            start_time: Instant::now(),
            bytes_in_total: 0,
            bytes_out_total: 0,
            pkt_in_total: 0,
            pkt_out_total: 0,
            timeouts_total: 0,
            active_relays: 0,
            pkt_rcv_drop: 0,
            pkt_rcv_loss: 0,
            bytes_rcv_drop: 0,
            bytes_rcv_loss: 0,
            current_protocol: PROTOCOL_UNKNOWN,
            last_snapshot: (0, 0, 0),
            rtt_millis: 0,
        }
    }

    /// Nanoseconds since this aggregator was created, as the clock has it.
    pub fn uptime_nanos(&self) -> u128 {
        let span = self.start_time.elapsed();
        span.as_nanos()
    }

    /// One more relay is running.
    pub fn inc_active_relays(&mut self)
        ensures
            final(self).start_time == old(self).start_time,
            final(self)@ == (MetricsView {
                active_relays: old(self).active_relays.wrapping_add(1),
                ..old(self)@
            }),
    {
        self.active_relays = self.active_relays.wrapping_add(1);
    }

    /// One relay has ended.
    pub fn dec_active_relays(&mut self)
        ensures
            final(self).start_time == old(self).start_time,
            final(self)@ == (MetricsView {
                active_relays: old(self).active_relays.wrapping_sub(1),
                ..old(self)@
            }),
    {
        self.active_relays = self.active_relays.wrapping_sub(1);
    }

    /// Counts `n` bytes received.
    pub fn add_bytes_in(&mut self, n: u64)
        ensures
            final(self).start_time == old(self).start_time,
            final(self)@ == (MetricsView {
                bytes_in_total: old(self).bytes_in_total.wrapping_add(n),
                ..old(self)@
            }),
    {
        self.bytes_in_total = self.bytes_in_total.wrapping_add(n);
    }

    /// Counts `n` bytes sent.
    pub fn add_bytes_out(&mut self, n: u64)
        ensures
            final(self).start_time == old(self).start_time,
            final(self)@ == (MetricsView {
                bytes_out_total: old(self).bytes_out_total.wrapping_add(n),
                ..old(self)@
            }),
    {
        self.bytes_out_total = self.bytes_out_total.wrapping_add(n);
    }

    /// Counts one packet received.
    pub fn inc_pkt_in(&mut self)
        ensures
            final(self).start_time == old(self).start_time,
            final(self)@ == (MetricsView {
                pkt_in_total: old(self).pkt_in_total.wrapping_add(1),
                ..old(self)@
            }),
    {
        self.pkt_in_total = self.pkt_in_total.wrapping_add(1);
    }

    /// Counts one packet sent.
    pub fn inc_pkt_out(&mut self)
        ensures
            final(self).start_time == old(self).start_time,
            final(self)@ == (MetricsView {
                pkt_out_total: old(self).pkt_out_total.wrapping_add(1),
                ..old(self)@
            }),
    {
        self.pkt_out_total = self.pkt_out_total.wrapping_add(1);
    }

    /// Counts one receive that timed out.
    pub fn inc_timeout(&mut self)
        ensures
            final(self).start_time == old(self).start_time,
            final(self)@ == (MetricsView {
                timeouts_total: old(self).timeouts_total.wrapping_add(1),
                ..old(self)@
            }),
    {
        self.timeouts_total = self.timeouts_total.wrapping_add(1);
    }

    /// Registers the protocol of the relay that calls: the last caller wins.
    pub fn set_protocol(&mut self, protocol: &str)
        ensures
            final(self).start_time == old(self).start_time,
            final(self)@ == (MetricsView {
                protocol_code: protocol_code_of(protocol@),
                ..old(self)@
            }),
    {
        let code = if eq_ignoring_case(protocol, "srt") {
            PROTOCOL_SRT
        } else if eq_ignoring_case(protocol, "rist") {
            PROTOCOL_RIST
        } else {
            PROTOCOL_UNKNOWN
        };
        self.current_protocol = code;
    }

    /// The name of the protocol last registered: "srt", "rist" or "unknown".
    pub fn protocol_string(&self) -> (r: String)
        ensures
            r@ == protocol_name_of(self@.protocol_code),
    {
        if self.current_protocol == PROTOCOL_SRT {
            String::from_str("srt")
        } else if self.current_protocol == PROTOCOL_RIST {
            String::from_str("rist")
        } else {
            String::from_str("unknown")
        }
    }

    /// Takes a rate sample at the time `now`, in nanoseconds since creation:
    /// returns the outgoing and the incoming rate since the last sample, and
    /// makes `now` with the present totals the last sample.
    pub fn sample_rates_at(&mut self, now: u128) -> (r: (RateSample, RateSample))
        ensures
            final(self).start_time == old(self).start_time,
            final(self)@ == old(self)@.sampled(now),
            r == old(self)@.rates(now),
    {
        let (last_t, last_in, last_out) = self.last_snapshot;
        self.last_snapshot = (now, self.bytes_in_total, self.bytes_out_total);
        if now <= last_t {
            return (RateSample::zero(), RateSample::zero());
        }
        let dt: u128 = now - last_t;
        let delta_in = self.bytes_in_total.saturating_sub(last_in);
        let delta_out = self.bytes_out_total.saturating_sub(last_out);
        (RateSample { bytes: delta_out, nanos: dt }, RateSample { bytes: delta_in, nanos: dt })
    }

    /// Takes a rate sample now: the outgoing and the incoming rate since the
    /// last sample. The clock decides the time of the sample.
    pub fn instantaneous_rates(&mut self) -> (r: (RateSample, RateSample))
        ensures
            final(self).start_time == old(self).start_time,
            exists|now: u128|
                final(self)@ == old(self)@.sampled(now) && r == #[trigger] old(self)@.rates(now),
    {
        let now = self.uptime_nanos();
        self.sample_rates_at(now)
    }

    /// Packets dropped on receive.
    pub fn get_pkt_rcv_drop(&self) -> (r: i64)
        ensures
            r == as_signed(self.pkt_rcv_drop),
    {
        signed(self.pkt_rcv_drop)
    }

    /// Packets lost on receive.
    pub fn get_pkt_rcv_loss(&self) -> (r: i64)
        ensures
            r == as_signed(self.pkt_rcv_loss),
    {
        signed(self.pkt_rcv_loss)
    }

    /// Bytes dropped on receive.
    pub fn get_bytes_rcv_drop(&self) -> (r: i64)
        ensures
            r == as_signed(self.bytes_rcv_drop),
    {
        signed(self.bytes_rcv_drop)
    }

    /// Bytes lost on receive.
    pub fn get_bytes_rcv_loss(&self) -> (r: i64)
        ensures
            r == as_signed(self.bytes_rcv_loss),
    {
        signed(self.bytes_rcv_loss)
    }

    /// The round-trip estimate last stored, milliseconds.
    pub fn get_rtt_millis(&self) -> (r: u64)
        ensures
            r == self@.rtt_millis,
    {
        self.rtt_millis
    }

    /// Stores a new round-trip estimate, drawn from the timeouts seen and the
    /// number of active relays.
    pub fn update_rtt_estimate(&mut self)
        ensures
            final(self).start_time == old(self).start_time,
            final(self)@ == (MetricsView {
                rtt_millis: rtt_estimate(old(self).timeouts_total, old(self).active_relays) as u64,
                ..old(self)@
            }),
    {
        let estimated: u64 = if self.active_relays > 0 && self.timeouts_total > 0 {
            if self.timeouts_total > RTT_MAX_EXTRA_MS / RTT_STEP_MS {
                RTT_BASE_MS + RTT_MAX_EXTRA_MS
            } else {
                RTT_BASE_MS + self.timeouts_total * RTT_STEP_MS
            }
        } else {
            RTT_BASE_MS
        };
        self.rtt_millis = estimated;
    }

    /// The receive buffer estimate in milliseconds for an aggregator that
    /// has lived `uptime_secs` whole seconds.
    pub fn receive_buffer_ms_at(&self, uptime_secs: u64) -> (r: i64)
        ensures
            r == receive_buffer_estimate(uptime_secs, self.pkt_in_total),
    {
        if uptime_secs > 0 && self.pkt_in_total > 0 {
            RECEIVE_BUFFER_MS
        } else {
            0
        }
    }

    /// The receive buffer estimate in milliseconds. The clock decides the
    /// uptime that it goes by.
    pub fn estimate_receive_buffer_ms(&self) -> (r: i64)
        ensures
            r == 0 || r == RECEIVE_BUFFER_MS,
            self.pkt_in_total == 0 ==> r == 0,
            exists|uptime_secs: u64| r == #[trigger] receive_buffer_estimate(uptime_secs, self.pkt_in_total),
    {
        let nanos = self.uptime_nanos();
        let secs: u128 = nanos / NANOS_PER_SECOND;
        let uptime_secs: u64 = if secs > u64::MAX as u128 {
            u64::MAX
        } else {
            secs as u64
        };
        self.receive_buffer_ms_at(uptime_secs)
    }

    /// The bandwidth estimate: the incoming rate of a sample taken now.
    pub fn estimate_bandwidth_mbps(&mut self) -> (r: RateSample)
        ensures
            final(self).start_time == old(self).start_time,
            exists|now: u128|
                final(self)@ == old(self)@.sampled(now) && r == (#[trigger] old(self)@.rates(now)).1,
    {
        let (_, recv) = self.instantaneous_rates();
        recv
    }

    /// Counts `count` packets lost on receive.
    pub fn inc_pkt_loss(&mut self, count: u64)
        ensures
            final(self).start_time == old(self).start_time,
            final(self)@ == (MetricsView {
                pkt_rcv_loss: old(self).pkt_rcv_loss.wrapping_add(count),
                ..old(self)@
            }),
    {
        self.pkt_rcv_loss = self.pkt_rcv_loss.wrapping_add(count);
    }

    /// Counts `count` packets dropped on receive.
    pub fn inc_pkt_drop(&mut self, count: u64)
        ensures
            final(self).start_time == old(self).start_time,
            final(self)@ == (MetricsView {
                pkt_rcv_drop: old(self).pkt_rcv_drop.wrapping_add(count),
                ..old(self)@
            }),
    {
        self.pkt_rcv_drop = self.pkt_rcv_drop.wrapping_add(count);
    }
}

} // verus!
