use vstd::prelude::*;
use crate::structures::health::HealthResponse;
use crate::structures::metrics::{
    as_signed, protocol_name_of, receive_buffer_estimate, rtt_estimate, signed, Metrics,
    MetricsView,
};
use crate::structures::stats_data::{RateSample, StatsData, StatsResponse, NANOS_PER_SECOND};

verus! {

/// The whole seconds in `nanos` nanoseconds, held at `u64::MAX`.
pub open spec fn whole_seconds(nanos: u128) -> u64 {
    if nanos / NANOS_PER_SECOND > u64::MAX {
        u64::MAX
    } else {
        (nanos / NANOS_PER_SECOND) as u64
    }
}

/// A rate in bits per second as the report shows it: rounded down, and
/// held at `i64::MAX`.
pub open spec fn shown_bitrate(sample: RateSample) -> int {
    if sample.bits_per_second_spec() > i64::MAX {
        i64::MAX as int
    } else {
        sample.bits_per_second_spec() as int
    }
}

/// The metrics after a report has been drawn at `now` and `later`: two
/// rate samples have been taken, and the round-trip estimate is renewed.
pub open spec fn metrics_after_stats(m: MetricsView, now: u128, later: u128) -> MetricsView {
    MetricsView {
        rtt_millis: rtt_estimate(m.timeouts_total, m.active_relays) as u64,
        ..m.sampled(now).sampled(later)
    }
}

/// The figures of a report drawn from the metrics `m`, with the clock at
/// `now` for the uptime and the rates and at `later` for the bandwidth
/// estimate.
pub open spec fn stats_data_at(m: MetricsView, now: u128, later: u128) -> StatsData {
    StatsData {
        bitrate: shown_bitrate(m.rates(now).0) as i64,
        bytesRcvDrop: as_signed(m.bytes_rcv_drop) as i64,
        bytesRcvLoss: as_signed(m.bytes_rcv_loss) as i64,
        mbpsBandwidth: m.sampled(now).rates(later).1,
        mbpsRecvRate: m.rates(now).1,
        msRcvBuf: receive_buffer_estimate(whole_seconds(now), m.pkt_in_total) as i64,
        pktRcvDrop: as_signed(m.pkt_rcv_drop) as i64,
        pktRcvLoss: as_signed(m.pkt_rcv_loss) as i64,
        rtt: rtt_estimate(m.timeouts_total, m.active_relays) as u64,
        uptime: as_signed(whole_seconds(now)) as i64,
    }
}

/// The liveness answer: status `ok`, code 200.
pub fn health() -> (r: HealthResponse)
    ensures
        r.status@ == "ok"@,
        r.code == 200,
{
    HealthResponse { status: "ok", code: 200 }
}

/// Draws the statistics report with the clock at `now`, and at `later` for
/// the bandwidth estimate, both in nanoseconds since the metrics were
/// created.
pub fn stats_at(metrics: &mut Metrics, now: u128, later: u128) -> (r: StatsResponse)
    ensures
        r.status@ == "ok"@,
        r.protocol@ == protocol_name_of(old(metrics)@.protocol_code),
        r.data == stats_data_at(old(metrics)@, now, later),
        final(metrics)@ == metrics_after_stats(old(metrics)@, now, later),
        final(metrics).start_time == old(metrics).start_time,
{
    let secs: u128 = now / NANOS_PER_SECOND;
    let uptime_secs: u64 = if secs > u64::MAX as u128 {
        u64::MAX
    } else {
        secs as u64
    };
    let (out_rate, recv_rate) = metrics.sample_rates_at(now);
    let protocol = metrics.protocol_string();
    metrics.update_rtt_estimate();
    let pkt_rcv_drop = metrics.get_pkt_rcv_drop();
    let pkt_rcv_loss = metrics.get_pkt_rcv_loss();
    let bytes_rcv_drop = metrics.get_bytes_rcv_drop();
    let bytes_rcv_loss = metrics.get_bytes_rcv_loss();
    let rtt = metrics.get_rtt_millis();
    let ms_rcv_buf = metrics.receive_buffer_ms_at(uptime_secs);
    let (_, bandwidth) = metrics.sample_rates_at(later);
    let data = StatsData {
        bitrate: out_rate.bits_per_second(),
        bytesRcvDrop: bytes_rcv_drop,
        bytesRcvLoss: bytes_rcv_loss,
        mbpsBandwidth: bandwidth,
        mbpsRecvRate: recv_rate,
        msRcvBuf: ms_rcv_buf,
        pktRcvDrop: pkt_rcv_drop,
        pktRcvLoss: pkt_rcv_loss,
        rtt,
        uptime: signed(uptime_secs),
    };
    StatsResponse { protocol, data, status: "ok" }
}

/// Draws the statistics report now. The clock is read twice, once for the
/// uptime and the rates and once for the bandwidth estimate; what it says
/// is the one thing that the metrics do not decide.
pub fn stats_endpoint(metrics: &mut Metrics) -> (r: StatsResponse)
    ensures
        r.status@ == "ok"@,
        r.protocol@ == protocol_name_of(old(metrics)@.protocol_code),
        final(metrics).start_time == old(metrics).start_time,
        exists|now: u128, later: u128|
            r.data == #[trigger] stats_data_at(old(metrics)@, now, later) && final(metrics)@
                == metrics_after_stats(old(metrics)@, now, later),
{
    let now = metrics.uptime_nanos();
    let later = metrics.uptime_nanos();
    stats_at(metrics, now, later)
}

} // verus!
