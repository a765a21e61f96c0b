use stream_relay::structures::metrics::{
    signed, PROTOCOL_RIST, PROTOCOL_SRT, PROTOCOL_UNKNOWN, RECEIVE_BUFFER_MS,
};
use stream_relay::structures::{HealthResponse, Metrics, RateSample, StatsData, TransportError};
use stream_relay::web::routes::{health, stats_at, stats_endpoint};

#[test]
fn fresh_metrics_are_all_zero() {
    let m = Metrics::new();
    assert_eq!(m.bytes_in_total, 0);
    assert_eq!(m.bytes_out_total, 0);
    assert_eq!(m.pkt_in_total, 0);
    assert_eq!(m.pkt_out_total, 0);
    assert_eq!(m.timeouts_total, 0);
    assert_eq!(m.active_relays, 0);
    assert_eq!(m.pkt_rcv_drop, 0);
    assert_eq!(m.pkt_rcv_loss, 0);
    assert_eq!(m.bytes_rcv_drop, 0);
    assert_eq!(m.bytes_rcv_loss, 0);
    assert_eq!(m.current_protocol, PROTOCOL_UNKNOWN);
    assert_eq!(m.last_snapshot, (0, 0, 0));
    assert_eq!(m.get_rtt_millis(), 0);
    assert_eq!(m.protocol_string(), "unknown");
}

#[test]
fn no_addition_is_lost() {
    let tasks: u64 = 16;
    let rounds: u64 = 250;
    let bytes: u64 = 1316;
    let mut m = Metrics::new();
    // the tasks take turns, one addition each
    for _round in 0..rounds {
        for _task in 0..tasks {
            m.add_bytes_in(bytes);
        }
    }
    assert_eq!(m.bytes_in_total, tasks * rounds * bytes);
    assert_eq!(m.bytes_out_total, 0);
}

#[test]
fn counters_count() {
    let mut m = Metrics::new();
    m.add_bytes_in(4);
    m.add_bytes_out(3);
    m.inc_pkt_in();
    m.inc_pkt_in();
    m.inc_pkt_out();
    m.inc_timeout();
    m.inc_pkt_loss(7);
    m.inc_pkt_drop(9);
    m.inc_active_relays();
    m.inc_active_relays();
    m.dec_active_relays();
    assert_eq!(
        (m.bytes_in_total, m.bytes_out_total, m.pkt_in_total, m.pkt_out_total),
        (4, 3, 2, 1)
    );
    assert_eq!((m.timeouts_total, m.active_relays), (1, 1));
    assert_eq!((m.get_pkt_rcv_loss(), m.get_pkt_rcv_drop()), (7, 9));
    assert_eq!((m.get_bytes_rcv_loss(), m.get_bytes_rcv_drop()), (0, 0));
}

#[test]
fn counters_wrap_around() {
    let mut m = Metrics::new();
    m.add_bytes_in(u64::MAX);
    m.add_bytes_in(2);
    assert_eq!(m.bytes_in_total, 1);
    m.dec_active_relays();
    assert_eq!(m.active_relays, u64::MAX);
    m.inc_active_relays();
    assert_eq!(m.active_relays, 0);
    m.inc_pkt_drop(u64::MAX);
    assert_eq!(m.get_pkt_rcv_drop(), -1);
}

#[test]
fn counters_read_as_signed_numbers() {
    assert_eq!(signed(0), 0);
    assert_eq!(signed(i64::MAX as u64), i64::MAX);
    assert_eq!(signed(i64::MAX as u64 + 1), i64::MIN);
    assert_eq!(signed(u64::MAX), -1);
    for x in [1u64, 1 << 40, (1 << 63) + 12345, u64::MAX - 1] {
        assert_eq!(signed(x), x as i64);
    }
}

#[test]
fn protocol_is_registered_by_name() {
    let mut m = Metrics::new();
    m.set_protocol("srt");
    assert_eq!((m.current_protocol, m.protocol_string().as_str()), (PROTOCOL_SRT, "srt"));
    m.set_protocol("RIST");
    assert_eq!((m.current_protocol, m.protocol_string().as_str()), (PROTOCOL_RIST, "rist"));
    m.set_protocol("Srt");
    assert_eq!(m.protocol_string(), "srt");
    m.set_protocol("udp");
    assert_eq!((m.current_protocol, m.protocol_string().as_str()), (PROTOCOL_UNKNOWN, "unknown"));
    m.set_protocol("");
    assert_eq!(m.protocol_string(), "unknown");
    m.current_protocol = 77;
    assert_eq!(m.protocol_string(), "unknown");
}

#[test]
fn rate_is_eight_times_bytes_over_seconds() {
    let mut m = Metrics::new();
    m.add_bytes_out(12_500);
    m.add_bytes_in(25_000);
    // a tenth of a second after creation
    let (out_rate, in_rate) = m.sample_rates_at(100_000_000);
    assert_eq!(out_rate, RateSample { bytes: 12_500, nanos: 100_000_000 });
    assert_eq!(in_rate, RateSample { bytes: 25_000, nanos: 100_000_000 });
    assert_eq!(out_rate.bits_per_second(), 1_000_000);
    assert_eq!(in_rate.bits_per_second(), 2_000_000);
    let seconds = in_rate.nanos as f64 / 1e9;
    let megabits = in_rate.bytes as f64 * 8.0 / seconds / 1e6;
    assert!((megabits - 2.0).abs() < 1e-9);
    assert_eq!(m.last_snapshot, (100_000_000, 25_000, 12_500));
}

#[test]
fn rate_covers_the_time_since_the_last_sample() {
    let mut m = Metrics::new();
    m.add_bytes_out(1000);
    let _ = m.sample_rates_at(1_000_000_000);
    m.add_bytes_out(500);
    m.add_bytes_in(7);
    let (out_rate, in_rate) = m.sample_rates_at(3_000_000_000);
    assert_eq!(out_rate, RateSample { bytes: 500, nanos: 2_000_000_000 });
    assert_eq!(in_rate, RateSample { bytes: 7, nanos: 2_000_000_000 });
    assert_eq!(out_rate.bits_per_second(), 2000);
    assert_eq!(in_rate.bits_per_second(), 28);
}

#[test]
fn rate_over_no_time_is_zero() {
    let mut m = Metrics::new();
    m.add_bytes_out(1000);
    m.add_bytes_in(1000);
    assert_eq!(m.sample_rates_at(0), (RateSample::zero(), RateSample::zero()));
    let _ = m.sample_rates_at(5_000);
    m.add_bytes_out(1000);
    // the same instant, and an earlier one
    assert_eq!(m.sample_rates_at(5_000), (RateSample::zero(), RateSample::zero()));
    assert_eq!(m.sample_rates_at(4_000), (RateSample::zero(), RateSample::zero()));
    assert_eq!(m.last_snapshot, (4_000, 1000, 2000));
    assert_eq!(RateSample::zero().bits_per_second(), 0);
    assert_eq!(RateSample { bytes: 9, nanos: 0 }.bits_per_second(), 0);
}

#[test]
fn rate_of_a_counter_that_fell_back_is_zero() {
    let mut m = Metrics::new();
    m.add_bytes_in(u64::MAX);
    let _ = m.sample_rates_at(10);
    m.add_bytes_in(5);
    let (_, in_rate) = m.sample_rates_at(20);
    assert_eq!(in_rate, RateSample { bytes: 0, nanos: 10 });
}

#[test]
fn bit_rate_is_rounded_down_and_held_at_the_largest_number() {
    assert_eq!(RateSample { bytes: 1, nanos: 3_000_000_000 }.bits_per_second(), 2);
    assert_eq!(RateSample { bytes: 1, nanos: 8_000_000_001 }.bits_per_second(), 0);
    assert_eq!(RateSample { bytes: u64::MAX, nanos: 1 }.bits_per_second(), i64::MAX);
    assert_eq!(RateSample { bytes: u64::MAX, nanos: u128::MAX }.bits_per_second(), 0);
    assert_eq!(RateSample { bytes: 1 << 40, nanos: 1 << 40 }.bits_per_second(), 8_000_000_000);
}

#[test]
fn sample_by_the_clock_moves_the_snapshot() {
    let mut m = Metrics::new();
    m.add_bytes_in(10);
    m.add_bytes_out(20);
    let (out_rate, in_rate) = m.instantaneous_rates();
    assert_eq!((m.last_snapshot.1, m.last_snapshot.2), (10, 20));
    assert!(out_rate == RateSample::zero() || out_rate.bytes == 20);
    assert!(in_rate == RateSample::zero() || in_rate.bytes == 10);
    assert_eq!(out_rate.nanos, in_rate.nanos);
    let recv = m.estimate_bandwidth_mbps();
    assert_eq!(recv.bytes, 0);
    assert!(m.uptime_nanos() >= m.last_snapshot.0);
}

#[test]
fn round_trip_estimate_grows_with_timeouts() {
    let mut m = Metrics::new();
    m.update_rtt_estimate();
    assert_eq!(m.get_rtt_millis(), 20);
    m.inc_timeout();
    m.update_rtt_estimate();
    assert_eq!(m.get_rtt_millis(), 20);
    m.inc_active_relays();
    m.update_rtt_estimate();
    assert_eq!(m.get_rtt_millis(), 25);
    for _ in 0..39 {
        m.inc_timeout();
    }
    m.update_rtt_estimate();
    assert_eq!(m.get_rtt_millis(), 220);
    m.inc_timeout();
    m.update_rtt_estimate();
    assert_eq!(m.get_rtt_millis(), 220);
    m.timeouts_total = u64::MAX;
    m.update_rtt_estimate();
    assert_eq!(m.get_rtt_millis(), 220);
    m.dec_active_relays();
    m.update_rtt_estimate();
    assert_eq!(m.get_rtt_millis(), 20);
}

#[test]
fn receive_buffer_estimate_needs_a_second_and_a_packet() {
    let mut m = Metrics::new();
    assert_eq!(m.receive_buffer_ms_at(0), 0);
    assert_eq!(m.receive_buffer_ms_at(10), 0);
    assert_eq!(m.estimate_receive_buffer_ms(), 0);
    m.inc_pkt_in();
    assert_eq!(m.receive_buffer_ms_at(0), 0);
    assert_eq!(m.receive_buffer_ms_at(1), RECEIVE_BUFFER_MS);
    assert_eq!(m.receive_buffer_ms_at(u64::MAX), 100);
    let by_clock = m.estimate_receive_buffer_ms();
    assert!(by_clock == 0 || by_clock == 100);
}

#[test]
fn report_is_drawn_from_the_metrics() {
    let mut m = Metrics::new();
    m.set_protocol("srt");
    m.inc_active_relays();
    m.inc_pkt_in();
    m.add_bytes_in(25_000);
    m.inc_pkt_out();
    m.add_bytes_out(12_500);
    m.inc_timeout();
    m.inc_timeout();
    m.inc_pkt_loss(3);
    m.inc_pkt_drop(4);
    let report = stats_at(&mut m, 2_100_000_000, 2_100_000_500);
    assert_eq!(report.status, "ok");
    assert_eq!(report.protocol, "srt");
    assert_eq!(
        report.data,
        StatsData {
            bitrate: 47_619,
            bytesRcvDrop: 0,
            bytesRcvLoss: 0,
            mbpsBandwidth: RateSample { bytes: 0, nanos: 500 },
            mbpsRecvRate: RateSample { bytes: 25_000, nanos: 2_100_000_000 },
            msRcvBuf: 100,
            pktRcvDrop: 4,
            pktRcvLoss: 3,
            rtt: 30,
            uptime: 2,
        }
    );
    assert_eq!(m.get_rtt_millis(), 30);
    assert_eq!(m.last_snapshot, (2_100_000_500, 25_000, 12_500));
}

#[test]
fn report_of_fresh_metrics() {
    let mut m = Metrics::new();
    let report = stats_at(&mut m, 0, 0);
    assert_eq!(report.protocol, "unknown");
    assert_eq!(report.status, "ok");
    assert_eq!(
        report.data,
        StatsData {
            bitrate: 0,
            bytesRcvDrop: 0,
            bytesRcvLoss: 0,
            mbpsBandwidth: RateSample::zero(),
            mbpsRecvRate: RateSample::zero(),
            msRcvBuf: 0,
            pktRcvDrop: 0,
            pktRcvLoss: 0,
            rtt: 20,
            uptime: 0,
        }
    );
}

#[test]
fn report_by_the_clock() {
    let mut m = Metrics::new();
    m.set_protocol("rist");
    m.inc_pkt_drop(2);
    let report = stats_endpoint(&mut m);
    assert_eq!(report.status, "ok");
    assert_eq!(report.protocol, "rist");
    assert_eq!(report.data.pktRcvDrop, 2);
    assert_eq!(report.data.bitrate, 0);
    assert_eq!(report.data.rtt, 20);
    assert_eq!(report.data.msRcvBuf, 0);
    assert!(report.data.uptime >= 0);
}

#[test]
fn health_is_ok() {
    assert_eq!(health(), HealthResponse { status: "ok", code: 200 });
}

#[test]
fn errors_have_their_texts() {
    assert_eq!(TransportError::Io("broken pipe".to_string()).message(), "I/O error: broken pipe");
    assert_eq!(TransportError::InvalidUri("srt://".to_string()).message(), "Invalid URI: srt://");
    assert_eq!(TransportError::Timeout.message(), "Operation timed out");
    assert_eq!(TransportError::Closed.message(), "Transport closed");
    assert_eq!(TransportError::Other("x".to_string()).message(), "Other: x");
}

#[test]
fn every_error_but_timeout_is_fatal() {
    assert!(!TransportError::Timeout.is_fatal());
    assert!(TransportError::Closed.is_fatal());
    assert!(TransportError::Io(String::new()).is_fatal());
    assert!(TransportError::InvalidUri(String::new()).is_fatal());
    assert!(TransportError::Other(String::new()).is_fatal());
}
