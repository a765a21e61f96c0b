use vstd::prelude::*;

verus! {

/// Nanoseconds in one second.
pub const NANOS_PER_SECOND: u128 = 1_000_000_000;

/// A transfer rate kept exact: `bytes` moved during `nanos` nanoseconds.
///
/// A sample over no time at all stands for the rate zero.
#[derive(Debug, Clone, Copy, PartialEq, Eq)]
pub struct RateSample {
    pub bytes: u64,
    pub nanos: u128,
}

impl RateSample {
    /// The rate in bits per second, rounded down: `8 * bytes / seconds`, and
    /// zero over an empty interval.
    pub open spec fn bits_per_second_spec(&self) -> nat {
        if self.nanos == 0 {
            0
        } else {
            (self.bytes as nat * 8 * NANOS_PER_SECOND as nat) / (self.nanos as nat)
        }
    }

    /// The sample that stands for no traffic.
    pub fn zero() -> (r: RateSample)
        ensures
            r.bytes == 0,
            r.nanos == 0,
            r.bits_per_second_spec() == 0,
    {
        RateSample { bytes: 0, nanos: 0 }
    }

    /// The rate in bits per second, rounded down and held at `i64::MAX` where
    /// it would not fit.
    pub fn bits_per_second(&self) -> (r: i64)
        ensures
            r == if self.bits_per_second_spec() > i64::MAX {
                i64::MAX as int
            } else {
                self.bits_per_second_spec() as int
            },
    {
        if self.nanos == 0 {
            return 0;
        }
        let bits: u128 = (self.bytes as u128) * 8 * NANOS_PER_SECOND;
        let rate: u128 = bits / self.nanos;
        if rate > i64::MAX as u128 {
            i64::MAX
        } else {
            rate as i64
        }
    }
}

/// The rate in whole bits per second is the true rate rounded down: it is
/// no more than `8 * bytes` over the seconds of the sample, and less than
/// one bit per second below it.
pub proof fn lemma_rate_is_rounded_down(sample: RateSample)
    requires
        sample.nanos > 0,
    ensures
        sample.bits_per_second_spec() * sample.nanos <= sample.bytes * 8 * NANOS_PER_SECOND,
        sample.bytes * 8 * NANOS_PER_SECOND < (sample.bits_per_second_spec() + 1) * sample.nanos,
{
    let bits: int = (sample.bytes as nat * 8 * NANOS_PER_SECOND as nat) as int;
    let d: int = sample.nanos as int;
    vstd::arithmetic::div_mod::lemma_fundamental_div_mod(bits, d);
    vstd::arithmetic::div_mod::lemma_mod_bound(bits, d);
    assert(bits == d * (bits / d) + bits % d);
    assert((bits / d) * d == d * (bits / d)) by (nonlinear_arith);
    assert((bits / d + 1) * d == d * (bits / d) + d) by (nonlinear_arith);
}

/// A sample over no time at all stands for the rate zero, whatever its
/// bytes.
pub proof fn lemma_rate_over_no_time_is_zero(sample: RateSample)
    requires
        sample.nanos == 0,
    ensures
        sample.bits_per_second_spec() == 0,
{
}

/// The figures of the statistics report.
///
/// The two megabit rates are kept as exact samples; whoever renders the
/// report divides.
#[allow(non_snake_case)]
#[derive(Debug, Clone, Copy, PartialEq, Eq)]
pub struct StatsData {
    /// Outgoing bit rate, bits per second.
    pub bitrate: i64,
    pub bytesRcvDrop: i64,
    pub bytesRcvLoss: i64,
    /// The sample behind the bandwidth estimate.
    pub mbpsBandwidth: RateSample,
    /// The sample behind the receive rate.
    pub mbpsRecvRate: RateSample,
    /// Estimated receive buffer, milliseconds.
    pub msRcvBuf: i64,
    pub pktRcvDrop: i64,
    pub pktRcvLoss: i64,
    /// Estimated round-trip time, milliseconds.
    pub rtt: u64,
    /// Seconds since the aggregator was created.
    pub uptime: i64,
}

/// The statistics report: the protocol last registered, the figures, and the
/// literal status `"ok"`.
#[derive(Debug, PartialEq, Eq)]
pub struct StatsResponse {
    pub protocol: String,
    pub data: StatsData,
    pub status: &'static str,
}

} // verus!
