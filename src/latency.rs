//! Per-packet latency against a synchronized clock, with sliding-window
//! statistics and loss counting.

use vstd::prelude::*;
use std::collections::VecDeque;

verus! {

/// Window size used when none is configured.
pub const DEFAULT_WINDOW: usize = 100;

/// The state of a tracker.
pub struct LatencyModel {
    /// Most recent samples, oldest first (microseconds).
    pub samples: Seq<u64>,
    pub max_samples: nat,
    /// Client time minus server time, in milliseconds.
    pub clock_offset_ms: i64,
    /// The sequence number expected next; zero before the first packet.
    pub expected_seq: u64,
    pub total_packets: u64,
    pub lost_packets: u64,
    pub min_latency: Option<u64>,
    pub max_latency: Option<u64>,
}

/// Statistics after a packet, or at any moment.
#[derive(Debug, Clone, Copy, PartialEq, Eq, Structural)]
pub struct RealtimeLatencyData {
    pub current_latency_us: u64,
    /// Mean of the window, rounded down.
    pub avg_latency_us: u64,
    pub min_latency_us: u64,
    pub max_latency_us: u64,
    pub lost_packets: u64,
    /// Lost packets per hundred thousand packets: thousandths of a percent.
    pub packet_loss_milli_percent: u64,
    pub total_packets: u64,
    pub seq: u32,
}

/// Tracker of touch-packet latency.
pub struct RealtimeLatencyTracker {
    samples: VecDeque<u64>,
    max_samples: usize,
    clock_offset_ms: i64,
    expected_seq: u64,
    total_packets: u64,
    lost_packets: u64,
    min_latency: Option<u64>,
    max_latency: Option<u64>,
}

impl View for RealtimeLatencyTracker {
    type V = LatencyModel;

    closed spec fn view(&self) -> LatencyModel {
        LatencyModel {
            samples: self.samples@,
            max_samples: self.max_samples as nat,
            clock_offset_ms: self.clock_offset_ms,
            expected_seq: self.expected_seq,
            total_packets: self.total_packets,
            lost_packets: self.lost_packets,
            min_latency: self.min_latency,
            max_latency: self.max_latency,
        }
    }
}

pub open spec fn seq_sum(s: Seq<u64>) -> int
    decreases s.len(),
{
    if s.len() == 0 {
        0
    } else {
        seq_sum(s.drop_last()) + s.last()
    }
}

/// Mean of the window, rounded down; zero for an empty window.
pub open spec fn window_mean(s: Seq<u64>) -> int {
    if s.len() == 0 {
        0
    } else {
        seq_sum(s) / (s.len() as int)
    }
}

/// Delay of a packet sent at `client_ts_ms` on the client's clock and
/// received at `server_ts_us` on the server's, in microseconds.
pub open spec fn latency_us(client_ts_ms: i64, server_ts_us: u64, clock_offset_ms: i64) -> int {
    server_ts_us - (client_ts_ms * 1000 - clock_offset_ms * 1000)
}

pub open spec fn sat_u64(v: int) -> u64 {
    if v > u64::MAX {
        u64::MAX
    } else {
        v as u64
    }
}

/// Lost packets per hundred thousand.
pub open spec fn loss_milli_percent(lost: u64, total: u64) -> u64 {
    if total == 0 {
        0
    } else {
        sat_u64(lost * 100_000 / (total as int))
    }
}

pub open spec fn opt_or_zero(o: Option<u64>) -> u64 {
    match o {
        Some(v) => v,
        None => 0,
    }
}

/// The window after `l` is added: the oldest sample goes when it is full.
pub open spec fn push_window(s: Seq<u64>, max: nat, l: u64) -> Seq<u64> {
    if s.push(l).len() > max {
        s.push(l).drop_first()
    } else {
        s.push(l)
    }
}

/// The state and the result after a packet with sequence number `seq`,
/// sent at `client_ts_ms` and received at `server_ts_us`.
pub open spec fn record_spec(m: LatencyModel, seq: u32, client_ts_ms: i64, server_ts_us: u64) -> (
    LatencyModel,
    Option<RealtimeLatencyData>,
) {
    let total = sat_u64(m.total_packets + 1);
    let lost = if m.expected_seq > 0 && seq > m.expected_seq {
        sat_u64(m.lost_packets + (seq - m.expected_seq))
    } else {
        m.lost_packets
    };
    let counted = LatencyModel {
        total_packets: total,
        lost_packets: lost,
        expected_seq: (seq + 1) as u64,
        ..m
    };
    let lat = latency_us(client_ts_ms, server_ts_us, m.clock_offset_ms);
    if lat < 0 {
        (counted, None)
    } else {
        let l = sat_u64(lat);
        let lo = match m.min_latency {
            Some(v) => if l < v {
                l
            } else {
                v
            },
            None => l,
        };
        let hi = match m.max_latency {
            Some(v) => if l > v {
                l
            } else {
                v
            },
            None => l,
        };
        let samples = push_window(m.samples, m.max_samples, l);
        (
            LatencyModel {
                samples,
                min_latency: Some(lo),
                max_latency: Some(hi),
                ..counted
            },
            Some(
                RealtimeLatencyData {
                    current_latency_us: l,
                    avg_latency_us: window_mean(samples) as u64,
                    min_latency_us: lo,
                    max_latency_us: hi,
                    lost_packets: lost,
                    packet_loss_milli_percent: loss_milli_percent(lost, total),
                    total_packets: total,
                    seq,
                },
            ),
        )
    }
}

/// Statistics of the state `m`, without recording anything.
pub open spec fn stats_spec(m: LatencyModel) -> RealtimeLatencyData {
    RealtimeLatencyData {
        current_latency_us: if m.samples.len() == 0 {
            0
        } else {
            m.samples.last()
        },
        avg_latency_us: window_mean(m.samples) as u64,
        min_latency_us: opt_or_zero(m.min_latency),
        max_latency_us: opt_or_zero(m.max_latency),
        lost_packets: m.lost_packets,
        packet_loss_milli_percent: loss_milli_percent(m.lost_packets, m.total_packets),
        total_packets: m.total_packets,
        seq: if m.expected_seq == 0 {
            0
        } else if m.expected_seq - 1 > u32::MAX {
            u32::MAX
        } else {
            (m.expected_seq - 1) as u32
        },
    }
}

proof fn lemma_mean_bound(s: Seq<u64>)
    ensures
        0 <= seq_sum(s) <= s.len() * (u64::MAX as int),
        0 <= window_mean(s) <= u64::MAX,
    decreases s.len(),
{
    if s.len() > 0 {
        lemma_mean_bound(s.drop_last());
        let n = s.len() as int;
        let t = seq_sum(s);
        assert(t / n <= u64::MAX) by (nonlinear_arith)
            requires
                0 <= t <= n * (u64::MAX as int),
                n > 0,
        ;
        assert(t / n >= 0) by (nonlinear_arith)
            requires
                0 <= t,
                n > 0,
        ;
    }
}

fn mean_of(samples: &VecDeque<u64>) -> (r: u64)
    ensures
        r == window_mean(samples@),
{
    let n = samples.len();
    if n == 0 {
        return 0;
    }
    let mut sum: u128 = 0;
    let mut i: usize = 0;
    while i < n
        invariant
            n == samples@.len(),
            i <= n,
            sum == seq_sum(samples@.subrange(0, i as int)),
            sum <= i * 0x1_0000_0000_0000_0000,
        decreases n - i,
    {
        let x = samples[i];
        proof {
            let next = samples@.subrange(0, i + 1);
            assert(next.drop_last() =~= samples@.subrange(0, i as int));
        }
        sum = sum + x as u128;
        i = i + 1;
    }
    assert(samples@.subrange(0, n as int) =~= samples@);
    proof {
        lemma_mean_bound(samples@);
    }
    (sum / (n as u128)) as u64
}

fn loss_of(lost: u64, total: u64) -> (r: u64)
    ensures
        r == loss_milli_percent(lost, total),
{
    if total == 0 {
        return 0;
    }
    let v: u128 = (lost as u128) * 100_000 / (total as u128);
    if v > u64::MAX as u128 {
        u64::MAX
    } else {
        v as u64
    }
}

impl RealtimeLatencyTracker {
    /// The window never holds more than its size.
    pub open spec fn wf(&self) -> bool {
        self@.samples.len() <= self@.max_samples
    }

    /// A tracker with a window of `window_size` samples, no offset and no
    /// packets seen.
    pub fn new(window_size: usize) -> (r: RealtimeLatencyTracker)
        ensures
            r.wf(),
            r@ == (LatencyModel {
                samples: Seq::empty(),
                max_samples: window_size as nat,
                clock_offset_ms: 0,
                expected_seq: 0,
                total_packets: 0,
                lost_packets: 0,
                min_latency: None,
                max_latency: None,
            }),
    {
        let r = RealtimeLatencyTracker {
            samples: VecDeque::new(),
            max_samples: window_size,
            clock_offset_ms: 0,
            expected_seq: 0,
            total_packets: 0,
            lost_packets: 0,
            min_latency: None,
            max_latency: None,
        };
        assert(r@.samples =~= Seq::<u64>::empty());
        r
    }

    /// Stores the clock offset: client time minus server time, in ms.
    pub fn set_clock_offset(&mut self, offset_ms: i64)
        ensures
            final(self)@ == (LatencyModel { clock_offset_ms: offset_ms, ..old(self)@ }),
    {
        self.clock_offset_ms = offset_ms;
    }

    /// Clears samples, counters, extremes and the expected sequence; the
    /// window size and the clock offset stay.
    pub fn reset(&mut self)
        ensures
            final(self).wf(),
            final(self)@ == (LatencyModel {
                samples: Seq::empty(),
                expected_seq: 0,
                total_packets: 0,
                lost_packets: 0,
                min_latency: None,
                max_latency: None,
                ..old(self)@
            }),
    {
        self.samples.clear();
        self.expected_seq = 0;
        self.total_packets = 0;
        self.lost_packets = 0;
        self.min_latency = None;
        self.max_latency = None;
        assert(self@.samples =~= Seq::<u64>::empty());
    }

    /// Records a packet: counts it, adds any gap in the sequence to the lost
    /// packets, and, unless the computed latency is negative (the clocks have
    /// not converged), adds it to the window and returns the statistics.
    pub fn record_packet(&mut self, seq: u32, phone_ts_ms: i64, server_ts_us: u64) -> (r: Option<
        RealtimeLatencyData,
    >)
        requires
            old(self).wf(),
        ensures
            final(self).wf(),
            (final(self)@, r) == record_spec(old(self)@, seq, phone_ts_ms, server_ts_us),
            r is None <==> latency_us(phone_ts_ms, server_ts_us, old(self)@.clock_offset_ms) < 0,
    {
        self.total_packets = self.total_packets.saturating_add(1);
        if self.expected_seq > 0 && seq as u64 > self.expected_seq {
            self.lost_packets = self.lost_packets.saturating_add(seq as u64 - self.expected_seq);
        }
        self.expected_seq = seq as u64 + 1;
        let phone_ts_us: i128 = (phone_ts_ms as i128) * 1000 - (self.clock_offset_ms as i128) * 1000;
        let latency: i128 = server_ts_us as i128 - phone_ts_us;
        if latency < 0 {
            return None;
        }
        let l: u64 = if latency > u64::MAX as i128 {
            u64::MAX
        } else {
            latency as u64
        };
        let lo = match self.min_latency {
            Some(v) => if l < v {
                l
            } else {
                v
            },
            None => l,
        };
        let hi = match self.max_latency {
            Some(v) => if l > v {
                l
            } else {
                v
            },
            None => l,
        };
        self.min_latency = Some(lo);
        self.max_latency = Some(hi);
        self.samples.push_back(l);
        if self.samples.len() > self.max_samples {
            self.samples.pop_front();
        }
        proof {
            let m0 = old(self)@;
            let pushed = m0.samples.push(l);
            if pushed.len() > m0.max_samples {
                assert(self@.samples =~= pushed.drop_first());
            } else {
                assert(self@.samples =~= pushed);
            }
        }
        let avg = mean_of(&self.samples);
        Some(
            RealtimeLatencyData {
                current_latency_us: l,
                avg_latency_us: avg,
                min_latency_us: lo,
                max_latency_us: hi,
                lost_packets: self.lost_packets,
                packet_loss_milli_percent: loss_of(self.lost_packets, self.total_packets),
                total_packets: self.total_packets,
                seq,
            },
        )
    }

    /// The statistics as they stand, without recording anything.
    pub fn get_current_stats(&self) -> (r: RealtimeLatencyData)
        ensures
            r == stats_spec(self@),
    {
        let n = self.samples.len();
        let current = if n == 0 {
            0
        } else {
            self.samples[n - 1]
        };
        let seq: u32 = if self.expected_seq == 0 {
            0
        } else if self.expected_seq - 1 > u32::MAX as u64 {
            u32::MAX
        } else {
            (self.expected_seq - 1) as u32
        };
        RealtimeLatencyData {
            current_latency_us: current,
            avg_latency_us: mean_of(&self.samples),
            min_latency_us: match self.min_latency {
                Some(v) => v,
                None => 0,
            },
            max_latency_us: match self.max_latency {
                Some(v) => v,
                None => 0,
            },
            lost_packets: self.lost_packets,
            packet_loss_milli_percent: loss_of(self.lost_packets, self.total_packets),
            total_packets: self.total_packets,
            seq,
        }
    }
}


/// The packets that a stream of sequence numbers skips: the sum, over each
/// number after the first, of how far it lies beyond the one expected after
/// its predecessor.
pub open spec fn gap_sum(ss: Seq<u32>) -> int
    decreases ss.len(),
{
    if ss.len() <= 1 {
        0
    } else {
        let prev = ss[ss.len() - 2];
        gap_sum(ss.drop_last()) + if ss.last() > prev + 1 {
            ss.last() - prev - 1
        } else {
            0
        }
    }
}

/// The state after recording the packets `ss`, in order, with the given
/// client and server timestamps.
pub open spec fn record_all(
    m: LatencyModel,
    ss: Seq<u32>,
    client_ts_ms: Seq<i64>,
    server_ts_us: Seq<u64>,
) -> LatencyModel
    decreases ss.len(),
{
    if ss.len() == 0 || client_ts_ms.len() == 0 || server_ts_us.len() == 0 {
        m
    } else {
        record_spec(
            record_all(m, ss.drop_last(), client_ts_ms.drop_last(), server_ts_us.drop_last()),
            ss.last(),
            client_ts_ms.last(),
            server_ts_us.last(),
        ).0
    }
}

/// Loss accounting: from a tracker that has seen no packet, the lost count
/// after a stream is the sum of its gaps; the first packet is the baseline.
pub proof fn lemma_loss_accounting(
    m: LatencyModel,
    ss: Seq<u32>,
    client_ts_ms: Seq<i64>,
    server_ts_us: Seq<u64>,
)
    requires
        m.expected_seq == 0,
        m.lost_packets == 0,
        ss.len() == client_ts_ms.len(),
        ss.len() == server_ts_us.len(),
        ss.len() < 0x8000_0000,
    ensures
        record_all(m, ss, client_ts_ms, server_ts_us).lost_packets == gap_sum(ss),
        0 <= gap_sum(ss) <= ss.len() * 0x1_0000_0000,
        ss.len() > 0 ==> record_all(m, ss, client_ts_ms, server_ts_us).expected_seq == ss.last()
            + 1,
    decreases ss.len(),
{
    if ss.len() > 0 {
        let ps = ss.drop_last();
        lemma_loss_accounting(m, ps, client_ts_ms.drop_last(), server_ts_us.drop_last());
        if ps.len() > 0 {
            assert(ps.last() == ss[ss.len() - 2]);
        }
    }
}

} // verus!
