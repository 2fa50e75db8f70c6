//! Per-stream measurement state: sequence-gap detection, sliding-window
//! rates, and latency/jitter accumulation.
//!
//! Monotonic times are `u64` microseconds on a clock chosen by the caller.
//! Counters saturate at `u64::MAX` instead of wrapping.

use vstd::prelude::*;
use std::collections::VecDeque;
use crate::protocol::{NodeId, PeerAddr};
use crate::snapshot::{LatencyMetrics, LossMetrics, Ratio};

verus! {

pub const MICROS_PER_SECOND: u64 = 1_000_000;

/// Number of samples the latency accumulator remembers.
pub const RECENT_SAMPLES: usize = 100;

/// Time from `earlier` to `now`, or zero where `earlier` is not in the past.
pub open spec fn elapsed(now: u64, earlier: u64) -> u64 {
    now.saturating_sub(earlier)
}

/// Absolute difference of two samples.
pub open spec fn distance(a: u64, b: u64) -> u64 {
    if a >= b {
        (a - b) as u64
    } else {
        (b - a) as u64
    }
}

/// `x` cut off at `u64::MAX`.
pub open spec fn clamp(x: int) -> u64 {
    if x >= u64::MAX {
        u64::MAX
    } else if x <= 0 {
        0
    } else {
        x as u64
    }
}

pub fn abs_diff(a: u64, b: u64) -> (d: u64)
    ensures
        d == distance(a, b),
{
    if a >= b {
        a - b
    } else {
        b - a
    }
}

// ---------------------------------------------------------------------------
// Sequence tracker
// ---------------------------------------------------------------------------

/// A run of sequence numbers `start..=end` that was skipped.
#[derive(Debug, Clone, Copy)]
pub struct MissingSeqRange {
    pub start: u32,
    pub end: u32,
    pub detected_at: u64,
}

impl MissingSeqRange {
    /// How many sequence numbers the range covers; an inverted range covers
    /// none.
    pub open spec fn span(self) -> nat {
        if self.end >= self.start {
            (self.end - self.start + 1) as nat
        } else {
            0
        }
    }

    pub fn len(&self) -> (n: u64)
        ensures
            n == self.span(),
    {
        if self.end >= self.start {
            (self.end - self.start) as u64 + 1
        } else {
            0
        }
    }
}

/// What one arrival meant for its stream.
#[derive(Debug, Clone, Copy, PartialEq, Eq, Structural)]
pub enum LossEvent {
    NoLoss,
    Loss { count: u64 },
    OutOfOrder,
    Duplicate,
}

/// Tracks the sequence numbers of one stream.
#[derive(Debug, Clone)]
pub struct SequenceTracker {
    last_seq: Option<u32>,
    /// Gaps seen so far, oldest first.
    pub missing_sequences: Vec<MissingSeqRange>,
    pub out_of_order_count: u64,
    pub duplicate_count: u64,
}

/// Mathematical content of a [`SequenceTracker`].
pub struct SequenceTrackerView {
    pub last_seq: Option<u32>,
    pub missing: Seq<MissingSeqRange>,
    pub out_of_order: u64,
    pub duplicates: u64,
}

/// The sequence number that follows `last` on a 32-bit counter.
pub open spec fn next_seq(last: u32) -> u32 {
    if last == u32::MAX {
        0
    } else {
        (last + 1) as u32
    }
}

/// Total number of sequence numbers covered by `ranges`.
pub open spec fn missing_total(ranges: Seq<MissingSeqRange>) -> nat
    decreases ranges.len(),
{
    if ranges.len() == 0 {
        0
    } else {
        missing_total(ranges.drop_last()) + ranges.last().span()
    }
}

impl SequenceTrackerView {
    pub open spec fn fresh() -> SequenceTrackerView {
        SequenceTrackerView { last_seq: None, missing: Seq::empty(), out_of_order: 0, duplicates: 0 }
    }

    /// The verdict on `seq`, compared as plain unsigned 32-bit values
    /// against the number expected next.
    pub open spec fn classify(self, seq: u32) -> LossEvent {
        match self.last_seq {
            None => LossEvent::NoLoss,
            Some(last) => {
                let expected = next_seq(last);
                if seq == expected {
                    LossEvent::NoLoss
                } else if seq > expected {
                    LossEvent::Loss { count: (seq - expected) as u64 }
                } else if seq == last {
                    LossEvent::Duplicate
                } else {
                    LossEvent::OutOfOrder
                }
            },
        }
    }

    /// The tracker after `seq` arrived at time `now`.
    pub open spec fn step(self, seq: u32, now: u64) -> SequenceTrackerView {
        match self.last_seq {
            None => SequenceTrackerView { last_seq: Some(seq), ..self },
            Some(last) => {
                let expected = next_seq(last);
                if seq == expected {
                    SequenceTrackerView { last_seq: Some(seq), ..self }
                } else if seq > expected {
                    SequenceTrackerView {
                        last_seq: Some(seq),
                        missing: self.missing.push(
                            MissingSeqRange {
                                start: expected,
                                end: (seq - 1) as u32,
                                detected_at: now,
                            },
                        ),
                        ..self
                    }
                } else if seq == last {
                    SequenceTrackerView { duplicates: self.duplicates.saturating_add(1), ..self }
                } else {
                    SequenceTrackerView {
                        out_of_order: self.out_of_order.saturating_add(1),
                        ..self
                    }
                }
            },
        }
    }

    /// The tracker after every number of `seqs` arrived in order, all at
    /// time `now`.
    pub open spec fn feed(self, seqs: Seq<u32>, now: u64) -> SequenceTrackerView
        decreases seqs.len(),
    {
        if seqs.len() == 0 {
            self
        } else {
            self.feed(seqs.drop_last(), now).step(seqs.last(), now)
        }
    }
}

/// `seqs` counts upward by one from element to element, wrapping from
/// `u32::MAX` to zero.
pub open spec fn consecutive(seqs: Seq<u32>) -> bool {
    forall|i: int| 0 < i < seqs.len() ==> seqs[i] == next_seq(#[trigger] seqs[i - 1])
}

impl SequenceTracker {
    pub fn new() -> (tracker: SequenceTracker)
        ensures
            tracker@ == SequenceTrackerView::fresh(),
    {
        SequenceTracker {
            last_seq: None,
            missing_sequences: Vec::new(),
            out_of_order_count: 0,
            duplicate_count: 0,
        }
    }

    /// Accounts for the arrival of `seq` at time `now` and reports what it
    /// meant.
    pub fn process_sequence(&mut self, seq: u32, now: u64) -> (event: LossEvent)
        ensures
            final(self)@ == old(self)@.step(seq, now),
            event == old(self)@.classify(seq),
    {
        match self.last_seq {
            None => {
                self.last_seq = Some(seq);
                LossEvent::NoLoss
            },
            Some(last) => {
                let expected: u32 = if last == u32::MAX {
                    0
                } else {
                    last + 1
                };
                if seq == expected {
                    self.last_seq = Some(seq);
                    LossEvent::NoLoss
                } else if seq > expected {
                    let missing = MissingSeqRange { start: expected, end: seq - 1, detected_at: now };
                    let count: u64 = (seq - expected) as u64;
                    self.missing_sequences.push(missing);
                    self.last_seq = Some(seq);
                    LossEvent::Loss { count }
                } else if seq == last {
                    self.duplicate_count = self.duplicate_count.saturating_add(1);
                    LossEvent::Duplicate
                } else {
                    self.out_of_order_count = self.out_of_order_count.saturating_add(1);
                    LossEvent::OutOfOrder
                }
            },
        }
    }

    /// Sequence numbers that never arrived, saturating.
    pub fn missing_count(&self) -> (n: u64)
        ensures
            n == clamp(missing_total(self@.missing) as int),
    {
        let mut total: u64 = 0;
        let mut i: usize = 0;
        while i < self.missing_sequences.len()
            invariant
                i <= self.missing_sequences.len(),
                total == clamp(missing_total(self.missing_sequences@.take(i as int)) as int),
            decreases self.missing_sequences.len() - i,
        {
            let gap = self.missing_sequences[i];
            proof {
                assert(self.missing_sequences@.take(i + 1).drop_last()
                    =~= self.missing_sequences@.take(i as int));
            }
            total = total.saturating_add(gap.len());
            i += 1;
        }
        proof {
            assert(self.missing_sequences@.take(i as int) =~= self.missing_sequences@);
        }
        total
    }
}

impl View for SequenceTracker {
    type V = SequenceTrackerView;

    closed spec fn view(&self) -> SequenceTrackerView {
        SequenceTrackerView {
            last_seq: self.last_seq,
            missing: self.missing_sequences@,
            out_of_order: self.out_of_order_count,
            duplicates: self.duplicate_count,
        }
    }
}

impl Default for SequenceTracker {
    fn default() -> (tracker: SequenceTracker)
        ensures
            tracker@ == SequenceTrackerView::fresh(),
    {
        SequenceTracker::new()
    }
}

/// A stream whose numbers count upward by one, with no gap, never records
/// a missing range, a duplicate or a reordering.
pub proof fn lemma_consecutive_stream_is_clean(seqs: Seq<u32>, now: u64)
    requires
        consecutive(seqs),
    ensures
        SequenceTrackerView::fresh().feed(seqs, now).missing == Seq::<MissingSeqRange>::empty(),
        SequenceTrackerView::fresh().feed(seqs, now).duplicates == 0,
        SequenceTrackerView::fresh().feed(seqs, now).out_of_order == 0,
        SequenceTrackerView::fresh().feed(seqs, now).last_seq == (if seqs.len() == 0 {
            None
        } else {
            Some(seqs.last())
        }),
    decreases seqs.len(),
{
    if seqs.len() > 0 {
        let head = seqs.drop_last();
        assert forall|i: int| 0 < i < head.len() implies head[i] == next_seq(
            #[trigger] head[i - 1],
        ) by {
            assert(head[i] == seqs[i]);
            assert(head[i - 1] == seqs[i - 1]);
        }
        lemma_consecutive_stream_is_clean(head, now);
        if head.len() > 0 {
            assert(head.last() == seqs[seqs.len() - 2]);
            assert(seqs.last() == next_seq(seqs[seqs.len() - 1 - 1]));
        }
    }
}

/// Sums the four per-class trackers of a node into its loss metrics.
pub open spec fn loss_metrics_of(trackers: Seq<SequenceTrackerView>) -> LossMetrics
    decreases trackers.len(),
{
    if trackers.len() == 0 {
        LossMetrics { missing_sequences: 0, out_of_order: 0, duplicates: 0, total_gaps: 0 }
    } else {
        let before = loss_metrics_of(trackers.drop_last());
        let tracker = trackers.last();
        LossMetrics {
            missing_sequences: before.missing_sequences.saturating_add(
                clamp(missing_total(tracker.missing) as int),
            ),
            out_of_order: before.out_of_order.saturating_add(tracker.out_of_order),
            duplicates: before.duplicates.saturating_add(tracker.duplicates),
            total_gaps: before.total_gaps.saturating_add(tracker.missing.len() as usize),
        }
    }
}

/// The views of an array of trackers, in order.
pub open spec fn tracker_views(trackers: [SequenceTracker; 4]) -> Seq<SequenceTrackerView> {
    Seq::new(4, |i: int| trackers[i]@)
}

pub fn loss_metrics_from_trackers(seq_trackers: &[SequenceTracker; 4]) -> (metrics: LossMetrics)
    ensures
        metrics == loss_metrics_of(tracker_views(*seq_trackers)),
{
    let mut metrics = LossMetrics {
        missing_sequences: 0,
        out_of_order: 0,
        duplicates: 0,
        total_gaps: 0,
    };
    let ghost views = tracker_views(*seq_trackers);
    let mut i: usize = 0;
    while i < 4
        invariant
            i <= 4,
            views == tracker_views(*seq_trackers),
            metrics == loss_metrics_of(views.take(i as int)),
        decreases 4 - i,
    {
        let tracker = &seq_trackers[i];
        proof {
            assert(views.take(i + 1).drop_last() =~= views.take(i as int));
            assert(views.take(i + 1).last() == tracker@);
        }
        metrics = LossMetrics {
            missing_sequences: metrics.missing_sequences.saturating_add(tracker.missing_count()),
            out_of_order: metrics.out_of_order.saturating_add(tracker.out_of_order_count),
            duplicates: metrics.duplicates.saturating_add(tracker.duplicate_count),
            total_gaps: metrics.total_gaps.saturating_add(tracker.missing_sequences.len()),
        };
        i += 1;
    }
    proof {
        assert(views.take(4) =~= views);
    }
    metrics
}

// ---------------------------------------------------------------------------
// Latency and jitter accumulator
// ---------------------------------------------------------------------------

/// Running latency statistics with a bounded memory of recent samples.
#[derive(Debug, Clone)]
pub struct LatencyStats {
    recent_rtts: VecDeque<u64>,
    max_samples: usize,
    /// Smallest sample, `u64::MAX` while there is none.
    pub min_rtt_us: u64,
    pub max_rtt_us: u64,
    sum_rtt_us: u64,
    pub count: u64,
    sum_jitter_us: u64,
    jitter_count: u64,
}

/// Mathematical content of a [`LatencyStats`].
pub struct LatencyStatsView {
    pub recent: Seq<u64>,
    pub max_samples: usize,
    pub min_rtt_us: u64,
    pub max_rtt_us: u64,
    pub sum_rtt_us: u64,
    pub count: u64,
    pub sum_jitter_us: u64,
    pub jitter_count: u64,
}

impl LatencyStatsView {
    pub open spec fn fresh() -> LatencyStatsView {
        LatencyStatsView {
            recent: Seq::empty(),
            max_samples: RECENT_SAMPLES,
            min_rtt_us: u64::MAX,
            max_rtt_us: 0,
            sum_rtt_us: 0,
            count: 0,
            sum_jitter_us: 0,
            jitter_count: 0,
        }
    }

    /// The memory of recent samples never exceeds its bound.
    pub open spec fn wf(self) -> bool {
        self.recent.len() <= self.max_samples
    }

    /// The memory of recent samples after `rtt_us` is pushed: the oldest
    /// sample leaves once the bound is exceeded.
    pub open spec fn remembered(self, rtt_us: u64) -> Seq<u64> {
        if self.recent.len() + 1 > self.max_samples {
            self.recent.push(rtt_us).drop_first()
        } else {
            self.recent.push(rtt_us)
        }
    }

    /// The accumulator after one more sample.
    pub open spec fn add(self, rtt_us: u64) -> LatencyStatsView {
        LatencyStatsView {
            recent: self.remembered(rtt_us),
            max_samples: self.max_samples,
            min_rtt_us: if rtt_us < self.min_rtt_us {
                rtt_us
            } else {
                self.min_rtt_us
            },
            max_rtt_us: if rtt_us > self.max_rtt_us {
                rtt_us
            } else {
                self.max_rtt_us
            },
            sum_rtt_us: self.sum_rtt_us.saturating_add(rtt_us),
            count: self.count.saturating_add(1),
            sum_jitter_us: if self.recent.len() > 0 {
                self.sum_jitter_us.saturating_add(distance(rtt_us, self.recent.last()))
            } else {
                self.sum_jitter_us
            },
            jitter_count: if self.recent.len() > 0 {
                self.jitter_count.saturating_add(1)
            } else {
                self.jitter_count
            },
        }
    }

    /// Mean sample: the sum over the count, or zero while there is none.
    pub open spec fn mean_rtt(self) -> Ratio {
        if self.count == 0 {
            Ratio::zero()
        } else {
            Ratio { numerator: self.sum_rtt_us, denominator: self.count }
        }
    }

    /// Mean absolute difference between consecutive samples, or zero while
    /// there is none.
    pub open spec fn mean_jitter(self) -> Ratio {
        if self.jitter_count == 0 {
            Ratio::zero()
        } else {
            Ratio { numerator: self.sum_jitter_us, denominator: self.jitter_count }
        }
    }

    pub open spec fn metrics(self) -> LatencyMetrics {
        LatencyMetrics {
            min_rtt_us: self.min_rtt_us,
            max_rtt_us: self.max_rtt_us,
            mean_rtt_us: self.mean_rtt(),
            mean_jitter_us: self.mean_jitter(),
            samples: self.count,
        }
    }
}

impl LatencyStats {
    pub fn new() -> (stats: LatencyStats)
        ensures
            stats@ == LatencyStatsView::fresh(),
            stats@.wf(),
    {
        LatencyStats {
            recent_rtts: VecDeque::new(),
            max_samples: RECENT_SAMPLES,
            min_rtt_us: u64::MAX,
            max_rtt_us: 0,
            sum_rtt_us: 0,
            count: 0,
            sum_jitter_us: 0,
            jitter_count: 0,
        }
    }

    pub fn add_rtt_sample(&mut self, rtt_us: u64)
        ensures
            final(self)@ == old(self)@.add(rtt_us),
            old(self)@.wf() && old(self)@.max_samples > 0 ==> final(self)@.wf(),
    {
        let n = self.recent_rtts.len();
        if n > 0 {
            let prev: u64 = self.recent_rtts[n - 1];
            let jitter = abs_diff(rtt_us, prev);
            self.sum_jitter_us = self.sum_jitter_us.saturating_add(jitter);
            self.jitter_count = self.jitter_count.saturating_add(1);
        }
        self.recent_rtts.push_back(rtt_us);
        if self.recent_rtts.len() > self.max_samples {
            let _ = self.recent_rtts.pop_front();
        }
        if rtt_us < self.min_rtt_us {
            self.min_rtt_us = rtt_us;
        }
        if rtt_us > self.max_rtt_us {
            self.max_rtt_us = rtt_us;
        }
        self.sum_rtt_us = self.sum_rtt_us.saturating_add(rtt_us);
        self.count = self.count.saturating_add(1);
    }

    pub fn mean_rtt_us(&self) -> (mean: Ratio)
        ensures
            mean == self@.mean_rtt(),
    {
        if self.count == 0 {
            Ratio { numerator: 0, denominator: 1 }
        } else {
            Ratio { numerator: self.sum_rtt_us, denominator: self.count }
        }
    }

    pub fn mean_jitter_us(&self) -> (mean: Ratio)
        ensures
            mean == self@.mean_jitter(),
    {
        if self.jitter_count == 0 {
            Ratio { numerator: 0, denominator: 1 }
        } else {
            Ratio { numerator: self.sum_jitter_us, denominator: self.jitter_count }
        }
    }
}

impl View for LatencyStats {
    type V = LatencyStatsView;

    closed spec fn view(&self) -> LatencyStatsView {
        LatencyStatsView {
            recent: self.recent_rtts@,
            max_samples: self.max_samples,
            min_rtt_us: self.min_rtt_us,
            max_rtt_us: self.max_rtt_us,
            sum_rtt_us: self.sum_rtt_us,
            count: self.count,
            sum_jitter_us: self.sum_jitter_us,
            jitter_count: self.jitter_count,
        }
    }
}

pub fn latency_metrics_from_stats(latency_stats: &LatencyStats) -> (metrics: LatencyMetrics)
    ensures
        metrics == latency_stats@.metrics(),
{
    LatencyMetrics {
        min_rtt_us: latency_stats.min_rtt_us,
        max_rtt_us: latency_stats.max_rtt_us,
        mean_rtt_us: latency_stats.mean_rtt_us(),
        mean_jitter_us: latency_stats.mean_jitter_us(),
        samples: latency_stats.count,
    }
}

// ---------------------------------------------------------------------------
// Sliding-window rate calculator
// ---------------------------------------------------------------------------

/// Packets and bytes that arrived within one second of `timestamp`.
#[derive(Debug, Clone, Copy)]
pub struct RateBucket {
    pub timestamp: u64,
    pub packets: u64,
    pub bytes: u64,
}

/// Packet and byte rates over a window of whole seconds, kept as one bucket
/// per second of activity.
#[derive(Debug, Clone)]
pub struct RateCalculator {
    window_secs: u32,
    buckets: VecDeque<RateBucket>,
}

/// Mathematical content of a [`RateCalculator`].
pub struct RateCalculatorView {
    pub window_secs: u32,
    pub buckets: Seq<RateBucket>,
}

/// A bucket anchored at `timestamp` has left a window of `window_us`
/// microseconds that ends at `now`.
pub open spec fn expired(timestamp: u64, now: u64, window_us: int) -> bool {
    elapsed(now, timestamp) >= window_us
}

/// `buckets` without the expired buckets at its front.
pub open spec fn evict(buckets: Seq<RateBucket>, now: u64, window_us: int) -> Seq<RateBucket>
    decreases buckets.len(),
{
    if buckets.len() > 0 && expired(buckets[0].timestamp, now, window_us) {
        evict(buckets.drop_first(), now, window_us)
    } else {
        buckets
    }
}

/// Packets held by the buckets of `buckets` that are still in the window.
pub open spec fn packets_in_window(buckets: Seq<RateBucket>, now: u64, window_us: int) -> nat
    decreases buckets.len(),
{
    if buckets.len() == 0 {
        0
    } else {
        packets_in_window(buckets.drop_last(), now, window_us) + (if expired(
            buckets.last().timestamp,
            now,
            window_us,
        ) {
            0nat
        } else {
            buckets.last().packets as nat
        })
    }
}

/// Bytes held by the buckets of `buckets` that are still in the window.
pub open spec fn bytes_in_window(buckets: Seq<RateBucket>, now: u64, window_us: int) -> nat
    decreases buckets.len(),
{
    if buckets.len() == 0 {
        0
    } else {
        bytes_in_window(buckets.drop_last(), now, window_us) + (if expired(
            buckets.last().timestamp,
            now,
            window_us,
        ) {
            0nat
        } else {
            buckets.last().bytes as nat
        })
    }
}

impl RateCalculatorView {
    pub open spec fn fresh(window_secs: u32) -> RateCalculatorView {
        RateCalculatorView { window_secs, buckets: Seq::empty() }
    }

    /// Length of the window in microseconds.
    pub open spec fn window_us(self) -> int {
        self.window_secs * MICROS_PER_SECOND
    }

    /// The calculator after a packet of `bytes` bytes arrived at `now`:
    /// expired buckets leave the front, then the packet joins the newest
    /// bucket if that is less than a second old, or opens a bucket of its
    /// own.
    pub open spec fn record(self, now: u64, bytes: u32) -> RateCalculatorView {
        let kept = evict(self.buckets, now, self.window_us());
        if kept.len() > 0 && elapsed(now, kept.last().timestamp) < MICROS_PER_SECOND {
            RateCalculatorView {
                window_secs: self.window_secs,
                buckets: kept.update(
                    kept.len() - 1,
                    RateBucket {
                        timestamp: kept.last().timestamp,
                        packets: kept.last().packets.saturating_add(1),
                        bytes: kept.last().bytes.saturating_add(bytes as u64),
                    },
                ),
            }
        } else {
            RateCalculatorView {
                window_secs: self.window_secs,
                buckets: kept.push(RateBucket { timestamp: now, packets: 1, bytes: bytes as u64 }),
            }
        }
    }

    /// Packets per second at `now`: the packets in the window over the
    /// window's length in seconds.
    pub open spec fn packet_rate(self, now: u64) -> Ratio {
        Ratio {
            numerator: clamp(packets_in_window(self.buckets, now, self.window_us()) as int),
            denominator: self.window_secs as u64,
        }
    }

    /// Bytes per second at `now`.
    pub open spec fn byte_rate(self, now: u64) -> Ratio {
        Ratio {
            numerator: clamp(bytes_in_window(self.buckets, now, self.window_us()) as int),
            denominator: self.window_secs as u64,
        }
    }
}

impl RateCalculator {
    pub fn new(window_secs: u32) -> (calculator: RateCalculator)
        ensures
            calculator@ == RateCalculatorView::fresh(window_secs),
    {
        RateCalculator { window_secs, buckets: VecDeque::new() }
    }

    pub fn record_packet(&mut self, now: u64, bytes: u32)
        ensures
            final(self)@ == old(self)@.record(now, bytes),
    {
        let window_us: u64 = self.window_secs as u64 * MICROS_PER_SECOND;
        let ghost start = self.buckets@;
        let mut evicting = true;
        while evicting
            invariant
                self.window_secs == old(self).window_secs,
                window_us == self.window_secs * MICROS_PER_SECOND,
                evict(self.buckets@, now, window_us as int) == evict(start, now, window_us as int),
                !evicting ==> self.buckets@ == evict(self.buckets@, now, window_us as int),
            decreases self.buckets@.len() + (if evicting { 1nat } else { 0nat }),
        {
            if self.buckets.len() > 0 && now.saturating_sub(self.buckets[0].timestamp)
                >= window_us {
                let _ = self.buckets.pop_front();
            } else {
                evicting = false;
            }
        }
        let ghost kept = self.buckets@;
        let n = self.buckets.len();
        if n > 0 {
            let last = self.buckets[n - 1];
            if now.saturating_sub(last.timestamp) < MICROS_PER_SECOND {
                let _ = self.buckets.pop_back();
                self.buckets.push_back(
                    RateBucket {
                        timestamp: last.timestamp,
                        packets: last.packets.saturating_add(1),
                        bytes: last.bytes.saturating_add(bytes as u64),
                    },
                );
                proof {
                    assert(self.buckets@ =~= kept.update(
                        kept.len() - 1,
                        RateBucket {
                            timestamp: kept.last().timestamp,
                            packets: kept.last().packets.saturating_add(1),
                            bytes: kept.last().bytes.saturating_add(bytes as u64),
                        },
                    ));
                }
                return ;
            }
        }
        self.buckets.push_back(RateBucket { timestamp: now, packets: 1, bytes: bytes as u64 });
    }

    /// Packet and byte rates at `now`, as counts in the window over the
    /// window's length in seconds.
    pub fn calculate_rate(&self, now: u64) -> (rate: (Ratio, Ratio))
        ensures
            rate.0 == self@.packet_rate(now),
            rate.1 == self@.byte_rate(now),
    {
        let window_us: u64 = self.window_secs as u64 * MICROS_PER_SECOND;
        let mut packets: u64 = 0;
        let mut bytes: u64 = 0;
        let mut i: usize = 0;
        while i < self.buckets.len()
            invariant
                i <= self.buckets@.len(),
                window_us == self.window_secs * MICROS_PER_SECOND,
                packets == clamp(
                    packets_in_window(self.buckets@.take(i as int), now, window_us as int) as int,
                ),
                bytes == clamp(
                    bytes_in_window(self.buckets@.take(i as int), now, window_us as int) as int,
                ),
            decreases self.buckets@.len() - i,
        {
            let bucket = self.buckets[i];
            proof {
                assert(self.buckets@.take(i + 1).drop_last() =~= self.buckets@.take(i as int));
            }
            if now.saturating_sub(bucket.timestamp) < window_us {
                packets = packets.saturating_add(bucket.packets);
                bytes = bytes.saturating_add(bucket.bytes);
            }
            i += 1;
        }
        proof {
            assert(self.buckets@.take(i as int) =~= self.buckets@);
        }
        (
            Ratio { numerator: packets, denominator: self.window_secs as u64 },
            Ratio { numerator: bytes, denominator: self.window_secs as u64 },
        )
    }
}

impl View for RateCalculator {
    type V = RateCalculatorView;

    closed spec fn view(&self) -> RateCalculatorView {
        RateCalculatorView { window_secs: self.window_secs, buckets: self.buckets@ }
    }
}

// ---------------------------------------------------------------------------
// Per-client state
// ---------------------------------------------------------------------------

/// Everything measured of one client: its per-class sequence trackers,
/// counters and rate calculators, and its latency statistics.
pub struct Client {
    pub node_id: NodeId,
    pub desc: [u8; 16],
    pub addr: PeerAddr,
    pub first_seen: u64,
    pub last_seen: u64,
    pub seq_trackers: [SequenceTracker; 4],
    pub packets_by_class: [u64; 4],
    pub bytes_by_class: [u64; 4],
    pub route_packets: [u64; 4],
    pub route_bytes: [u64; 4],
    pub latency_stats: LatencyStats,
    pub rate_calculators: [RateCalculator; 4],
}

impl Client {
    /// A client first seen at `now`, with nothing measured yet.
    pub fn new(node_id: NodeId, desc: [u8; 16], addr: PeerAddr, now: u64, window_secs: u32) -> (client:
        Client)
        ensures
            client.node_id == node_id,
            client.desc == desc,
            client.addr == addr,
            client.first_seen == now,
            client.last_seen == now,
            forall|i: int| 0 <= i < 4 ==> client.seq_trackers[i]@ == SequenceTrackerView::fresh(),
            forall|i: int|
                0 <= i < 4 ==> client.rate_calculators[i]@ == RateCalculatorView::fresh(
                    window_secs,
                ),
            forall|i: int|
                0 <= i < 4 ==> client.packets_by_class[i] == 0 && client.bytes_by_class[i] == 0
                    && client.route_packets[i] == 0 && client.route_bytes[i] == 0,
            client.latency_stats@ == LatencyStatsView::fresh(),
    {
        Client {
            node_id,
            desc,
            addr,
            first_seen: now,
            last_seen: now,
            seq_trackers: [
                SequenceTracker::new(),
                SequenceTracker::new(),
                SequenceTracker::new(),
                SequenceTracker::new(),
            ],
            packets_by_class: [0; 4],
            bytes_by_class: [0; 4],
            route_packets: [0; 4],
            route_bytes: [0; 4],
            latency_stats: LatencyStats::new(),
            rate_calculators: [
                RateCalculator::new(window_secs),
                RateCalculator::new(window_secs),
                RateCalculator::new(window_secs),
                RateCalculator::new(window_secs),
            ],
        }
    }
}

} // verus!
