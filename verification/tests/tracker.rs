use traffic_telemetry::protocol::{IpAddress, PeerAddr};
use traffic_telemetry::snapshot::LossMetrics;
use traffic_telemetry::tracker::{
    abs_diff, latency_metrics_from_stats, loss_metrics_from_trackers, Client, LatencyStats,
    LossEvent, MissingSeqRange, RateCalculator, SequenceTracker,
};

const SECOND: u64 = 1_000_000;

#[test]
fn first_sequence_is_accepted() {
    let mut tracker = SequenceTracker::new();
    assert_eq!(tracker.process_sequence(41, 0), LossEvent::NoLoss);
    assert_eq!(tracker.process_sequence(42, 1), LossEvent::NoLoss);
    assert!(tracker.missing_sequences.is_empty());
}

#[test]
fn consecutive_sequences_stay_clean() {
    let mut tracker = SequenceTracker::default();
    for seq in 0u32..1000 {
        assert_eq!(tracker.process_sequence(seq, seq as u64), LossEvent::NoLoss);
    }
    assert!(tracker.missing_sequences.is_empty());
    assert_eq!(tracker.duplicate_count, 0);
    assert_eq!(tracker.out_of_order_count, 0);
    assert_eq!(tracker.missing_count(), 0);
}

#[test]
fn consecutive_sequences_stay_clean_across_the_wrap() {
    let mut tracker = SequenceTracker::new();
    for seq in [u32::MAX - 1, u32::MAX, 0, 1, 2] {
        assert_eq!(tracker.process_sequence(seq, 0), LossEvent::NoLoss);
    }
    assert!(tracker.missing_sequences.is_empty());
    assert_eq!(tracker.duplicate_count, 0);
    assert_eq!(tracker.out_of_order_count, 0);
}

#[test]
fn gap_is_recorded_once() {
    let mut tracker = SequenceTracker::new();
    assert_eq!(tracker.process_sequence(1, 10), LossEvent::NoLoss);
    assert_eq!(tracker.process_sequence(2, 20), LossEvent::NoLoss);
    assert_eq!(tracker.process_sequence(5, 30), LossEvent::Loss { count: 2 });
    assert_eq!(tracker.process_sequence(6, 40), LossEvent::NoLoss);
    assert_eq!(tracker.missing_sequences.len(), 1);
    let gap = tracker.missing_sequences[0];
    assert_eq!((gap.start, gap.end, gap.detected_at), (3, 4, 30));
    assert_eq!(gap.len(), 2);
    assert_eq!(tracker.missing_count(), 2);
}

#[test]
fn duplicate_and_reordering_do_not_advance() {
    let mut tracker = SequenceTracker::new();
    tracker.process_sequence(1, 0);
    tracker.process_sequence(2, 0);
    tracker.process_sequence(5, 0);
    assert_eq!(tracker.process_sequence(5, 0), LossEvent::Duplicate);
    // A late arrival does not fill the recorded gap.
    assert_eq!(tracker.process_sequence(3, 0), LossEvent::OutOfOrder);
    assert_eq!(tracker.process_sequence(6, 0), LossEvent::NoLoss);
    assert_eq!(tracker.duplicate_count, 1);
    assert_eq!(tracker.out_of_order_count, 1);
    assert_eq!(tracker.missing_sequences.len(), 1);
}

#[test]
fn after_the_largest_number_values_compare_as_plain_integers() {
    let mut tracker = SequenceTracker::new();
    tracker.process_sequence(u32::MAX, 0);
    // Zero is expected next, so the largest number again counts as a gap.
    assert_eq!(tracker.process_sequence(u32::MAX, 0), LossEvent::Loss { count: u32::MAX as u64 });
    assert_eq!(tracker.missing_sequences[0].start, 0);
    assert_eq!(tracker.missing_sequences[0].end, u32::MAX - 1);
    assert_eq!(tracker.missing_count(), u32::MAX as u64);
}

#[test]
fn inverted_range_covers_nothing() {
    let range = MissingSeqRange { start: 9, end: 3, detected_at: 0 };
    assert_eq!(range.len(), 0);
    let single = MissingSeqRange { start: 9, end: 9, detected_at: 0 };
    assert_eq!(single.len(), 1);
    let whole = MissingSeqRange { start: 0, end: u32::MAX, detected_at: 0 };
    assert_eq!(whole.len(), 1u64 << 32);
}

#[test]
fn loss_metrics_sum_over_classes() {
    let mut trackers = [
        SequenceTracker::new(),
        SequenceTracker::new(),
        SequenceTracker::new(),
        SequenceTracker::new(),
    ];
    for seq in [1u32, 4, 4, 2] {
        trackers[0].process_sequence(seq, 0);
    }
    for seq in [10u32, 20, 30] {
        trackers[3].process_sequence(seq, 0);
    }
    let metrics: LossMetrics = loss_metrics_from_trackers(&trackers);
    assert_eq!(metrics.missing_sequences, 2 + 9 + 9);
    assert_eq!(metrics.total_gaps, 3);
    assert_eq!(metrics.duplicates, 1);
    assert_eq!(metrics.out_of_order, 1);
    let none = LossMetrics::default();
    assert_eq!(none.total_gaps, 0);
}

#[test]
fn latency_stats_start_empty() {
    let stats = LatencyStats::new();
    assert_eq!(stats.min_rtt_us, u64::MAX);
    assert_eq!(stats.max_rtt_us, 0);
    assert_eq!(stats.count, 0);
    let mean = stats.mean_rtt_us();
    assert_eq!((mean.numerator, mean.denominator), (0, 1));
    let jitter = stats.mean_jitter_us();
    assert_eq!((jitter.numerator, jitter.denominator), (0, 1));
}

#[test]
fn latency_stats_accumulate() {
    let mut stats = LatencyStats::new();
    stats.add_rtt_sample(100);
    stats.add_rtt_sample(160);
    stats.add_rtt_sample(130);
    assert_eq!(stats.min_rtt_us, 100);
    assert_eq!(stats.max_rtt_us, 160);
    assert_eq!(stats.count, 3);
    let mean = stats.mean_rtt_us();
    assert_eq!((mean.numerator, mean.denominator), (390, 3));
    let jitter = stats.mean_jitter_us();
    assert_eq!((jitter.numerator, jitter.denominator), (60 + 30, 2));
    let metrics = latency_metrics_from_stats(&stats);
    assert_eq!(metrics.samples, 3);
    assert_eq!(metrics.min_rtt_us, 100);
    assert_eq!(metrics.mean_rtt_us.numerator, 390);
    assert_eq!(metrics.mean_jitter_us.numerator, 90);
}

#[test]
fn latency_sums_saturate() {
    let mut stats = LatencyStats::new();
    stats.add_rtt_sample(u64::MAX);
    stats.add_rtt_sample(u64::MAX);
    stats.add_rtt_sample(0);
    assert_eq!(stats.mean_rtt_us().numerator, u64::MAX);
    assert_eq!(stats.mean_jitter_us().numerator, u64::MAX);
    assert_eq!(stats.count, 3);
    assert_eq!(abs_diff(3, 10), 7);
    assert_eq!(abs_diff(10, 3), 7);
}

#[test]
fn latency_memory_is_bounded() {
    let mut stats = LatencyStats::new();
    for i in 0..250u64 {
        stats.add_rtt_sample(i);
    }
    assert_eq!(stats.count, 250);
    // Jitter is taken against the previous sample, whatever has been forgotten.
    assert_eq!(stats.mean_jitter_us().numerator, 249);
    assert_eq!(stats.mean_jitter_us().denominator, 249);
}

#[test]
fn rate_counts_packets_in_the_window() {
    let mut rate = RateCalculator::new(5);
    rate.record_packet(0, 100);
    rate.record_packet(SECOND / 2, 100);
    rate.record_packet(SECOND, 300);
    let (pps, bps) = rate.calculate_rate(SECOND);
    assert_eq!((pps.numerator, pps.denominator), (3, 5));
    assert_eq!((bps.numerator, bps.denominator), (500, 5));
}

#[test]
fn rate_forgets_buckets_that_left_the_window() {
    let mut rate = RateCalculator::new(5);
    rate.record_packet(0, 100);
    rate.record_packet(2 * SECOND, 200);
    // At five seconds the first bucket is exactly one window old and no longer counts.
    let (pps, bps) = rate.calculate_rate(5 * SECOND);
    assert_eq!(pps.numerator, 1);
    assert_eq!(bps.numerator, 200);
    let (pps, _) = rate.calculate_rate(5 * SECOND - 1);
    assert_eq!(pps.numerator, 2);
    rate.record_packet(7 * SECOND, 50);
    let (pps, bps) = rate.calculate_rate(7 * SECOND);
    assert_eq!(pps.numerator, 1);
    assert_eq!(bps.numerator, 50);
}

#[test]
fn rate_buckets_are_anchored_at_their_first_packet() {
    let mut rate = RateCalculator::new(2);
    rate.record_packet(SECOND / 2, 1);
    // Still within one second of the anchor: same bucket.
    rate.record_packet(SECOND + SECOND / 2 - 1, 1);
    // This one opens a new bucket.
    rate.record_packet(SECOND + SECOND / 2, 1);
    // The first bucket, anchored at half a second, leaves at two and a half.
    let (pps, _) = rate.calculate_rate(2 * SECOND + SECOND / 2 - 1);
    assert_eq!(pps.numerator, 3);
    let (pps, _) = rate.calculate_rate(2 * SECOND + SECOND / 2);
    assert_eq!(pps.numerator, 1);
}

#[test]
fn steady_stream_rate_stays_within_one_bucket_of_the_truth() {
    // 50 packets per second for eight seconds, window of five.
    let mut rate = RateCalculator::new(5);
    let per_second: u64 = 50;
    let mut sent: u64 = 0;
    while sent < 8 * per_second {
        let now = sent * SECOND / per_second;
        rate.record_packet(now, 10);
        let (pps, _) = rate.calculate_rate(now);
        if now >= 5 * SECOND {
            assert!(pps.numerator <= per_second * 5);
            assert!(pps.numerator >= per_second * 4);
        }
        sent += 1;
    }
}

#[test]
fn empty_window_of_zero_seconds_reports_zero_over_zero() {
    let mut rate = RateCalculator::new(0);
    rate.record_packet(10, 10);
    let (pps, bps) = rate.calculate_rate(10);
    assert_eq!((pps.numerator, pps.denominator), (0, 0));
    assert_eq!((bps.numerator, bps.denominator), (0, 0));
}

#[test]
fn new_client_has_nothing_measured() {
    let addr = PeerAddr { ip: IpAddress::V4([10, 0, 0, 1]), port: 7 };
    let mut client = Client::new([1; 16], [2; 16], addr, 500, 5);
    assert_eq!(client.node_id, [1; 16]);
    assert_eq!(client.desc, [2; 16]);
    assert_eq!(client.addr.port, 7);
    assert_eq!((client.first_seen, client.last_seen), (500, 500));
    assert_eq!(client.packets_by_class, [0; 4]);
    assert_eq!(client.bytes_by_class, [0; 4]);
    assert_eq!(client.route_packets, [0; 4]);
    assert_eq!(client.route_bytes, [0; 4]);
    assert_eq!(client.latency_stats.count, 0);
    assert_eq!(client.latency_stats.min_rtt_us, u64::MAX);
    assert!(client.seq_trackers.iter().all(|t| t.missing_sequences.is_empty()));
    client.rate_calculators[2].record_packet(600, 10);
    let (pps, _) = client.rate_calculators[2].calculate_rate(600);
    assert_eq!((pps.numerator, pps.denominator), (1, 5));
    let (pps, _) = client.rate_calculators[0].calculate_rate(600);
    assert_eq!(pps.numerator, 0);
}
