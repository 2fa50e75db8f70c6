//! What the sliding-window rate calculator reports for a stream of
//! packets: the count in the window is bracketed by the number of packets
//! that arrived in the last `W - 1` seconds and the number that arrived in
//! the last `W` seconds.

use vstd::prelude::*;
use crate::tracker::{
    elapsed, evict, expired, packets_in_window, RateBucket, RateCalculatorView, MICROS_PER_SECOND,
};

verus! {

/// The calculator after one packet of `bytes` bytes arrived at each of the
/// times `arrivals`, in order.
pub open spec fn recorded(start: RateCalculatorView, arrivals: Seq<u64>, bytes: u32) -> RateCalculatorView
    decreases arrivals.len(),
{
    if arrivals.len() == 0 {
        start
    } else {
        recorded(start, arrivals.drop_last(), bytes).record(arrivals.last(), bytes)
    }
}

/// Time does not run backwards along `times`.
pub open spec fn non_decreasing(times: Seq<u64>) -> bool {
    forall|i: int, j: int| 0 <= i <= j < times.len() ==> times[i] <= times[j]
}

/// Number of the arrivals that came at or after `from`.
pub open spec fn arrivals_from(arrivals: Seq<u64>, from: int) -> nat
    decreases arrivals.len(),
{
    if arrivals.len() == 0 {
        0
    } else {
        arrivals_from(arrivals.drop_last(), from) + (if arrivals.last() >= from {
            1nat
        } else {
            0nat
        })
    }
}

/// Packets held by the buckets that are anchored at or after `from`.
pub open spec fn packets_from(buckets: Seq<RateBucket>, from: int) -> nat
    decreases buckets.len(),
{
    if buckets.len() == 0 {
        0
    } else {
        packets_from(buckets.drop_last(), from) + (if buckets.last().timestamp >= from {
            buckets.last().packets as nat
        } else {
            0nat
        })
    }
}

/// The buckets account for the arrivals up to time `latest` under a
/// window of `window_us` microseconds: no bucket is anchored after
/// `latest`; the buckets anchored at or after any time hold no more packets
/// than arrived since that time; and, for a time that no evicted bucket can
/// reach, they hold every packet that arrived a second or more later.
pub open spec fn tallied(buckets: Seq<RateBucket>, arrivals: Seq<u64>, latest: int, window_us: int) -> bool {
    &&& forall|i: int| 0 <= i < buckets.len() ==> (#[trigger] buckets[i]).timestamp <= latest
    &&& forall|from: int| #[trigger] packets_from(buckets, from) <= arrivals_from(arrivals, from)
    &&& forall|from: int|
        from > latest - window_us ==> arrivals_from(arrivals, from + MICROS_PER_SECOND - 1)
            <= #[trigger] packets_from(buckets, from)
}

/// No more arrivals came since a time than there are arrivals.
pub proof fn lemma_arrivals_bounded(arrivals: Seq<u64>, from: int)
    ensures
        arrivals_from(arrivals, from) <= arrivals.len(),
    decreases arrivals.len(),
{
    if arrivals.len() > 0 {
        lemma_arrivals_bounded(arrivals.drop_last(), from);
    }
}

/// Counting from the front: the first bucket counts if it is anchored at
/// or after `from`, and the rest count as they do alone.
proof fn lemma_packets_from_front(buckets: Seq<RateBucket>, from: int)
    requires
        buckets.len() > 0,
    ensures
        packets_from(buckets, from) == packets_from(buckets.drop_first(), from) + (
        if buckets[0].timestamp >= from {
            buckets[0].packets as nat
        } else {
            0nat
        }),
    decreases buckets.len(),
{
    if buckets.len() > 1 {
        let head = buckets.drop_last();
        lemma_packets_from_front(head, from);
        assert(head.drop_first() =~= buckets.drop_first().drop_last());
        assert(buckets.drop_first().last() == buckets.last());
        assert(head[0] == buckets[0]);
    } else {
        assert(buckets.drop_last() =~= buckets.drop_first());
    }
}

/// Evicting keeps buckets of the list, drops only expired ones, and so
/// takes nothing from the count of the buckets anchored after
/// `now - window_us`.
proof fn lemma_evict(buckets: Seq<RateBucket>, now: u64, window_us: int, from: int)
    requires
        window_us > 0,
    ensures
        packets_from(evict(buckets, now, window_us), from) <= packets_from(buckets, from),
        from > now - window_us ==> packets_from(evict(buckets, now, window_us), from)
            == packets_from(buckets, from),
        forall|i: int|
            0 <= i < evict(buckets, now, window_us).len() ==> buckets.contains(
                #[trigger] evict(buckets, now, window_us)[i],
            ),
    decreases buckets.len(),
{
    if buckets.len() > 0 && expired(buckets[0].timestamp, now, window_us) {
        let rest = buckets.drop_first();
        lemma_evict(rest, now, window_us, from);
        lemma_packets_from_front(buckets, from);
        let kept = evict(buckets, now, window_us);
        assert forall|i: int| 0 <= i < kept.len() implies buckets.contains(#[trigger] kept[i]) by {
            assert(rest.contains(kept[i]));
            let k = choose|k: int| 0 <= k < rest.len() && rest[k] == kept[i];
            assert(buckets[k + 1] == kept[i]);
        }
    } else {
        assert forall|i: int| 0 <= i < buckets.len() implies buckets.contains(
            #[trigger] buckets[i],
        ) by {}
    }
}

/// One more arrival keeps the tally.
proof fn lemma_record_keeps_tally(
    v: RateCalculatorView,
    arrivals: Seq<u64>,
    latest: int,
    now: u64,
    bytes: u32,
)
    requires
        v.window_secs > 0,
        tallied(v.buckets, arrivals, latest, v.window_us()),
        latest <= now,
        arrivals.len() < u64::MAX,
    ensures
        tallied(v.record(now, bytes).buckets, arrivals.push(now), now as int, v.window_us()),
{
    let w = v.window_us();
    let kept = evict(v.buckets, now, w);
    let after = v.record(now, bytes).buckets;
    let more = arrivals.push(now);
    assert(more.drop_last() =~= arrivals);
    lemma_evict(v.buckets, now, w, 0);
    assert forall|i: int| 0 <= i < kept.len() implies (#[trigger] kept[i]).timestamp <= latest by {
        assert(v.buckets.contains(kept[i]));
        let k = choose|k: int| 0 <= k < v.buckets.len() && v.buckets[k] == kept[i];
        assert(v.buckets[k].timestamp <= latest);
    }
    let folds = kept.len() > 0 && elapsed(now, kept.last().timestamp) < MICROS_PER_SECOND;
    if folds {
        let last = kept.last();
        assert(after.drop_last() =~= kept.drop_last());
        // The bucket cannot be full: it holds no more packets than arrived.
        assert(last.packets < u64::MAX) by {
            lemma_evict(v.buckets, now, w, last.timestamp as int);
            lemma_arrivals_bounded(arrivals, last.timestamp as int);
            assert(packets_from(kept, last.timestamp as int) >= last.packets);
        }
        assert(after.last().packets == last.packets + 1);
        assert(after.last().timestamp == last.timestamp);
    } else {
        assert(after.drop_last() =~= kept);
    }
    assert forall|i: int| 0 <= i < after.len() implies (#[trigger] after[i]).timestamp <= now by {
        if i < kept.len() {
            assert(kept[i].timestamp <= latest);
        }
    }
    assert forall|from: int| #[trigger] packets_from(after, from) <= arrivals_from(more, from) by {
        lemma_evict(v.buckets, now, w, from);
        assert(packets_from(v.buckets, from) <= arrivals_from(arrivals, from));
    }
    assert forall|from: int| from > now - w implies arrivals_from(
        more,
        from + MICROS_PER_SECOND - 1,
    ) <= #[trigger] packets_from(after, from) by {
        lemma_evict(v.buckets, now, w, from);
        assert(arrivals_from(arrivals, from + MICROS_PER_SECOND - 1) <= packets_from(
            v.buckets,
            from,
        ));
    }
}

/// A fresh calculator that recorded a stream of arrivals in time order
/// has tallied them.
pub proof fn lemma_stream_is_tallied(window_secs: u32, arrivals: Seq<u64>, bytes: u32)
    requires
        window_secs > 0,
        non_decreasing(arrivals),
        arrivals.len() <= u64::MAX,
    ensures
        recorded(RateCalculatorView::fresh(window_secs), arrivals, bytes).window_secs
            == window_secs,
        tallied(
            recorded(RateCalculatorView::fresh(window_secs), arrivals, bytes).buckets,
            arrivals,
            if arrivals.len() == 0 {
                0
            } else {
                arrivals.last() as int
            },
            window_secs * MICROS_PER_SECOND,
        ),
    decreases arrivals.len(),
{
    let fresh = RateCalculatorView::fresh(window_secs);
    if arrivals.len() > 0 {
        let before = arrivals.drop_last();
        let now = arrivals.last();
        assert forall|i: int, j: int| 0 <= i <= j < before.len() implies before[i] <= before[j] by {
            assert(arrivals[i] <= arrivals[j]);
        }
        lemma_stream_is_tallied(window_secs, before, bytes);
        let latest: int = if before.len() == 0 {
            0
        } else {
            before.last() as int
        };
        if before.len() > 0 {
            assert(arrivals[before.len() - 1] <= arrivals[arrivals.len() - 1]);
        }
        lemma_record_keeps_tally(recorded(fresh, before, bytes), before, latest, now, bytes);
        assert(before.push(now) =~= arrivals);
    }
}

/// Where no bucket is anchored after `now`, the packets in the window
/// that ends at `now` are those of the buckets anchored after
/// `now - window_us`.
proof fn lemma_window_is_a_threshold(buckets: Seq<RateBucket>, now: u64, window_us: int)
    requires
        window_us > 0,
        forall|i: int| 0 <= i < buckets.len() ==> (#[trigger] buckets[i]).timestamp <= now,
    ensures
        packets_in_window(buckets, now, window_us) == packets_from(buckets, now - window_us + 1),
    decreases buckets.len(),
{
    if buckets.len() > 0 {
        let head = buckets.drop_last();
        assert forall|i: int| 0 <= i < head.len() implies (#[trigger] head[i]).timestamp <= now by {
            assert(buckets[i].timestamp <= now);
        }
        lemma_window_is_a_threshold(head, now, window_us);
        assert(buckets[buckets.len() - 1].timestamp <= now);
    }
}

/// The count that the calculator reports at `now` for a stream recorded
/// in time order lies between the number of packets that arrived in the
/// last `W - 1` seconds and the number that arrived in the last `W`
/// seconds, `W` being the window.
pub proof fn lemma_rate_is_bracketed(window_secs: u32, arrivals: Seq<u64>, bytes: u32, now: u64)
    requires
        window_secs > 0,
        non_decreasing(arrivals),
        arrivals.len() <= u64::MAX,
        forall|i: int| 0 <= i < arrivals.len() ==> arrivals[i] <= now,
    ensures
        ({
            let calculator = recorded(RateCalculatorView::fresh(window_secs), arrivals, bytes);
            let window_us = window_secs * MICROS_PER_SECOND;
            &&& calculator.packet_rate(now).denominator == window_secs
            &&& arrivals_from(arrivals, now - window_us + MICROS_PER_SECOND)
                <= calculator.packet_rate(now).numerator
            &&& calculator.packet_rate(now).numerator <= arrivals_from(
                arrivals,
                now - window_us + 1,
            )
        }),
{
    let calculator = recorded(RateCalculatorView::fresh(window_secs), arrivals, bytes);
    let window_us = window_secs * MICROS_PER_SECOND;
    lemma_stream_is_tallied(window_secs, arrivals, bytes);
    let latest: int = if arrivals.len() == 0 {
        0
    } else {
        arrivals.last() as int
    };
    if arrivals.len() > 0 {
        assert(arrivals[arrivals.len() - 1] <= now);
    }
    assert forall|i: int| 0 <= i < calculator.buckets.len() implies (
    #[trigger] calculator.buckets[i]).timestamp <= now by {
        assert(calculator.buckets[i].timestamp <= latest);
    }
    lemma_window_is_a_threshold(calculator.buckets, now, window_us);
    let from = now - window_us + 1;
    assert(packets_from(calculator.buckets, from) <= arrivals_from(arrivals, from));
    assert(arrivals_from(arrivals, from + MICROS_PER_SECOND - 1) <= packets_from(
        calculator.buckets,
        from,
    ));
    lemma_arrivals_bounded(arrivals, from);
}

/// The buckets are anchored at least a second apart, in time order, none
/// after `latest`, and none has left the window that ends at `latest`.
pub open spec fn spaced(buckets: Seq<RateBucket>, latest: int, window_us: int) -> bool {
    &&& forall|i: int, j: int|
        0 <= i < j < buckets.len() ==> (#[trigger] buckets[i]).timestamp + MICROS_PER_SECOND <= (
        #[trigger] buckets[j]).timestamp
    &&& forall|i: int|
        0 <= i < buckets.len() ==> latest - window_us < (#[trigger] buckets[i]).timestamp
            <= latest
}

/// Evicting keeps the buckets from some position on, and the first that
/// stays has not expired.
proof fn lemma_evict_is_a_suffix(buckets: Seq<RateBucket>, now: u64, window_us: int)
    ensures
        evict(buckets, now, window_us).len() <= buckets.len(),
        evict(buckets, now, window_us) == buckets.skip(
            buckets.len() - evict(buckets, now, window_us).len(),
        ),
        evict(buckets, now, window_us).len() > 0 ==> !expired(
            evict(buckets, now, window_us)[0].timestamp,
            now,
            window_us,
        ),
    decreases buckets.len(),
{
    if buckets.len() > 0 && expired(buckets[0].timestamp, now, window_us) {
        let rest = buckets.drop_first();
        lemma_evict_is_a_suffix(rest, now, window_us);
        let kept = evict(buckets, now, window_us);
        assert(rest.skip(rest.len() - kept.len()) =~= buckets.skip(buckets.len() - kept.len()));
    } else {
        assert(buckets.skip(0) =~= buckets);
    }
}

/// One more arrival keeps the buckets spaced.
proof fn lemma_record_keeps_spacing(v: RateCalculatorView, latest: int, now: u64, bytes: u32)
    requires
        v.window_secs > 0,
        spaced(v.buckets, latest, v.window_us()),
        latest <= now,
    ensures
        spaced(v.record(now, bytes).buckets, now as int, v.window_us()),
{
    let w = v.window_us();
    let kept = evict(v.buckets, now, w);
    let after = v.record(now, bytes).buckets;
    lemma_evict_is_a_suffix(v.buckets, now, w);
    let k = v.buckets.len() - kept.len();
    assert forall|i: int| 0 <= i < kept.len() implies (#[trigger] kept[i]) == v.buckets[k + i] by {}
    assert forall|i: int| 0 <= i < kept.len() implies now - w < (#[trigger] kept[i]).timestamp
        <= now by {
        assert(v.buckets[k + i].timestamp <= latest);
        if i > 0 {
            assert(v.buckets[k].timestamp + MICROS_PER_SECOND <= v.buckets[k + i].timestamp);
        }
        assert(kept[0] == v.buckets[k]);
    }
    assert forall|i: int, j: int| 0 <= i < j < kept.len() implies (#[trigger] kept[i]).timestamp
        + MICROS_PER_SECOND <= (#[trigger] kept[j]).timestamp by {
        assert(v.buckets[k + i].timestamp + MICROS_PER_SECOND <= v.buckets[k + j].timestamp);
    }
    let folds = kept.len() > 0 && elapsed(now, kept.last().timestamp) < MICROS_PER_SECOND;
    if folds {
        assert forall|i: int| 0 <= i < after.len() implies (#[trigger] after[i]).timestamp
            == kept[i].timestamp by {}
        assert forall|i: int, j: int| 0 <= i < j < after.len() implies (
        #[trigger] after[i]).timestamp + MICROS_PER_SECOND <= (#[trigger] after[j]).timestamp by {
            assert(kept[i].timestamp + MICROS_PER_SECOND <= kept[j].timestamp);
        }
        assert forall|i: int| 0 <= i < after.len() implies now - w < (#[trigger] after[i]).timestamp
            <= now by {
            assert(now - w < kept[i].timestamp <= now);
        }
    } else {
        assert forall|i: int, j: int| 0 <= i < j < after.len() implies (
        #[trigger] after[i]).timestamp + MICROS_PER_SECOND <= (#[trigger] after[j]).timestamp by {
            if j < kept.len() {
                assert(kept[i].timestamp + MICROS_PER_SECOND <= kept[j].timestamp);
            } else if kept.len() > 0 {
                assert(now - w < kept[kept.len() - 1].timestamp <= now);
                if i < kept.len() - 1 {
                    assert(kept[i].timestamp + MICROS_PER_SECOND <= kept[kept.len()
                        - 1].timestamp);
                }
            }
        }
        assert forall|i: int| 0 <= i < after.len() implies now - w < (#[trigger] after[i]).timestamp
            <= now by {
            if i < kept.len() {
                assert(now - w < kept[i].timestamp <= now);
            }
        }
    }
}

/// Buckets a second apart that all lie within one window are no more
/// than the window has seconds.
proof fn lemma_spaced_is_short(buckets: Seq<RateBucket>, latest: int, window_secs: u32)
    requires
        window_secs > 0,
        spaced(buckets, latest, window_secs * MICROS_PER_SECOND),
    ensures
        buckets.len() <= window_secs,
    decreases buckets.len(),
{
    if buckets.len() > 1 {
        let n = buckets.len() as int;
        lemma_anchor_distance(buckets, n - 1);
        assert(latest - window_secs * MICROS_PER_SECOND < buckets[0].timestamp);
        assert(buckets[n - 1].timestamp <= latest);
        assert((n - 1) * MICROS_PER_SECOND < window_secs * MICROS_PER_SECOND);
    }
}

/// Bucket `j` is anchored at least `j` seconds after the first.
proof fn lemma_anchor_distance(buckets: Seq<RateBucket>, j: int)
    requires
        0 <= j < buckets.len(),
        forall|a: int, b: int|
            0 <= a < b < buckets.len() ==> (#[trigger] buckets[a]).timestamp + MICROS_PER_SECOND
                <= (#[trigger] buckets[b]).timestamp,
    ensures
        buckets[0].timestamp + j * MICROS_PER_SECOND <= buckets[j].timestamp,
    decreases j,
{
    if j > 0 {
        lemma_anchor_distance(buckets, j - 1);
        assert(buckets[j - 1].timestamp + MICROS_PER_SECOND <= buckets[j].timestamp);
    }
}

/// A calculator with a window of `W` seconds that recorded a stream of
/// arrivals in time order holds at most `W` buckets.
pub proof fn lemma_buckets_are_bounded(window_secs: u32, arrivals: Seq<u64>, bytes: u32)
    requires
        window_secs > 0,
        non_decreasing(arrivals),
    ensures
        recorded(RateCalculatorView::fresh(window_secs), arrivals, bytes).window_secs
            == window_secs,
        spaced(
            recorded(RateCalculatorView::fresh(window_secs), arrivals, bytes).buckets,
            if arrivals.len() == 0 {
                0
            } else {
                arrivals.last() as int
            },
            window_secs * MICROS_PER_SECOND,
        ),
        recorded(RateCalculatorView::fresh(window_secs), arrivals, bytes).buckets.len()
            <= window_secs,
    decreases arrivals.len(),
{
    let fresh = RateCalculatorView::fresh(window_secs);
    if arrivals.len() > 0 {
        let before = arrivals.drop_last();
        let now = arrivals.last();
        assert forall|i: int, j: int| 0 <= i <= j < before.len() implies before[i] <= before[j] by {
            assert(arrivals[i] <= arrivals[j]);
        }
        lemma_buckets_are_bounded(window_secs, before, bytes);
        let latest: int = if before.len() == 0 {
            0
        } else {
            before.last() as int
        };
        if before.len() > 0 {
            assert(arrivals[before.len() - 1] <= arrivals[arrivals.len() - 1]);
        }
        lemma_record_keeps_spacing(recorded(fresh, before, bytes), latest, now, bytes);
    }
    lemma_spaced_is_short(
        recorded(fresh, arrivals, bytes).buckets,
        if arrivals.len() == 0 {
            0
        } else {
            arrivals.last() as int
        },
        window_secs,
    );
}

/// Rate monotonicity. A stream is steady at `rate` packets per second
/// over the window where at least `rate * (W - 1)` of its packets arrived in
/// the last `W - 1` seconds and at most `rate * W` in the last `W` seconds.
/// For such a stream the reported packets per second, the count over `W`,
/// lie between `rate * (W - 1) / W` and `rate`.
pub proof fn lemma_steady_stream_rate(
    window_secs: u32,
    arrivals: Seq<u64>,
    bytes: u32,
    now: u64,
    rate: nat,
)
    requires
        window_secs > 0,
        non_decreasing(arrivals),
        arrivals.len() <= u64::MAX,
        forall|i: int| 0 <= i < arrivals.len() ==> arrivals[i] <= now,
        arrivals_from(arrivals, now - (window_secs - 1) * MICROS_PER_SECOND) >= rate * (window_secs
            - 1),
        arrivals_from(arrivals, now - window_secs * MICROS_PER_SECOND + 1) <= rate * window_secs,
    ensures
        ({
            let reported = recorded(
                RateCalculatorView::fresh(window_secs),
                arrivals,
                bytes,
            ).packet_rate(now);
            &&& reported.denominator == window_secs
            &&& rate * (window_secs - 1) <= reported.numerator
            &&& reported.numerator <= rate * window_secs
        }),
{
    lemma_rate_is_bracketed(window_secs, arrivals, bytes, now);
    assert(now - window_secs * MICROS_PER_SECOND + MICROS_PER_SECOND == now - (window_secs - 1)
        * MICROS_PER_SECOND) by (nonlinear_arith);
}

} // verus!
