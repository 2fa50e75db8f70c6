//! The byte image of the fixed-size records that snapshots are made of.

use vstd::prelude::*;
use vstd::bytes::{spec_u16_to_le_bytes, spec_u64_to_le_bytes};
use crate::protocol::{IpAddress, PeerAddr};
use crate::snapshot::{
    ClassStats, ClientStats, EdgeSnapshot, GlobalStats, LatencyMetrics, LossMetrics,
    NodeSnapshot, Ratio, RouteStats, SignedRatio,
};
use crate::wire::{
    bool_at, bool_byte, class_at, class_byte, domain_at, domain_byte, get_bool, get_class,
    get_domain, get_i128, get_id, get_u16, get_u64, holds, i128_at, i128_bytes, id_at,
    lemma_byte, lemma_holds_both, lemma_id, lemma_integers, put_bool, put_class, put_domain,
    put_i128, put_id, put_u16, put_u64, put_u8, u16_at, u64_at,
};

verus! {

/// The image of a size or a count: that of the same number as a `u64`.
pub open spec fn usize_bytes(x: usize) -> Seq<u8> {
    spec_u64_to_le_bytes(x as u64)
}

/// A size or a count read from `b` at offset `at`, where it fits the
/// machine's `usize`.
pub open spec fn usize_at(b: Seq<u8>, at: int) -> Option<usize> {
    if u64_at(b, at) <= usize::MAX {
        Some(u64_at(b, at) as usize)
    } else {
        None
    }
}

/// Concatenation may be regrouped.
pub proof fn lemma_concat_assoc(a: Seq<u8>, b: Seq<u8>, c: Seq<u8>)
    ensures
        (a + b) + c == a + (b + c),
{
    assert((a + b) + c =~= a + (b + c));
}

/// Reading the image of a size gives it back.
pub proof fn lemma_usize(b: Seq<u8>, at: int, value: usize)
    requires
        holds(b, at, usize_bytes(value)),
    ensures
        usize_bytes(value).len() == 8,
        usize_at(b, at) == Some(value),
{
    lemma_integers(b, at);
}

pub fn put_usize(out: &mut Vec<u8>, value: usize)
    ensures
        final(out)@ == old(out)@ + usize_bytes(value),
{
    put_u64(out, value as u64);
}

pub fn get_usize(input: &[u8], at: usize) -> (value: Option<usize>)
    requires
        at + 8 <= input.len(),
    ensures
        value == usize_at(input@, at as int),
{
    let raw = get_u64(input, at);
    if raw > usize::MAX as u64 {
        None
    } else {
        Some(raw as usize)
    }
}

pub const RATIO_SIZE: usize = 16;

/// The image of a quotient: its fields one after the other.
pub open spec fn ratio_bytes(value: Ratio) -> Seq<u8> {
    spec_u64_to_le_bytes(value.numerator) + (spec_u64_to_le_bytes(value.denominator))
}

/// A quotient read from `b` at offset `at`.
pub open spec fn ratio_at(b: Seq<u8>, at: int) -> Ratio {
    Ratio { numerator: u64_at(b, at), denominator: u64_at(b, at + 8) }
}

/// Reading the image of a quotient gives it back.
pub proof fn lemma_ratio(b: Seq<u8>, at: int, value: Ratio)
    requires
        holds(b, at, ratio_bytes(value)),
    ensures
        ratio_bytes(value).len() == RATIO_SIZE,
        ratio_at(b, at) == value,
{
    let f0 = spec_u64_to_le_bytes(value.numerator);
    let f1 = spec_u64_to_le_bytes(value.denominator);
    lemma_holds_both(b, at, f0, f1);
    lemma_integers(b, at);
    lemma_integers(b, at + 8);
}

pub fn put_ratio(out: &mut Vec<u8>, value: &Ratio)
    ensures
        final(out)@ == old(out)@ + ratio_bytes(*value),
{
    put_u64(out, value.numerator);
    put_u64(out, value.denominator);
    assert(out@ =~= old(out)@ + ratio_bytes(*value));
}

pub fn get_ratio(input: &[u8], at: usize) -> (value: Ratio)
    requires
        at + RATIO_SIZE <= input.len(),
    ensures
        value == ratio_at(input@, at as int),
{
    Ratio { numerator: get_u64(input, at), denominator: get_u64(input, at + 8) }
}

pub const SIGNED_RATIO_SIZE: usize = 24;

/// The image of a signed quotient: its fields one after the other.
pub open spec fn signed_ratio_bytes(value: SignedRatio) -> Seq<u8> {
    i128_bytes(value.numerator) + (spec_u64_to_le_bytes(value.denominator))
}

/// A signed quotient read from `b` at offset `at`.
pub open spec fn signed_ratio_at(b: Seq<u8>, at: int) -> SignedRatio {
    SignedRatio { numerator: i128_at(b, at), denominator: u64_at(b, at + 16) }
}

/// Reading the image of a signed quotient gives it back.
pub proof fn lemma_signed_ratio(b: Seq<u8>, at: int, value: SignedRatio)
    requires
        holds(b, at, signed_ratio_bytes(value)),
    ensures
        signed_ratio_bytes(value).len() == SIGNED_RATIO_SIZE,
        signed_ratio_at(b, at) == value,
{
    let f0 = i128_bytes(value.numerator);
    let f1 = spec_u64_to_le_bytes(value.denominator);
    lemma_holds_both(b, at, f0, f1);
    lemma_integers(b, at);
    lemma_integers(b, at + 16);
}

pub fn put_signed_ratio(out: &mut Vec<u8>, value: &SignedRatio)
    ensures
        final(out)@ == old(out)@ + signed_ratio_bytes(*value),
{
    put_i128(out, value.numerator);
    put_u64(out, value.denominator);
    assert(out@ =~= old(out)@ + signed_ratio_bytes(*value));
}

pub fn get_signed_ratio(input: &[u8], at: usize) -> (value: SignedRatio)
    requires
        at + SIGNED_RATIO_SIZE <= input.len(),
    ensures
        value == signed_ratio_at(input@, at as int),
{
    SignedRatio { numerator: get_i128(input, at), denominator: get_u64(input, at + 16) }
}

pub const ROUTE_SIZE: usize = 16;

/// The image of the counters of a route: its fields one after the other.
pub open spec fn route_bytes(value: RouteStats) -> Seq<u8> {
    spec_u64_to_le_bytes(value.packets) + (spec_u64_to_le_bytes(value.bytes))
}

/// The counters of a route read from `b` at offset `at`.
pub open spec fn route_at(b: Seq<u8>, at: int) -> RouteStats {
    RouteStats { packets: u64_at(b, at), bytes: u64_at(b, at + 8) }
}

/// Reading the image of the counters of a route gives it back.
pub proof fn lemma_route(b: Seq<u8>, at: int, value: RouteStats)
    requires
        holds(b, at, route_bytes(value)),
    ensures
        route_bytes(value).len() == ROUTE_SIZE,
        route_at(b, at) == value,
{
    let f0 = spec_u64_to_le_bytes(value.packets);
    let f1 = spec_u64_to_le_bytes(value.bytes);
    lemma_holds_both(b, at, f0, f1);
    lemma_integers(b, at);
    lemma_integers(b, at + 8);
}

pub fn put_route(out: &mut Vec<u8>, value: &RouteStats)
    ensures
        final(out)@ == old(out)@ + route_bytes(*value),
{
    put_u64(out, value.packets);
    put_u64(out, value.bytes);
    assert(out@ =~= old(out)@ + route_bytes(*value));
}

pub fn get_route(input: &[u8], at: usize) -> (value: RouteStats)
    requires
        at + ROUTE_SIZE <= input.len(),
    ensures
        value == route_at(input@, at as int),
{
    RouteStats { packets: get_u64(input, at), bytes: get_u64(input, at + 8) }
}

pub const CLASS_STATS_SIZE: usize = 48;

/// The image of the figures of a traffic class: its fields one after the other.
pub open spec fn class_stats_bytes(value: ClassStats) -> Seq<u8> {
    spec_u64_to_le_bytes(value.packets) + (spec_u64_to_le_bytes(value.bytes) + (ratio_bytes(value.packets_per_second) + (ratio_bytes(value.bytes_per_second))))
}

/// The figures of a traffic class read from `b` at offset `at`.
pub open spec fn class_stats_at(b: Seq<u8>, at: int) -> ClassStats {
    ClassStats { packets: u64_at(b, at), bytes: u64_at(b, at + 8), packets_per_second: ratio_at(b, at + 16), bytes_per_second: ratio_at(b, at + 32) }
}

/// Reading the image of the figures of a traffic class gives it back.
pub proof fn lemma_class_stats(b: Seq<u8>, at: int, value: ClassStats)
    requires
        holds(b, at, class_stats_bytes(value)),
    ensures
        class_stats_bytes(value).len() == CLASS_STATS_SIZE,
        class_stats_at(b, at) == value,
{
    let f0 = spec_u64_to_le_bytes(value.packets);
    let f1 = spec_u64_to_le_bytes(value.bytes);
    let f2 = ratio_bytes(value.packets_per_second);
    let f3 = ratio_bytes(value.bytes_per_second);
    let r2 = f2 + f3;
    let r1 = f1 + r2;
    lemma_holds_both(b, at, f0, r1);
    lemma_integers(b, at);
    lemma_holds_both(b, at + 8, f1, r2);
    lemma_integers(b, at + 8);
    lemma_holds_both(b, at + 16, f2, f3);
    lemma_ratio(b, at + 16, value.packets_per_second);
    lemma_ratio(b, at + 32, value.bytes_per_second);
}

pub fn put_class_stats(out: &mut Vec<u8>, value: &ClassStats)
    ensures
        final(out)@ == old(out)@ + class_stats_bytes(*value),
{
    put_u64(out, value.packets);
    put_u64(out, value.bytes);
    put_ratio(out, &value.packets_per_second);
    put_ratio(out, &value.bytes_per_second);
    assert(out@ =~= old(out)@ + class_stats_bytes(*value));
}

pub fn get_class_stats(input: &[u8], at: usize) -> (value: ClassStats)
    requires
        at + CLASS_STATS_SIZE <= input.len(),
    ensures
        value == class_stats_at(input@, at as int),
{
    ClassStats { packets: get_u64(input, at), bytes: get_u64(input, at + 8), packets_per_second: get_ratio(input, at + 16), bytes_per_second: get_ratio(input, at + 32) }
}

pub const LATENCY_SIZE: usize = 56;

/// The image of latency metrics: its fields one after the other.
pub open spec fn latency_bytes(value: LatencyMetrics) -> Seq<u8> {
    spec_u64_to_le_bytes(value.min_rtt_us) + (spec_u64_to_le_bytes(value.max_rtt_us) + (ratio_bytes(value.mean_rtt_us) + (ratio_bytes(value.mean_jitter_us) + (spec_u64_to_le_bytes(value.samples)))))
}

/// Latency metrics read from `b` at offset `at`.
pub open spec fn latency_at(b: Seq<u8>, at: int) -> LatencyMetrics {
    LatencyMetrics { min_rtt_us: u64_at(b, at), max_rtt_us: u64_at(b, at + 8), mean_rtt_us: ratio_at(b, at + 16), mean_jitter_us: ratio_at(b, at + 32), samples: u64_at(b, at + 48) }
}

/// Reading the image of latency metrics gives it back.
pub proof fn lemma_latency(b: Seq<u8>, at: int, value: LatencyMetrics)
    requires
        holds(b, at, latency_bytes(value)),
    ensures
        latency_bytes(value).len() == LATENCY_SIZE,
        latency_at(b, at) == value,
{
    let f0 = spec_u64_to_le_bytes(value.min_rtt_us);
    let f1 = spec_u64_to_le_bytes(value.max_rtt_us);
    let f2 = ratio_bytes(value.mean_rtt_us);
    let f3 = ratio_bytes(value.mean_jitter_us);
    let f4 = spec_u64_to_le_bytes(value.samples);
    let r3 = f3 + f4;
    let r2 = f2 + r3;
    let r1 = f1 + r2;
    lemma_holds_both(b, at, f0, r1);
    lemma_integers(b, at);
    lemma_holds_both(b, at + 8, f1, r2);
    lemma_integers(b, at + 8);
    lemma_holds_both(b, at + 16, f2, r3);
    lemma_ratio(b, at + 16, value.mean_rtt_us);
    lemma_holds_both(b, at + 32, f3, f4);
    lemma_ratio(b, at + 32, value.mean_jitter_us);
    lemma_integers(b, at + 48);
}

pub fn put_latency(out: &mut Vec<u8>, value: &LatencyMetrics)
    ensures
        final(out)@ == old(out)@ + latency_bytes(*value),
{
    put_u64(out, value.min_rtt_us);
    let ghost o1 = out@;
    put_u64(out, value.max_rtt_us);
    let ghost o2 = out@;
    put_ratio(out, &value.mean_rtt_us);
    let ghost o3 = out@;
    put_ratio(out, &value.mean_jitter_us);
    let ghost o4 = out@;
    put_u64(out, value.samples);
    proof {
        let f0 = spec_u64_to_le_bytes((*value).min_rtt_us);
        let f1 = spec_u64_to_le_bytes((*value).max_rtt_us);
        let f2 = ratio_bytes((*value).mean_rtt_us);
        let f3 = ratio_bytes((*value).mean_jitter_us);
        let f4 = spec_u64_to_le_bytes((*value).samples);
        let r3 = f3 + f4;
        let r2 = f2 + r3;
        let r1 = f1 + r2;
        lemma_concat_assoc(o3, f3, f4);
        lemma_concat_assoc(o2, f2, r3);
        lemma_concat_assoc(o1, f1, r2);
        lemma_concat_assoc(old(out)@, f0, r1);
    }
}

pub fn get_latency(input: &[u8], at: usize) -> (value: LatencyMetrics)
    requires
        at + LATENCY_SIZE <= input.len(),
    ensures
        value == latency_at(input@, at as int),
{
    LatencyMetrics { min_rtt_us: get_u64(input, at), max_rtt_us: get_u64(input, at + 8), mean_rtt_us: get_ratio(input, at + 16), mean_jitter_us: get_ratio(input, at + 32), samples: get_u64(input, at + 48) }
}

pub const LOSS_SIZE: usize = 32;

/// The image of loss metrics: its fields one after the other.
pub open spec fn loss_bytes(value: LossMetrics) -> Seq<u8> {
    spec_u64_to_le_bytes(value.missing_sequences) + (spec_u64_to_le_bytes(value.out_of_order) + (spec_u64_to_le_bytes(value.duplicates) + (usize_bytes(value.total_gaps))))
}

/// Loss metrics read from `b` at offset `at`, where every tag and count in it can be read.
pub open spec fn loss_at(b: Seq<u8>, at: int) -> Option<LossMetrics> {
    match usize_at(b, at + 24) {
        Some(total_gaps) => Some(LossMetrics { missing_sequences: u64_at(b, at), out_of_order: u64_at(b, at + 8), duplicates: u64_at(b, at + 16), total_gaps }),
        None => None,
    }
}

/// Reading the image of loss metrics gives it back.
pub proof fn lemma_loss(b: Seq<u8>, at: int, value: LossMetrics)
    requires
        holds(b, at, loss_bytes(value)),
    ensures
        loss_bytes(value).len() == LOSS_SIZE,
        loss_at(b, at) == Some(value),
{
    let f0 = spec_u64_to_le_bytes(value.missing_sequences);
    let f1 = spec_u64_to_le_bytes(value.out_of_order);
    let f2 = spec_u64_to_le_bytes(value.duplicates);
    let f3 = usize_bytes(value.total_gaps);
    let r2 = f2 + f3;
    let r1 = f1 + r2;
    lemma_holds_both(b, at, f0, r1);
    lemma_integers(b, at);
    lemma_holds_both(b, at + 8, f1, r2);
    lemma_integers(b, at + 8);
    lemma_holds_both(b, at + 16, f2, f3);
    lemma_integers(b, at + 16);
    lemma_usize(b, at + 24, value.total_gaps);
}

pub fn put_loss(out: &mut Vec<u8>, value: &LossMetrics)
    ensures
        final(out)@ == old(out)@ + loss_bytes(*value),
{
    put_u64(out, value.missing_sequences);
    put_u64(out, value.out_of_order);
    put_u64(out, value.duplicates);
    put_usize(out, value.total_gaps);
    assert(out@ =~= old(out)@ + loss_bytes(*value));
}

pub fn get_loss(input: &[u8], at: usize) -> (value: Option<LossMetrics>)
    requires
        at + LOSS_SIZE <= input.len(),
    ensures
        value == loss_at(input@, at as int),
{
    let total_gaps = get_usize(input, at + 24)?;
    Some(LossMetrics { missing_sequences: get_u64(input, at), out_of_order: get_u64(input, at + 8), duplicates: get_u64(input, at + 16), total_gaps })
}

pub const COUNTS_SIZE: usize = 32;

/// The image of four counters: its entries one after the other.
pub open spec fn counts_bytes(value: [u64; 4]) -> Seq<u8> {
    spec_u64_to_le_bytes(value[0]) + (spec_u64_to_le_bytes(value[1]) + (spec_u64_to_le_bytes(value[2]) + (spec_u64_to_le_bytes(value[3]))))
}

/// Four counters read from `b` at offset `at`.
pub open spec fn counts_at(b: Seq<u8>, at: int) -> [u64; 4] {
    [u64_at(b, at), u64_at(b, at + 8), u64_at(b, at + 16), u64_at(b, at + 24)]
}

/// Reading the image of four counters gives it back.
pub proof fn lemma_counts(b: Seq<u8>, at: int, value: [u64; 4])
    requires
        holds(b, at, counts_bytes(value)),
    ensures
        counts_bytes(value).len() == COUNTS_SIZE,
        counts_at(b, at) == value,
{
    let f0 = spec_u64_to_le_bytes(value[0]);
    let f1 = spec_u64_to_le_bytes(value[1]);
    let f2 = spec_u64_to_le_bytes(value[2]);
    let f3 = spec_u64_to_le_bytes(value[3]);
    let r2 = f2 + f3;
    let r1 = f1 + r2;
    lemma_holds_both(b, at, f0, r1);
    lemma_integers(b, at);
    lemma_holds_both(b, at + 8, f1, r2);
    lemma_integers(b, at + 8);
    lemma_holds_both(b, at + 16, f2, f3);
    lemma_integers(b, at + 16);
    lemma_integers(b, at + 24);
    assert(counts_at(b, at) =~= value);
}

pub fn put_counts(out: &mut Vec<u8>, value: &[u64; 4])
    ensures
        final(out)@ == old(out)@ + counts_bytes(*value),
{
    put_u64(out, value[0]);
    put_u64(out, value[1]);
    put_u64(out, value[2]);
    put_u64(out, value[3]);
    assert(out@ =~= old(out)@ + counts_bytes(*value));
}

pub fn get_counts(input: &[u8], at: usize) -> (value: [u64; 4])
    requires
        at + COUNTS_SIZE <= input.len(),
    ensures
        value == counts_at(input@, at as int),
{
    let value: [u64; 4] = [get_u64(input, at), get_u64(input, at + 8), get_u64(input, at + 16), get_u64(input, at + 24)];
    assert(value =~= counts_at(input@, at as int));
    value
}

pub const ROUTES_SIZE: usize = 64;

/// The image of the counters of the four routes: its entries one after the other.
pub open spec fn routes_bytes(value: [RouteStats; 4]) -> Seq<u8> {
    route_bytes(value[0]) + (route_bytes(value[1]) + (route_bytes(value[2]) + (route_bytes(value[3]))))
}

/// The counters of the four routes read from `b` at offset `at`.
pub open spec fn routes_at(b: Seq<u8>, at: int) -> [RouteStats; 4] {
    [route_at(b, at), route_at(b, at + 16), route_at(b, at + 32), route_at(b, at + 48)]
}

/// Reading the image of the counters of the four routes gives it back.
pub proof fn lemma_routes(b: Seq<u8>, at: int, value: [RouteStats; 4])
    requires
        holds(b, at, routes_bytes(value)),
    ensures
        routes_bytes(value).len() == ROUTES_SIZE,
        routes_at(b, at) == value,
{
    let f0 = route_bytes(value[0]);
    let f1 = route_bytes(value[1]);
    let f2 = route_bytes(value[2]);
    let f3 = route_bytes(value[3]);
    let r2 = f2 + f3;
    let r1 = f1 + r2;
    lemma_holds_both(b, at, f0, r1);
    lemma_route(b, at, value[0]);
    lemma_holds_both(b, at + 16, f1, r2);
    lemma_route(b, at + 16, value[1]);
    lemma_holds_both(b, at + 32, f2, f3);
    lemma_route(b, at + 32, value[2]);
    lemma_route(b, at + 48, value[3]);
    assert(routes_at(b, at) =~= value);
}

pub fn put_routes(out: &mut Vec<u8>, value: &[RouteStats; 4])
    ensures
        final(out)@ == old(out)@ + routes_bytes(*value),
{
    put_route(out, &value[0]);
    put_route(out, &value[1]);
    put_route(out, &value[2]);
    put_route(out, &value[3]);
    assert(out@ =~= old(out)@ + routes_bytes(*value));
}

pub fn get_routes(input: &[u8], at: usize) -> (value: [RouteStats; 4])
    requires
        at + ROUTES_SIZE <= input.len(),
    ensures
        value == routes_at(input@, at as int),
{
    let value: [RouteStats; 4] = [get_route(input, at), get_route(input, at + 16), get_route(input, at + 32), get_route(input, at + 48)];
    assert(value =~= routes_at(input@, at as int));
    value
}

pub const CLASSES_SIZE: usize = 192;

/// The image of the figures of the four traffic classes: its entries one after the other.
pub open spec fn classes_bytes(value: [ClassStats; 4]) -> Seq<u8> {
    class_stats_bytes(value[0]) + (class_stats_bytes(value[1]) + (class_stats_bytes(value[2]) + (class_stats_bytes(value[3]))))
}

/// The figures of the four traffic classes read from `b` at offset `at`.
pub open spec fn classes_at(b: Seq<u8>, at: int) -> [ClassStats; 4] {
    [class_stats_at(b, at), class_stats_at(b, at + 48), class_stats_at(b, at + 96), class_stats_at(b, at + 144)]
}

/// Reading the image of the figures of the four traffic classes gives it back.
pub proof fn lemma_classes(b: Seq<u8>, at: int, value: [ClassStats; 4])
    requires
        holds(b, at, classes_bytes(value)),
    ensures
        classes_bytes(value).len() == CLASSES_SIZE,
        classes_at(b, at) == value,
{
    let f0 = class_stats_bytes(value[0]);
    let f1 = class_stats_bytes(value[1]);
    let f2 = class_stats_bytes(value[2]);
    let f3 = class_stats_bytes(value[3]);
    let r2 = f2 + f3;
    let r1 = f1 + r2;
    lemma_holds_both(b, at, f0, r1);
    lemma_class_stats(b, at, value[0]);
    lemma_holds_both(b, at + 48, f1, r2);
    lemma_class_stats(b, at + 48, value[1]);
    lemma_holds_both(b, at + 96, f2, f3);
    lemma_class_stats(b, at + 96, value[2]);
    lemma_class_stats(b, at + 144, value[3]);
    assert(classes_at(b, at) =~= value);
}

pub fn put_classes(out: &mut Vec<u8>, value: &[ClassStats; 4])
    ensures
        final(out)@ == old(out)@ + classes_bytes(*value),
{
    put_class_stats(out, &value[0]);
    put_class_stats(out, &value[1]);
    put_class_stats(out, &value[2]);
    put_class_stats(out, &value[3]);
    assert(out@ =~= old(out)@ + classes_bytes(*value));
}

pub fn get_classes(input: &[u8], at: usize) -> (value: [ClassStats; 4])
    requires
        at + CLASSES_SIZE <= input.len(),
    ensures
        value == classes_at(input@, at as int),
{
    let value: [ClassStats; 4] = [get_class_stats(input, at), get_class_stats(input, at + 48), get_class_stats(input, at + 96), get_class_stats(input, at + 144)];
    assert(value =~= classes_at(input@, at as int));
    value
}

pub const GLOBAL_SIZE: usize = 152;

/// The image of global statistics: its fields one after the other.
pub open spec fn global_bytes(value: GlobalStats) -> Seq<u8> {
    spec_u64_to_le_bytes(value.total_packets) + (spec_u64_to_le_bytes(value.total_bytes) + (counts_bytes(value.packets_by_class) + (counts_bytes(value.bytes_by_class) + (routes_bytes(value.route_stats) + (usize_bytes(value.unique_clients))))))
}

/// Global statistics read from `b` at offset `at`, where every tag and count in it can be read.
pub open spec fn global_at(b: Seq<u8>, at: int) -> Option<GlobalStats> {
    match usize_at(b, at + 144) {
        Some(unique_clients) => Some(GlobalStats { total_packets: u64_at(b, at), total_bytes: u64_at(b, at + 8), packets_by_class: counts_at(b, at + 16), bytes_by_class: counts_at(b, at + 48), route_stats: routes_at(b, at + 80), unique_clients }),
        None => None,
    }
}

/// Reading the image of global statistics gives it back.
pub proof fn lemma_global(b: Seq<u8>, at: int, value: GlobalStats)
    requires
        holds(b, at, global_bytes(value)),
    ensures
        global_bytes(value).len() == GLOBAL_SIZE,
        global_at(b, at) == Some(value),
{
    let f0 = spec_u64_to_le_bytes(value.total_packets);
    let f1 = spec_u64_to_le_bytes(value.total_bytes);
    let f2 = counts_bytes(value.packets_by_class);
    let f3 = counts_bytes(value.bytes_by_class);
    let f4 = routes_bytes(value.route_stats);
    let f5 = usize_bytes(value.unique_clients);
    let r4 = f4 + f5;
    let r3 = f3 + r4;
    let r2 = f2 + r3;
    let r1 = f1 + r2;
    lemma_holds_both(b, at, f0, r1);
    lemma_integers(b, at);
    lemma_holds_both(b, at + 8, f1, r2);
    lemma_integers(b, at + 8);
    lemma_holds_both(b, at + 16, f2, r3);
    lemma_counts(b, at + 16, value.packets_by_class);
    lemma_holds_both(b, at + 48, f3, r4);
    lemma_counts(b, at + 48, value.bytes_by_class);
    lemma_holds_both(b, at + 80, f4, f5);
    lemma_routes(b, at + 80, value.route_stats);
    lemma_usize(b, at + 144, value.unique_clients);
}

pub fn put_global(out: &mut Vec<u8>, value: &GlobalStats)
    ensures
        final(out)@ == old(out)@ + global_bytes(*value),
{
    put_u64(out, value.total_packets);
    let ghost o1 = out@;
    put_u64(out, value.total_bytes);
    let ghost o2 = out@;
    put_counts(out, &value.packets_by_class);
    let ghost o3 = out@;
    put_counts(out, &value.bytes_by_class);
    let ghost o4 = out@;
    put_routes(out, &value.route_stats);
    let ghost o5 = out@;
    put_usize(out, value.unique_clients);
    proof {
        let f0 = spec_u64_to_le_bytes((*value).total_packets);
        let f1 = spec_u64_to_le_bytes((*value).total_bytes);
        let f2 = counts_bytes((*value).packets_by_class);
        let f3 = counts_bytes((*value).bytes_by_class);
        let f4 = routes_bytes((*value).route_stats);
        let f5 = usize_bytes((*value).unique_clients);
        let r4 = f4 + f5;
        let r3 = f3 + r4;
        let r2 = f2 + r3;
        let r1 = f1 + r2;
        lemma_concat_assoc(o4, f4, f5);
        lemma_concat_assoc(o3, f3, r4);
        lemma_concat_assoc(o2, f2, r3);
        lemma_concat_assoc(o1, f1, r2);
        lemma_concat_assoc(old(out)@, f0, r1);
    }
}

pub fn get_global(input: &[u8], at: usize) -> (value: Option<GlobalStats>)
    requires
        at + GLOBAL_SIZE <= input.len(),
    ensures
        value == global_at(input@, at as int),
{
    let unique_clients = get_usize(input, at + 144)?;
    Some(GlobalStats { total_packets: get_u64(input, at), total_bytes: get_u64(input, at + 8), packets_by_class: get_counts(input, at + 16), bytes_by_class: get_counts(input, at + 48), route_stats: get_routes(input, at + 80), unique_clients })
}

pub const NODE_SIZE: usize = 186;

/// The image of a node snapshot: its fields one after the other.
pub open spec fn node_bytes(value: NodeSnapshot) -> Seq<u8> {
    value.node_id@ + (value.desc@ + (seq![domain_byte(value.domain)] + (spec_u64_to_le_bytes(value.first_seen_us) + (spec_u64_to_le_bytes(value.last_seen_us) + (seq![bool_byte(value.active)] + (spec_u64_to_le_bytes(value.total_packets) + (spec_u64_to_le_bytes(value.total_bytes) + (ratio_bytes(value.total_pps) + (ratio_bytes(value.total_bps) + (latency_bytes(value.latency) + (loss_bytes(value.loss))))))))))))
}

/// A node snapshot read from `b` at offset `at`, where every tag and count in it can be read.
pub open spec fn node_at(b: Seq<u8>, at: int) -> Option<NodeSnapshot> {
    match (domain_at(b, at + 32), bool_at(b, at + 49), loss_at(b, at + 154)) {
        (Some(domain), Some(active), Some(loss)) => Some(NodeSnapshot { node_id: id_at(b, at), desc: id_at(b, at + 16), domain, first_seen_us: u64_at(b, at + 33), last_seen_us: u64_at(b, at + 41), active, total_packets: u64_at(b, at + 50), total_bytes: u64_at(b, at + 58), total_pps: ratio_at(b, at + 66), total_bps: ratio_at(b, at + 82), latency: latency_at(b, at + 98), loss }),
        _ => None,
    }
}

/// Reading the image of a node snapshot gives it back.
#[verifier::rlimit(60)]
pub proof fn lemma_node(b: Seq<u8>, at: int, value: NodeSnapshot)
    requires
        holds(b, at, node_bytes(value)),
    ensures
        node_bytes(value).len() == NODE_SIZE,
        node_at(b, at) == Some(value),
{
    let f0 = value.node_id@;
    let f1 = value.desc@;
    let f2 = seq![domain_byte(value.domain)];
    let f3 = spec_u64_to_le_bytes(value.first_seen_us);
    let f4 = spec_u64_to_le_bytes(value.last_seen_us);
    let f5 = seq![bool_byte(value.active)];
    let f6 = spec_u64_to_le_bytes(value.total_packets);
    let f7 = spec_u64_to_le_bytes(value.total_bytes);
    let f8 = ratio_bytes(value.total_pps);
    let f9 = ratio_bytes(value.total_bps);
    let f10 = latency_bytes(value.latency);
    let f11 = loss_bytes(value.loss);
    let r10 = f10 + f11;
    let r9 = f9 + r10;
    let r8 = f8 + r9;
    let r7 = f7 + r8;
    let r6 = f6 + r7;
    let r5 = f5 + r6;
    let r4 = f4 + r5;
    let r3 = f3 + r4;
    let r2 = f2 + r3;
    let r1 = f1 + r2;
    lemma_holds_both(b, at, f0, r1);
    lemma_id(b, at, value.node_id);
    lemma_holds_both(b, at + 16, f1, r2);
    lemma_id(b, at + 16, value.desc);
    lemma_holds_both(b, at + 32, f2, r3);
    lemma_byte(b, at + 32, domain_byte(value.domain));
    lemma_holds_both(b, at + 33, f3, r4);
    lemma_integers(b, at + 33);
    lemma_holds_both(b, at + 41, f4, r5);
    lemma_integers(b, at + 41);
    lemma_holds_both(b, at + 49, f5, r6);
    lemma_byte(b, at + 49, bool_byte(value.active));
    lemma_holds_both(b, at + 50, f6, r7);
    lemma_integers(b, at + 50);
    lemma_holds_both(b, at + 58, f7, r8);
    lemma_integers(b, at + 58);
    lemma_holds_both(b, at + 66, f8, r9);
    lemma_ratio(b, at + 66, value.total_pps);
    lemma_holds_both(b, at + 82, f9, r10);
    lemma_ratio(b, at + 82, value.total_bps);
    lemma_holds_both(b, at + 98, f10, f11);
    lemma_latency(b, at + 98, value.latency);
    lemma_loss(b, at + 154, value.loss);
}

pub fn put_node(out: &mut Vec<u8>, value: &NodeSnapshot)
    ensures
        final(out)@ == old(out)@ + node_bytes(*value),
{
    put_id(out, &value.node_id);
    let ghost o1 = out@;
    put_id(out, &value.desc);
    let ghost o2 = out@;
    put_domain(out, value.domain);
    let ghost o3 = out@;
    put_u64(out, value.first_seen_us);
    let ghost o4 = out@;
    put_u64(out, value.last_seen_us);
    let ghost o5 = out@;
    put_bool(out, value.active);
    let ghost o6 = out@;
    put_u64(out, value.total_packets);
    let ghost o7 = out@;
    put_u64(out, value.total_bytes);
    let ghost o8 = out@;
    put_ratio(out, &value.total_pps);
    let ghost o9 = out@;
    put_ratio(out, &value.total_bps);
    let ghost o10 = out@;
    put_latency(out, &value.latency);
    let ghost o11 = out@;
    put_loss(out, &value.loss);
    proof {
        let f0 = (*value).node_id@;
        let f1 = (*value).desc@;
        let f2 = seq![domain_byte((*value).domain)];
        let f3 = spec_u64_to_le_bytes((*value).first_seen_us);
        let f4 = spec_u64_to_le_bytes((*value).last_seen_us);
        let f5 = seq![bool_byte((*value).active)];
        let f6 = spec_u64_to_le_bytes((*value).total_packets);
        let f7 = spec_u64_to_le_bytes((*value).total_bytes);
        let f8 = ratio_bytes((*value).total_pps);
        let f9 = ratio_bytes((*value).total_bps);
        let f10 = latency_bytes((*value).latency);
        let f11 = loss_bytes((*value).loss);
        let r10 = f10 + f11;
        let r9 = f9 + r10;
        let r8 = f8 + r9;
        let r7 = f7 + r8;
        let r6 = f6 + r7;
        let r5 = f5 + r6;
        let r4 = f4 + r5;
        let r3 = f3 + r4;
        let r2 = f2 + r3;
        let r1 = f1 + r2;
        lemma_concat_assoc(o10, f10, f11);
        lemma_concat_assoc(o9, f9, r10);
        lemma_concat_assoc(o8, f8, r9);
        lemma_concat_assoc(o7, f7, r8);
        lemma_concat_assoc(o6, f6, r7);
        lemma_concat_assoc(o5, f5, r6);
        lemma_concat_assoc(o4, f4, r5);
        lemma_concat_assoc(o3, f3, r4);
        lemma_concat_assoc(o2, f2, r3);
        lemma_concat_assoc(o1, f1, r2);
        lemma_concat_assoc(old(out)@, f0, r1);
    }
}

pub fn get_node(input: &[u8], at: usize) -> (value: Option<NodeSnapshot>)
    requires
        at + NODE_SIZE <= input.len(),
    ensures
        value == node_at(input@, at as int),
{
    let domain = get_domain(input, at + 32)?;
    let active = get_bool(input, at + 49)?;
    let loss = get_loss(input, at + 154)?;
    Some(NodeSnapshot { node_id: get_id(input, at), desc: get_id(input, at + 16), domain, first_seen_us: get_u64(input, at + 33), last_seen_us: get_u64(input, at + 41), active, total_packets: get_u64(input, at + 50), total_bytes: get_u64(input, at + 58), total_pps: get_ratio(input, at + 66), total_bps: get_ratio(input, at + 82), latency: get_latency(input, at + 98), loss })
}

pub const EDGE_SIZE: usize = 194;

/// The image of an edge snapshot: its fields one after the other.
pub open spec fn edge_bytes(value: EdgeSnapshot) -> Seq<u8> {
    value.edge_id@ + (value.src_node_id@ + (value.dst_node_id@ + (seq![class_byte(value.class)] + (spec_u64_to_le_bytes(value.packets) + (spec_u64_to_le_bytes(value.bytes) + (ratio_bytes(value.packets_per_second) + (ratio_bytes(value.bytes_per_second) + (signed_ratio_bytes(value.delta_packets_per_second) + (signed_ratio_bytes(value.delta_bytes_per_second) + (spec_u64_to_le_bytes(value.latency_ewma_ns) + (i128_bytes(value.latency_delta_ns) + (spec_u64_to_le_bytes(value.jitter_ewma_ns) + (ratio_bytes(value.loss_rate_window) + (seq![bool_byte(value.active)]))))))))))))))
}

/// An edge snapshot read from `b` at offset `at`, where every tag and count in it can be read.
pub open spec fn edge_at(b: Seq<u8>, at: int) -> Option<EdgeSnapshot> {
    match (class_at(b, at + 48), bool_at(b, at + 193)) {
        (Some(class), Some(active)) => Some(EdgeSnapshot { edge_id: id_at(b, at), src_node_id: id_at(b, at + 16), dst_node_id: id_at(b, at + 32), class, packets: u64_at(b, at + 49), bytes: u64_at(b, at + 57), packets_per_second: ratio_at(b, at + 65), bytes_per_second: ratio_at(b, at + 81), delta_packets_per_second: signed_ratio_at(b, at + 97), delta_bytes_per_second: signed_ratio_at(b, at + 121), latency_ewma_ns: u64_at(b, at + 145), latency_delta_ns: i128_at(b, at + 153), jitter_ewma_ns: u64_at(b, at + 169), loss_rate_window: ratio_at(b, at + 177), active }),
        _ => None,
    }
}

/// Reading the image of an edge snapshot gives it back.
#[verifier::rlimit(60)]
pub proof fn lemma_edge(b: Seq<u8>, at: int, value: EdgeSnapshot)
    requires
        holds(b, at, edge_bytes(value)),
    ensures
        edge_bytes(value).len() == EDGE_SIZE,
        edge_at(b, at) == Some(value),
{
    let f0 = value.edge_id@;
    let f1 = value.src_node_id@;
    let f2 = value.dst_node_id@;
    let f3 = seq![class_byte(value.class)];
    let f4 = spec_u64_to_le_bytes(value.packets);
    let f5 = spec_u64_to_le_bytes(value.bytes);
    let f6 = ratio_bytes(value.packets_per_second);
    let f7 = ratio_bytes(value.bytes_per_second);
    let f8 = signed_ratio_bytes(value.delta_packets_per_second);
    let f9 = signed_ratio_bytes(value.delta_bytes_per_second);
    let f10 = spec_u64_to_le_bytes(value.latency_ewma_ns);
    let f11 = i128_bytes(value.latency_delta_ns);
    let f12 = spec_u64_to_le_bytes(value.jitter_ewma_ns);
    let f13 = ratio_bytes(value.loss_rate_window);
    let f14 = seq![bool_byte(value.active)];
    let r13 = f13 + f14;
    let r12 = f12 + r13;
    let r11 = f11 + r12;
    let r10 = f10 + r11;
    let r9 = f9 + r10;
    let r8 = f8 + r9;
    let r7 = f7 + r8;
    let r6 = f6 + r7;
    let r5 = f5 + r6;
    let r4 = f4 + r5;
    let r3 = f3 + r4;
    let r2 = f2 + r3;
    let r1 = f1 + r2;
    lemma_holds_both(b, at, f0, r1);
    lemma_id(b, at, value.edge_id);
    lemma_holds_both(b, at + 16, f1, r2);
    lemma_id(b, at + 16, value.src_node_id);
    lemma_holds_both(b, at + 32, f2, r3);
    lemma_id(b, at + 32, value.dst_node_id);
    lemma_holds_both(b, at + 48, f3, r4);
    lemma_byte(b, at + 48, class_byte(value.class));
    lemma_holds_both(b, at + 49, f4, r5);
    lemma_integers(b, at + 49);
    lemma_holds_both(b, at + 57, f5, r6);
    lemma_integers(b, at + 57);
    lemma_holds_both(b, at + 65, f6, r7);
    lemma_ratio(b, at + 65, value.packets_per_second);
    lemma_holds_both(b, at + 81, f7, r8);
    lemma_ratio(b, at + 81, value.bytes_per_second);
    lemma_holds_both(b, at + 97, f8, r9);
    lemma_signed_ratio(b, at + 97, value.delta_packets_per_second);
    lemma_holds_both(b, at + 121, f9, r10);
    lemma_signed_ratio(b, at + 121, value.delta_bytes_per_second);
    lemma_holds_both(b, at + 145, f10, r11);
    lemma_integers(b, at + 145);
    lemma_holds_both(b, at + 153, f11, r12);
    lemma_integers(b, at + 153);
    lemma_holds_both(b, at + 169, f12, r13);
    lemma_integers(b, at + 169);
    lemma_holds_both(b, at + 177, f13, f14);
    lemma_ratio(b, at + 177, value.loss_rate_window);
    lemma_byte(b, at + 193, bool_byte(value.active));
}

pub fn put_edge(out: &mut Vec<u8>, value: &EdgeSnapshot)
    ensures
        final(out)@ == old(out)@ + edge_bytes(*value),
{
    put_id(out, &value.edge_id);
    let ghost o1 = out@;
    put_id(out, &value.src_node_id);
    let ghost o2 = out@;
    put_id(out, &value.dst_node_id);
    let ghost o3 = out@;
    put_class(out, value.class);
    let ghost o4 = out@;
    put_u64(out, value.packets);
    let ghost o5 = out@;
    put_u64(out, value.bytes);
    let ghost o6 = out@;
    put_ratio(out, &value.packets_per_second);
    let ghost o7 = out@;
    put_ratio(out, &value.bytes_per_second);
    let ghost o8 = out@;
    put_signed_ratio(out, &value.delta_packets_per_second);
    let ghost o9 = out@;
    put_signed_ratio(out, &value.delta_bytes_per_second);
    let ghost o10 = out@;
    put_u64(out, value.latency_ewma_ns);
    let ghost o11 = out@;
    put_i128(out, value.latency_delta_ns);
    let ghost o12 = out@;
    put_u64(out, value.jitter_ewma_ns);
    let ghost o13 = out@;
    put_ratio(out, &value.loss_rate_window);
    let ghost o14 = out@;
    put_bool(out, value.active);
    proof {
        let f0 = (*value).edge_id@;
        let f1 = (*value).src_node_id@;
        let f2 = (*value).dst_node_id@;
        let f3 = seq![class_byte((*value).class)];
        let f4 = spec_u64_to_le_bytes((*value).packets);
        let f5 = spec_u64_to_le_bytes((*value).bytes);
        let f6 = ratio_bytes((*value).packets_per_second);
        let f7 = ratio_bytes((*value).bytes_per_second);
        let f8 = signed_ratio_bytes((*value).delta_packets_per_second);
        let f9 = signed_ratio_bytes((*value).delta_bytes_per_second);
        let f10 = spec_u64_to_le_bytes((*value).latency_ewma_ns);
        let f11 = i128_bytes((*value).latency_delta_ns);
        let f12 = spec_u64_to_le_bytes((*value).jitter_ewma_ns);
        let f13 = ratio_bytes((*value).loss_rate_window);
        let f14 = seq![bool_byte((*value).active)];
        let r13 = f13 + f14;
        let r12 = f12 + r13;
        let r11 = f11 + r12;
        let r10 = f10 + r11;
        let r9 = f9 + r10;
        let r8 = f8 + r9;
        let r7 = f7 + r8;
        let r6 = f6 + r7;
        let r5 = f5 + r6;
        let r4 = f4 + r5;
        let r3 = f3 + r4;
        let r2 = f2 + r3;
        let r1 = f1 + r2;
        lemma_concat_assoc(o13, f13, f14);
        lemma_concat_assoc(o12, f12, r13);
        lemma_concat_assoc(o11, f11, r12);
        lemma_concat_assoc(o10, f10, r11);
        lemma_concat_assoc(o9, f9, r10);
        lemma_concat_assoc(o8, f8, r9);
        lemma_concat_assoc(o7, f7, r8);
        lemma_concat_assoc(o6, f6, r7);
        lemma_concat_assoc(o5, f5, r6);
        lemma_concat_assoc(o4, f4, r5);
        lemma_concat_assoc(o3, f3, r4);
        lemma_concat_assoc(o2, f2, r3);
        lemma_concat_assoc(o1, f1, r2);
        lemma_concat_assoc(old(out)@, f0, r1);
    }
}

pub fn get_edge(input: &[u8], at: usize) -> (value: Option<EdgeSnapshot>)
    requires
        at + EDGE_SIZE <= input.len(),
    ensures
        value == edge_at(input@, at as int),
{
    let class = get_class(input, at + 48)?;
    let active = get_bool(input, at + 193)?;
    Some(EdgeSnapshot { edge_id: get_id(input, at), src_node_id: get_id(input, at + 16), dst_node_id: get_id(input, at + 32), class, packets: get_u64(input, at + 49), bytes: get_u64(input, at + 57), packets_per_second: get_ratio(input, at + 65), bytes_per_second: get_ratio(input, at + 81), delta_packets_per_second: get_signed_ratio(input, at + 97), delta_bytes_per_second: get_signed_ratio(input, at + 121), latency_ewma_ns: get_u64(input, at + 145), latency_delta_ns: get_i128(input, at + 153), jitter_ewma_ns: get_u64(input, at + 169), loss_rate_window: get_ratio(input, at + 177), active })
}

pub const ADDR_SIZE: usize = 19;

/// The sixteen address bytes of an IP address: a version-4 address fills
/// the first four and leaves the rest zero.
pub open spec fn ip_bytes(ip: IpAddress) -> Seq<u8> {
    match ip {
        IpAddress::V4(octets) => octets@ + Seq::new(12, |i: int| 0u8),
        IpAddress::V6(octets) => octets@,
    }
}

/// The image of a peer address: the IP version (4 or 6), sixteen address
/// bytes, and the port.
pub open spec fn addr_bytes(value: PeerAddr) -> Seq<u8> {
    seq![match value.ip {
        IpAddress::V4(_) => 4u8,
        IpAddress::V6(_) => 6u8,
    }] + (ip_bytes(value.ip) + spec_u16_to_le_bytes(value.port))
}

/// A peer address read from `b` at offset `at`, where the version is
/// known and a version-4 address is followed by zeros.
pub open spec fn addr_at(b: Seq<u8>, at: int) -> Option<PeerAddr> {
    if b[at] == 4 && (forall|k: int| 5 <= k < 17 ==> #[trigger] b[at + k] == 0) {
        Some(
            PeerAddr {
                ip: IpAddress::V4([b[at + 1], b[at + 2], b[at + 3], b[at + 4]]),
                port: u16_at(b, at + 17),
            },
        )
    } else if b[at] == 6 {
        Some(PeerAddr { ip: IpAddress::V6(id_at(b, at + 1)), port: u16_at(b, at + 17) })
    } else {
        None
    }
}

/// Reading the image of a peer address gives it back.
pub proof fn lemma_addr(b: Seq<u8>, at: int, value: PeerAddr)
    requires
        holds(b, at, addr_bytes(value)),
    ensures
        addr_bytes(value).len() == ADDR_SIZE,
        addr_at(b, at) == Some(value),
{
    lemma_integers(b, at + 17);
    let kind = seq![match value.ip {
        IpAddress::V4(_) => 4u8,
        IpAddress::V6(_) => 6u8,
    }];
    let port = spec_u16_to_le_bytes(value.port);
    lemma_holds_both(b, at, kind, ip_bytes(value.ip) + port);
    lemma_holds_both(b, at + 1, ip_bytes(value.ip), port);
    lemma_byte(b, at, kind[0]);
    match value.ip {
        IpAddress::V4(octets) => {
            assert forall|k: int| 0 <= k < 16 implies b[at + 1 + k] == ip_bytes(value.ip)[k] by {
                assert(b.subrange(at + 1, at + 17)[k] == ip_bytes(value.ip)[k]);
            }
            assert forall|k: int| 5 <= k < 17 implies #[trigger] b[at + k] == 0 by {
                assert(b[at + 1 + (k - 1)] == ip_bytes(value.ip)[k - 1]);
            }
            let read: [u8; 4] = [b[at + 1], b[at + 2], b[at + 3], b[at + 4]];
            assert forall|k: int| 0 <= k < 4 implies read[k] == octets[k] by {
                assert(b[at + 1 + k] == ip_bytes(value.ip)[k]);
            }
            assert(read =~= octets);
        },
        IpAddress::V6(octets) => {
            lemma_id(b, at + 1, octets);
        },
    }
}

pub fn put_addr(out: &mut Vec<u8>, value: &PeerAddr)
    ensures
        final(out)@ == old(out)@ + addr_bytes(*value),
{
    match value.ip {
        IpAddress::V4(octets) => {
            put_u8(out, 4);
            let mut i: usize = 0;
            while i < 16
                invariant
                    i <= 16,
                    out@ =~= old(out)@ + seq![4u8] + ip_bytes(value.ip).take(i as int),
                    value.ip == IpAddress::V4(octets),
                decreases 16 - i,
            {
                out.push(if i < 4 {
                    octets[i]
                } else {
                    0
                });
                i += 1;
            }
            assert(ip_bytes(value.ip).take(16) =~= ip_bytes(value.ip));
        },
        IpAddress::V6(octets) => {
            put_u8(out, 6);
            put_id(out, &octets);
        },
    }
    put_u16(out, value.port);
    assert(out@ =~= old(out)@ + addr_bytes(*value));
}

pub fn get_addr(input: &[u8], at: usize) -> (value: Option<PeerAddr>)
    requires
        at + ADDR_SIZE <= input.len(),
    ensures
        value == addr_at(input@, at as int),
{
    if input[at] == 4 {
        let mut k: usize = 5;
        while k < 17
            invariant
                5 <= k <= 17,
                at + ADDR_SIZE <= input.len(),
                input@[at as int] == 4,
                forall|j: int| 5 <= j < k ==> #[trigger] input@[at + j] == 0,
            decreases 17 - k,
        {
            if input[at + k] != 0 {
                assert(input@[at as int + k as int] != 0);
                return None;
            }
            k += 1;
        }
        let octets: [u8; 4] = [input[at + 1], input[at + 2], input[at + 3], input[at + 4]];
        proof {
            let read: [u8; 4] = [
                input@[at + 1],
                input@[at + 2],
                input@[at + 3],
                input@[at + 4],
            ];
            assert(octets =~= read);
        }
        Some(PeerAddr { ip: IpAddress::V4(octets), port: get_u16(input, at + 17) })
    } else if input[at] == 6 {
        Some(PeerAddr { ip: IpAddress::V6(get_id(input, at + 1)), port: get_u16(input, at + 17) })
    } else {
        None
    }
}

pub const CLIENT_SIZE: usize = 419;

/// The image of a client's statistics: its fields one after the other.
pub open spec fn client_bytes(value: ClientStats) -> Seq<u8> {
    value.node_id@ + (value.desc@ + (addr_bytes(value.addr) + (spec_u64_to_le_bytes(value.first_seen_us) + (spec_u64_to_le_bytes(value.last_seen_us) + (spec_u64_to_le_bytes(value.session_duration_us) + (classes_bytes(value.class_stats) + (latency_bytes(value.latency) + (loss_bytes(value.loss) + (routes_bytes(value.route_stats))))))))))
}

/// A client's statistics read from `b` at offset `at`, where every tag and count in it can be read.
pub open spec fn client_at(b: Seq<u8>, at: int) -> Option<ClientStats> {
    match (addr_at(b, at + 32), loss_at(b, at + 323)) {
        (Some(addr), Some(loss)) => Some(ClientStats { node_id: id_at(b, at), desc: id_at(b, at + 16), addr, first_seen_us: u64_at(b, at + 51), last_seen_us: u64_at(b, at + 59), session_duration_us: u64_at(b, at + 67), class_stats: classes_at(b, at + 75), latency: latency_at(b, at + 267), loss, route_stats: routes_at(b, at + 355) }),
        _ => None,
    }
}

/// Reading the image of a client's statistics gives it back.
#[verifier::rlimit(60)]
pub proof fn lemma_client(b: Seq<u8>, at: int, value: ClientStats)
    requires
        holds(b, at, client_bytes(value)),
    ensures
        client_bytes(value).len() == CLIENT_SIZE,
        client_at(b, at) == Some(value),
{
    let f0 = value.node_id@;
    let f1 = value.desc@;
    let f2 = addr_bytes(value.addr);
    let f3 = spec_u64_to_le_bytes(value.first_seen_us);
    let f4 = spec_u64_to_le_bytes(value.last_seen_us);
    let f5 = spec_u64_to_le_bytes(value.session_duration_us);
    let f6 = classes_bytes(value.class_stats);
    let f7 = latency_bytes(value.latency);
    let f8 = loss_bytes(value.loss);
    let f9 = routes_bytes(value.route_stats);
    let r8 = f8 + f9;
    let r7 = f7 + r8;
    let r6 = f6 + r7;
    let r5 = f5 + r6;
    let r4 = f4 + r5;
    let r3 = f3 + r4;
    let r2 = f2 + r3;
    let r1 = f1 + r2;
    lemma_holds_both(b, at, f0, r1);
    lemma_id(b, at, value.node_id);
    lemma_holds_both(b, at + 16, f1, r2);
    lemma_id(b, at + 16, value.desc);
    lemma_holds_both(b, at + 32, f2, r3);
    lemma_addr(b, at + 32, value.addr);
    lemma_holds_both(b, at + 51, f3, r4);
    lemma_integers(b, at + 51);
    lemma_holds_both(b, at + 59, f4, r5);
    lemma_integers(b, at + 59);
    lemma_holds_both(b, at + 67, f5, r6);
    lemma_integers(b, at + 67);
    lemma_holds_both(b, at + 75, f6, r7);
    lemma_classes(b, at + 75, value.class_stats);
    lemma_holds_both(b, at + 267, f7, r8);
    lemma_latency(b, at + 267, value.latency);
    lemma_holds_both(b, at + 323, f8, f9);
    lemma_loss(b, at + 323, value.loss);
    lemma_routes(b, at + 355, value.route_stats);
}

pub fn put_client(out: &mut Vec<u8>, value: &ClientStats)
    ensures
        final(out)@ == old(out)@ + client_bytes(*value),
{
    put_id(out, &value.node_id);
    let ghost o1 = out@;
    put_id(out, &value.desc);
    let ghost o2 = out@;
    put_addr(out, &value.addr);
    let ghost o3 = out@;
    put_u64(out, value.first_seen_us);
    let ghost o4 = out@;
    put_u64(out, value.last_seen_us);
    let ghost o5 = out@;
    put_u64(out, value.session_duration_us);
    let ghost o6 = out@;
    put_classes(out, &value.class_stats);
    let ghost o7 = out@;
    put_latency(out, &value.latency);
    let ghost o8 = out@;
    put_loss(out, &value.loss);
    let ghost o9 = out@;
    put_routes(out, &value.route_stats);
    proof {
        let f0 = (*value).node_id@;
        let f1 = (*value).desc@;
        let f2 = addr_bytes((*value).addr);
        let f3 = spec_u64_to_le_bytes((*value).first_seen_us);
        let f4 = spec_u64_to_le_bytes((*value).last_seen_us);
        let f5 = spec_u64_to_le_bytes((*value).session_duration_us);
        let f6 = classes_bytes((*value).class_stats);
        let f7 = latency_bytes((*value).latency);
        let f8 = loss_bytes((*value).loss);
        let f9 = routes_bytes((*value).route_stats);
        let r8 = f8 + f9;
        let r7 = f7 + r8;
        let r6 = f6 + r7;
        let r5 = f5 + r6;
        let r4 = f4 + r5;
        let r3 = f3 + r4;
        let r2 = f2 + r3;
        let r1 = f1 + r2;
        lemma_concat_assoc(o8, f8, f9);
        lemma_concat_assoc(o7, f7, r8);
        lemma_concat_assoc(o6, f6, r7);
        lemma_concat_assoc(o5, f5, r6);
        lemma_concat_assoc(o4, f4, r5);
        lemma_concat_assoc(o3, f3, r4);
        lemma_concat_assoc(o2, f2, r3);
        lemma_concat_assoc(o1, f1, r2);
        lemma_concat_assoc(old(out)@, f0, r1);
    }
}

pub fn get_client(input: &[u8], at: usize) -> (value: Option<ClientStats>)
    requires
        at + CLIENT_SIZE <= input.len(),
    ensures
        value == client_at(input@, at as int),
{
    let addr = get_addr(input, at + 32)?;
    let loss = get_loss(input, at + 323)?;
    Some(ClientStats { node_id: get_id(input, at), desc: get_id(input, at + 16), addr, first_seen_us: get_u64(input, at + 51), last_seen_us: get_u64(input, at + 59), session_duration_us: get_u64(input, at + 67), class_stats: get_classes(input, at + 75), latency: get_latency(input, at + 267), loss, route_stats: get_routes(input, at + 355) })
}

} // verus!
