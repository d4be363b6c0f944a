//! Time-series slicing and downsampling for the trend graph.

use vstd::prelude::*;
use vstd::arithmetic::div_mod::{
    lemma_div_is_ordered, lemma_fundamental_div_mod, lemma_fundamental_div_mod_converse,
    lemma_mod_pos_bound,
};

use crate::domain::MeasurementPoint;

verus! {

/// Milliseconds in one hour.
pub const MS_PER_HOUR: i64 = 3_600_000;

/// The look-back span in hours: `hours_back`, but at least one hour.
pub open spec fn clamped_hours(hours_back: i64) -> int {
    if hours_back < 1 {
        1
    } else {
        hours_back as int
    }
}

/// The oldest instant that the window keeps: the look-back span before the
/// newest sample (not before "now", so that stale data still shows).
pub open spec fn cutoff_ms(history: Seq<MeasurementPoint>, hours_back: i64) -> int {
    history.last().timestamp_ms - clamped_hours(hours_back) * 3_600_000
}

/// The number of leading points that are older than `cutoff`.
pub open spec fn leading_older(history: Seq<MeasurementPoint>, cutoff: int) -> nat
    decreases history.len(),
{
    if history.len() > 0 && history[0].timestamp_ms < cutoff {
        1 + leading_older(history.drop_first(), cutoff)
    } else {
        0
    }
}

/// The points from the first one that is not older than the cutoff on.
pub open spec fn window_of(history: Seq<MeasurementPoint>, hours_back: i64) -> Seq<MeasurementPoint> {
    history.skip(leading_older(history, cutoff_ms(history, hours_back)) as int)
}

/// `i * (w - 1) / (m - 1)` rounded to the nearest integer, halves upwards:
/// the position of the `i`-th of `m` evenly spread samples among `w` points.
///
/// The rounding is exact, in integer arithmetic. A floating-point stride
/// (`(w - 1) as f64 / (m - 1) as f64`, times `i`, rounded) can differ where
/// its rounding error crosses a half: with `w == 35` and `m == 29` it puts
/// the sample at index 21 on point 25, where the exact position 25.5 gives 26.
pub open spec fn sample_index(i: int, w: int, m: int) -> int {
    (2 * (i * (w - 1)) + (m - 1)) / (2 * (m - 1))
}

/// `m` points of `window` at evenly spread positions, first and last included.
pub open spec fn stride_samples(window: Seq<MeasurementPoint>, m: int) -> Seq<MeasurementPoint> {
    Seq::new(
        m as nat,
        |i: int|
            {
                let k = sample_index(i, window.len() as int, m);
                window[if k < window.len() - 1 {
                    k
                } else {
                    window.len() - 1
                }]
            },
    )
}

/// `s` without each point whose timestamp equals that of the point kept before it.
pub open spec fn dedup_by_time(s: Seq<MeasurementPoint>) -> Seq<MeasurementPoint>
    decreases s.len(),
{
    if s.len() == 0 {
        s
    } else {
        let prev = dedup_by_time(s.drop_last());
        if prev.len() > 0 && prev.last().timestamp_ms == s.last().timestamp_ms {
            prev
        } else {
            prev.push(s.last())
        }
    }
}

/// The points of `history` that the graph shows: those within the last
/// `hours_back` hours (at least one) before the newest sample, downsampled to
/// at most `max_points` by stride sampling that keeps the first and last point.
pub open spec fn sliced(history: Seq<MeasurementPoint>, hours_back: i64, max_points: int) -> Seq<
    MeasurementPoint,
> {
    if history.len() == 0 || max_points == 0 {
        Seq::empty()
    } else if max_points == 1 {
        seq![history.last()]
    } else {
        let window = window_of(history, hours_back);
        if window.len() <= max_points {
            window
        } else {
            dedup_by_time(stride_samples(window, max_points))
        }
    }
}

/// The cutoff of a slice can be computed in `i64`.
pub open spec fn slice_fits(history: Seq<MeasurementPoint>, hours_back: i64, max_points: int) -> bool {
    history.len() > 0 && max_points > 1 ==> {
        &&& clamped_hours(hours_back) * 3_600_000 <= i64::MAX
        &&& cutoff_ms(history, hours_back) >= i64::MIN
    }
}

proof fn lemma_leading_older_step(h: Seq<MeasurementPoint>, cutoff: int, i: int)
    requires
        0 <= i < h.len(),
        h[i].timestamp_ms < cutoff,
    ensures
        leading_older(h.skip(i), cutoff) == 1 + leading_older(h.skip(i + 1), cutoff),
{
    assert(h.skip(i).drop_first() =~= h.skip(i + 1));
}

proof fn lemma_round_half_up(a: int, d: int)
    requires
        a >= 0,
        d > 0,
    ensures
        (2 * a + d) / (2 * d) == a / d + (if 2 * (a % d) >= d {
            1int
        } else {
            0int
        }),
{
    lemma_fundamental_div_mod(a, d);
    lemma_mod_pos_bound(a, d);
    let q = a / d;
    let r = a % d;
    assert(a == d * q + r);
    if 2 * r >= d {
        assert(2 * a + d == (q + 1) * (2 * d) + (2 * r - d)) by (nonlinear_arith)
            requires
                a == d * q + r,
        ;
        lemma_fundamental_div_mod_converse(2 * a + d, 2 * d, q + 1, 2 * r - d);
    } else {
        assert(2 * a + d == q * (2 * d) + (2 * r + d)) by (nonlinear_arith)
            requires
                a == d * q + r,
        ;
        lemma_fundamental_div_mod_converse(2 * a + d, 2 * d, q, 2 * r + d);
    }
}

/// Returns the points within the last `hours_back` hours (at least one)
/// before the newest sample (not before "now", so that stale caches still
/// render correctly), downsampled to at most `max_points` via stride sampling
/// that always keeps the first and last sample.
pub fn slice_series(history: &[MeasurementPoint], hours_back: i64, max_points: usize) -> (r: Vec<
    MeasurementPoint,
>)
    requires
        slice_fits(history@, hours_back, max_points as int),
    ensures
        r@ == sliced(history@, hours_back, max_points as int),
{
    let n = history.len();
    if n == 0 || max_points == 0 {
        return Vec::new();
    }
    if max_points == 1 {
        return vec![history[n - 1]];
    }
    let hours: i64 = if hours_back < 1 {
        1
    } else {
        hours_back
    };
    let cutoff: i64 = history[n - 1].timestamp_ms - hours * MS_PER_HOUR;
    let ghost h = history@;

    let mut start: usize = 0;
    assert(h.skip(0) =~= h);
    while start < n
        invariant
            n == h.len(),
            h == history@,
            start <= n,
            leading_older(h, cutoff as int) == start + leading_older(h.skip(start as int), cutoff as int),
        ensures
            start <= n,
            leading_older(h, cutoff as int) == start + leading_older(h.skip(start as int), cutoff as int),
            start == n || history@[start as int].timestamp_ms >= cutoff,
        decreases n - start,
    {
        if history[start].timestamp_ms >= cutoff {
            break;
        }
        proof {
            lemma_leading_older_step(h, cutoff as int, start as int);
        }
        start = start + 1;
    }
    proof {
        if start < n {
            assert(h.skip(start as int)[0] == h[start as int]);
        }
        assert(leading_older(h, cutoff_ms(h, hours_back)) == start);
    }
    let ghost window = window_of(h, hours_back);
    assert(window =~= h.subrange(start as int, n as int));

    let w = n - start;
    if w <= max_points {
        let mut out: Vec<MeasurementPoint> = Vec::new();
        let mut k: usize = start;
        while k < n
            invariant
                start <= k <= n,
                n == history@.len(),
                out@ == history@.subrange(start as int, k as int),
            decreases n - k,
        {
            out.push(history[k]);
            assert(out@ =~= history@.subrange(start as int, k + 1));
            k = k + 1;
        }
        return out;
    }
    let d: u128 = (max_points - 1) as u128;
    let span: u128 = (w - 1) as u128;
    let ghost samples = stride_samples(window, max_points as int);
    let mut out: Vec<MeasurementPoint> = Vec::new();
    assert(samples.take(0) =~= Seq::<MeasurementPoint>::empty());
    for i in 0..max_points
        invariant
            n == history@.len(),
            start < n,
            w == n - start,
            w > max_points,
            max_points > 1,
            d == max_points - 1,
            span == w - 1,
            window == history@.subrange(start as int, n as int),
            samples == stride_samples(window, max_points as int),
            out@ == dedup_by_time(samples.take(i as int)),
    {
        assert((i as int) * (span as int) <= 0xffff_ffff_ffff_fffe_0000_0000_0000_0001) by (
        nonlinear_arith)
            requires
                0 <= i <= 0xffff_ffff_ffff_ffff,
                0 <= span <= 0xffff_ffff_ffff_ffff,
        ;
        let a: u128 = (i as u128) * span;
        let q: u128 = a / d;
        let rem: u128 = a % d;
        assert(q <= a) by (nonlinear_arith)
            requires
                d >= 1,
                a >= 0,
                q == a / d,
        ;
        let rounded: u128 = if 2 * rem >= d {
            q + 1
        } else {
            q
        };
        proof {
            lemma_round_half_up(a as int, d as int);
        }
        assert(rounded == sample_index(i as int, w as int, max_points as int));
        let idx: usize = if rounded < span {
            rounded as usize
        } else {
            (w - 1) as usize
        };
        let point = history[start + idx];
        assert(point == samples[i as int]);
        proof {
            assert(samples.take(i + 1).drop_last() =~= samples.take(i as int));
        }
        if out.len() == 0 || out[out.len() - 1].timestamp_ms != point.timestamp_ms {
            out.push(point);
        }
    }
    assert(samples.take(max_points as int) =~= samples);
    out
}

/// Timestamps never decrease along `s`.
pub open spec fn time_ordered(s: Seq<MeasurementPoint>) -> bool {
    forall|i: int, j: int| 0 <= i <= j < s.len() ==> s[i].timestamp_ms <= s[j].timestamp_ms
}

/// Timestamps strictly increase along `s`.
pub open spec fn strictly_time_ordered(s: Seq<MeasurementPoint>) -> bool {
    forall|i: int, j: int| 0 <= i < j < s.len() ==> s[i].timestamp_ms < s[j].timestamp_ms
}

proof fn lemma_leading_older_bound(h: Seq<MeasurementPoint>, cutoff: int)
    ensures
        leading_older(h, cutoff) <= h.len(),
        leading_older(h, cutoff) < h.len() ==> h[leading_older(h, cutoff) as int].timestamp_ms
            >= cutoff,
        forall|j: int| 0 <= j < leading_older(h, cutoff) ==> h[j].timestamp_ms < cutoff,
        h.len() > 0 && h.last().timestamp_ms >= cutoff ==> leading_older(h, cutoff) < h.len(),
    decreases h.len(),
{
    if h.len() > 0 && h[0].timestamp_ms < cutoff {
        let t = h.drop_first();
        lemma_leading_older_bound(t, cutoff);
        if h.len() > 1 {
            assert(t.last() == h.last());
        }
        assert forall|j: int| 0 <= j < leading_older(h, cutoff) implies h[j].timestamp_ms
            < cutoff by {
            if j > 0 {
                assert(h[j] == t[j - 1]);
            }
        }
    }
}

proof fn lemma_dedup_len(s: Seq<MeasurementPoint>)
    ensures
        dedup_by_time(s).len() <= s.len(),
    decreases s.len(),
{
    if s.len() > 0 {
        lemma_dedup_len(s.drop_last());
    }
}

proof fn lemma_dedup_ends(s: Seq<MeasurementPoint>)
    requires
        s.len() > 0,
    ensures
        dedup_by_time(s).len() > 0,
        dedup_by_time(s)[0] == s[0],
        dedup_by_time(s).last().timestamp_ms == s.last().timestamp_ms,
    decreases s.len(),
{
    let prev = dedup_by_time(s.drop_last());
    if s.len() > 1 {
        lemma_dedup_ends(s.drop_last());
    } else {
        assert(prev.len() == 0);
    }
}

proof fn lemma_dedup_subset(s: Seq<MeasurementPoint>)
    ensures
        forall|k: int| 0 <= k < dedup_by_time(s).len() ==> s.contains(#[trigger] dedup_by_time(s)[k]),
    decreases s.len(),
{
    if s.len() > 0 {
        let t = s.drop_last();
        lemma_dedup_subset(t);
        let prev = dedup_by_time(t);
        assert forall|k: int| 0 <= k < dedup_by_time(s).len() implies s.contains(
            #[trigger] dedup_by_time(s)[k],
        ) by {
            if k < prev.len() {
                assert(dedup_by_time(s)[k] == prev[k]);
                let j = choose|j: int| 0 <= j < t.len() && t[j] == prev[k];
                assert(s[j] == t[j]);
            } else {
                assert(dedup_by_time(s)[k] == s.last());
                assert(s[s.len() - 1] == s.last());
            }
        }
    }
}

proof fn lemma_dedup_strict(s: Seq<MeasurementPoint>)
    requires
        time_ordered(s),
    ensures
        strictly_time_ordered(dedup_by_time(s)),
    decreases s.len(),
{
    if s.len() > 0 {
        let t = s.drop_last();
        assert(time_ordered(t));
        lemma_dedup_strict(t);
        lemma_dedup_subset(t);
        let prev = dedup_by_time(t);
        if !(prev.len() > 0 && prev.last().timestamp_ms == s.last().timestamp_ms) {
            let r = prev.push(s.last());
            if prev.len() > 0 {
                let j = choose|j: int| 0 <= j < t.len() && t[j] == prev[prev.len() - 1];
                assert(s[j] == t[j]);
                assert(s[s.len() - 1] == s.last());
                assert(prev.last().timestamp_ms < s.last().timestamp_ms);
            }
            assert forall|i: int, j: int| 0 <= i < j < r.len() implies r[i].timestamp_ms
                < r[j].timestamp_ms by {
                if j == r.len() - 1 {
                    if i < prev.len() - 1 {
                        assert(prev[i].timestamp_ms < prev[prev.len() - 1].timestamp_ms);
                    }
                } else {
                    assert(r[i] == prev[i]);
                    assert(r[j] == prev[j]);
                }
            }
        }
    }
}

proof fn lemma_sample_index_monotone(i1: int, i2: int, w: int, m: int)
    requires
        0 <= i1 <= i2,
        w >= 1,
        m >= 2,
    ensures
        sample_index(i1, w, m) <= sample_index(i2, w, m),
{
    assert(i1 * (w - 1) <= i2 * (w - 1)) by (nonlinear_arith)
        requires
            0 <= i1 <= i2,
            w >= 1,
    ;
    lemma_div_is_ordered(2 * (i1 * (w - 1)) + (m - 1), 2 * (i2 * (w - 1)) + (m - 1), 2 * (m - 1));
}

proof fn lemma_sample_index_ends(w: int, m: int)
    requires
        w >= 1,
        m >= 2,
    ensures
        sample_index(0, w, m) == 0,
        sample_index(m - 1, w, m) == w - 1,
{
    lemma_fundamental_div_mod_converse(m - 1, 2 * (m - 1), 0, m - 1);
    assert(2 * ((m - 1) * (w - 1)) + (m - 1) == (w - 1) * (2 * (m - 1)) + (m - 1)) by (
    nonlinear_arith);
    lemma_fundamental_div_mod_converse(
        2 * ((m - 1) * (w - 1)) + (m - 1),
        2 * (m - 1),
        w - 1,
        m - 1,
    );
}

proof fn lemma_stride_ordered(window: Seq<MeasurementPoint>, m: int)
    requires
        window.len() >= 1,
        m >= 2,
        time_ordered(window),
    ensures
        time_ordered(stride_samples(window, m)),
{
    let s = stride_samples(window, m);
    let w = window.len() as int;
    assert forall|i: int, j: int| 0 <= i <= j < s.len() implies s[i].timestamp_ms
        <= s[j].timestamp_ms by {
        lemma_sample_index_monotone(i, j, w, m);
        lemma_sample_index_ends(w, m);
        lemma_sample_index_monotone(0, i, w, m);
    }
}

/// Zero or negative look-back spans do not swallow the series: they count
/// as one hour.
pub proof fn law_slice_clamps_hours(history: Seq<MeasurementPoint>, hours_back: i64, max_points: int)
    requires
        hours_back < 1,
    ensures
        sliced(history, hours_back, max_points) == sliced(history, 1, max_points),
{
    assert(window_of(history, hours_back) == window_of(history, 1));
}

/// A slice never holds more than `max_points` points.
pub proof fn law_slice_bounded(history: Seq<MeasurementPoint>, hours_back: i64, max_points: int)
    requires
        max_points >= 0,
    ensures
        sliced(history, hours_back, max_points).len() <= max_points,
{
    if history.len() > 0 && max_points > 1 {
        let window = window_of(history, hours_back);
        if window.len() > max_points {
            lemma_dedup_len(stride_samples(window, max_points));
        }
    }
}

/// The newest sample is always kept: a slice of a non-empty history with
/// room for at least one point ends with a point of the newest sample's time.
pub proof fn law_slice_keeps_newest(history: Seq<MeasurementPoint>, hours_back: i64, max_points: int)
    requires
        history.len() > 0,
        max_points >= 1,
    ensures
        sliced(history, hours_back, max_points).len() > 0,
        sliced(history, hours_back, max_points).last().timestamp_ms == history.last().timestamp_ms,
{
    if max_points > 1 {
        let cutoff = cutoff_ms(history, hours_back);
        lemma_leading_older_bound(history, cutoff);
        let start = leading_older(history, cutoff) as int;
        let window = window_of(history, hours_back);
        assert(window.last() == history.last());
        if window.len() > max_points {
            let w = window.len() as int;
            lemma_sample_index_ends(w, max_points);
            let samples = stride_samples(window, max_points);
            assert(samples.last() == window[w - 1]);
            lemma_dedup_ends(samples);
        }
    }
}

/// The oldest point of the window is always kept: with room for at least
/// two points, a slice starts with the first point that is not older than
/// the look-back span before the newest sample.
pub proof fn law_slice_keeps_oldest(history: Seq<MeasurementPoint>, hours_back: i64, max_points: int)
    requires
        history.len() > 0,
        max_points >= 2,
    ensures
        window_of(history, hours_back).len() > 0,
        sliced(history, hours_back, max_points).len() > 0,
        sliced(history, hours_back, max_points)[0] == window_of(history, hours_back)[0],
{
    let cutoff = cutoff_ms(history, hours_back);
    lemma_leading_older_bound(history, cutoff);
    let window = window_of(history, hours_back);
    if window.len() > max_points {
        let w = window.len() as int;
        lemma_sample_index_ends(w, max_points);
        let samples = stride_samples(window, max_points);
        assert(samples[0] == window[0]);
        lemma_dedup_ends(samples);
    }
}

/// Of a chronological history, a slice only shows points from the look-back
/// span: none older than the span before the newest sample, none newer than it.
pub proof fn law_slice_within_span(history: Seq<MeasurementPoint>, hours_back: i64, max_points: int)
    requires
        history.len() > 0,
        max_points >= 0,
        time_ordered(history),
    ensures
        forall|k: int|
            0 <= k < sliced(history, hours_back, max_points).len() ==> cutoff_ms(history, hours_back)
                <= #[trigger] sliced(history, hours_back, max_points)[k].timestamp_ms
                <= history.last().timestamp_ms,
{
    let cutoff = cutoff_ms(history, hours_back);
    let r = sliced(history, hours_back, max_points);
    if max_points > 1 {
        lemma_leading_older_bound(history, cutoff);
        let start = leading_older(history, cutoff) as int;
        let window = window_of(history, hours_back);
        assert forall|j: int| 0 <= j < window.len() implies cutoff <= #[trigger] window[j].timestamp_ms
            <= history.last().timestamp_ms by {
            assert(window[j] == history[start + j]);
            assert(history[history.len() - 1] == history.last());
        }
        if window.len() <= max_points {
            assert(r == window);
        } else {
            let samples = stride_samples(window, max_points);
            lemma_dedup_subset(samples);
            assert forall|k: int| 0 <= k < r.len() implies cutoff <= #[trigger] r[k].timestamp_ms
                <= history.last().timestamp_ms by {
                let j = choose|j: int| 0 <= j < samples.len() && samples[j] == r[k];
                let w = window.len() as int;
                let x = sample_index(j, w, max_points);
                let c = if x < w - 1 {
                    x
                } else {
                    w - 1
                };
                lemma_sample_index_monotone(0, j, w, max_points);
                lemma_sample_index_ends(w, max_points);
                assert(samples[j] == window[c]);
            }
        }
    } else if max_points == 1 {
        assert(r[0] == history.last());
    }
}

/// Of a history whose timestamps strictly increase, a slice's timestamps
/// strictly increase too.
pub proof fn law_slice_strictly_ordered(history: Seq<MeasurementPoint>, hours_back: i64, max_points: int)
    requires
        max_points >= 0,
        strictly_time_ordered(history),
    ensures
        strictly_time_ordered(sliced(history, hours_back, max_points)),
{
    if history.len() > 0 && max_points > 1 {
        let cutoff = cutoff_ms(history, hours_back);
        lemma_leading_older_bound(history, cutoff);
        let start = leading_older(history, cutoff) as int;
        let window = window_of(history, hours_back);
        assert forall|i: int, j: int| 0 <= i < j < window.len() implies window[i].timestamp_ms
            < window[j].timestamp_ms by {
            assert(window[i] == history[start + i]);
            assert(window[j] == history[start + j]);
        }
        if window.len() > max_points {
            assert(time_ordered(window)) by {
                assert forall|i: int, j: int| 0 <= i <= j < window.len() implies window[i].timestamp_ms
                    <= window[j].timestamp_ms by {
                    if i < j {
                        assert(window[i] == history[start + i]);
                        assert(window[j] == history[start + j]);
                    }
                }
            }
            lemma_stride_ordered(window, max_points);
            lemma_dedup_strict(stride_samples(window, max_points));
        } else {
            assert(sliced(history, hours_back, max_points) == window);
        }
    }
}

} // verus!
