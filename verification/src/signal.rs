//! Algorithms on spectrum bins: percentiles, peaks, snapping to a carrier, peak hold.

use vstd::arithmetic::power2::*;
use vstd::prelude::*;

use crate::level;
use crate::level::Level;

verus! {

/// -119.0, above which a bin carries a signal at all.
pub const ACTIVE_BITS: u32 = 0xC2EE_0000;

/// -120.0, where peak hold starts.
pub const HOLD_START_BITS: u32 = 0xC2F0_0000;

/// Bins searched on either side of a click.
pub const SNAP_BINS: usize = 5;

/// Fewest bins between two marked peaks.
pub const MIN_PEAK_SPACING: usize = 2;

// ── Percentiles ─────────────────────────────────────────────────────────────

/// `slice::sort_unstable` on integers: the same items in ascending order.
#[verifier::external_body]
fn sort_keys(v: Vec<i64>) -> (r: Vec<i64>)
    ensures
        r@.to_multiset() == v@.to_multiset(),
        forall|i: int, j: int| 0 <= i <= j < r@.len() ==> r@[i] <= r@[j],
{
    let mut r = v;
    r.sort_unstable();
    r
}

/// How many bins have a rank below `r`.
pub open spec fn count_below(data: Seq<Level>, r: int) -> nat
    decreases data.len(),
{
    if data.len() == 0 {
        0
    } else {
        count_below(data.drop_last(), r) + if data.last().rank() < r {
            1nat
        } else {
            0
        }
    }
}

/// `x` stands at position `k` when the bins are put in ascending order.
pub open spec fn is_kth(data: Seq<Level>, k: int, x: Level) -> bool {
    count_below(data, x.rank()) <= k < count_below(data, x.rank() + 1)
}

/// The first bin of a rank.
fn bin_of_rank(data: &Vec<Level>, r: i64) -> (x: Level)
    requires
        exists|i: int| 0 <= i < data@.len() && (#[trigger] data@[i]).rank() == r,
    ensures
        x.rank() == r,
        data@.contains(x),
{
    let n: usize = data.len();
    let mut i: usize = 0;
    while data[i].key() != r
        invariant
            i < n == data@.len(),
            exists|j: int| i <= j < data@.len() && (#[trigger] data@[j]).rank() == r,
        decreases data@.len() - i,
    {
        i += 1;
    }
    data[i]
}

/// How many numbers are below `r`.
spec fn below_in(keys: Seq<i64>, r: int) -> nat
    decreases keys.len(),
{
    if keys.len() == 0 {
        0
    } else {
        below_in(keys.drop_last(), r) + if keys.last() < r {
            1nat
        } else {
            0
        }
    }
}

proof fn lemma_below_multiset(a: Seq<i64>, b: Seq<i64>, r: int)
    requires
        a.to_multiset() == b.to_multiset(),
    ensures
        below_in(a, r) == below_in(b, r),
    decreases a.len(),
{
    broadcast use vstd::seq_lib::group_to_multiset_ensures;

    assert(a.len() == b.len()) by {
        assert(a.to_multiset().len() == a.len());
        assert(b.to_multiset().len() == b.len());
    }
    if a.len() > 0 {
        let x = a.last();
        assert(a.contains(x)) by {
            assert(a[a.len() - 1] == x);
        }
        assert(a.to_multiset().count(x) > 0);
        assert(b.contains(x));
        let j = choose|j: int| 0 <= j < b.len() && b[j] == x;
        let b1 = b.remove(j);
        let a1 = a.drop_last();
        assert(a1 =~= a.remove(a.len() - 1));
        assert(a1.to_multiset() =~= a.to_multiset().remove(x));
        assert(b1.to_multiset() =~= b.to_multiset().remove(x));
        lemma_below_multiset(a1, b1, r);
        lemma_below_remove(b, j, r);
    }
}

proof fn lemma_below_remove(b: Seq<i64>, j: int, r: int)
    requires
        0 <= j < b.len(),
    ensures
        below_in(b, r) == below_in(b.remove(j), r) + if b[j] < r {
            1nat
        } else {
            0
        },
    decreases b.len(),
{
    if j == b.len() - 1 {
        assert(b.remove(j) =~= b.drop_last());
    } else {
        lemma_below_remove(b.drop_last(), j, r);
        assert(b.remove(j).drop_last() =~= b.drop_last().remove(j));
        assert(b.remove(j).last() == b.last());
    }
}

/// In ascending order, exactly the items before the first one not below `r` are below it.
proof fn lemma_below_sorted(keys: Seq<i64>, k: int, r: int)
    requires
        forall|i: int, j: int| 0 <= i <= j < keys.len() ==> keys[i] <= keys[j],
        0 <= k <= keys.len(),
    ensures
        (forall|i: int| k <= i < keys.len() ==> keys[i] >= r) ==> below_in(keys, r) <= k,
        (forall|i: int| 0 <= i < k ==> keys[i] < r) ==> below_in(keys, r) >= k,
    decreases keys.len(),
{
    if keys.len() > 0 {
        let rest = keys.drop_last();
        if k < keys.len() {
            lemma_below_sorted(rest, k, r);
            if forall|i: int| k <= i < keys.len() ==> keys[i] >= r {
                assert(forall|i: int| k <= i < rest.len() ==> rest[i] >= r);
                assert(keys.last() >= r);
            }
            if forall|i: int| 0 <= i < k ==> keys[i] < r {
                assert(forall|i: int| 0 <= i < k ==> rest[i] < r);
            }
        } else {
            lemma_below_sorted(rest, k - 1, r);
            if forall|i: int| 0 <= i < k ==> keys[i] < r {
                assert(forall|i: int| 0 <= i < k - 1 ==> rest[i] < r);
                assert(keys.last() < r);
            }
            lemma_below_at_most(keys, r);
        }
    }
}

proof fn lemma_below_at_most(keys: Seq<i64>, r: int)
    ensures
        below_in(keys, r) <= keys.len(),
    decreases keys.len(),
{
    if keys.len() > 0 {
        lemma_below_at_most(keys.drop_last(), r);
    }
}

proof fn lemma_counts_agree(data: Seq<Level>, keys: Seq<i64>, r: int)
    requires
        data.len() == keys.len(),
        forall|i: int| 0 <= i < data.len() ==> keys[i] == (#[trigger] data[i]).rank(),
    ensures
        below_in(keys, r) == count_below(data, r),
    decreases data.len(),
{
    if data.len() > 0 {
        lemma_counts_agree(data.drop_last(), keys.drop_last(), r);
        assert(keys.last() == data[data.len() - 1].rank());
    }
}

/// The bin at position `k` in ascending order.
pub fn kth(data: &Vec<Level>, k: usize) -> (x: Level)
    requires
        k < data@.len(),
    ensures
        is_kth(data@, k as int, x),
        data@.contains(x),
{
    let mut keys: Vec<i64> = Vec::new();
    let mut i: usize = 0;
    while i < data.len()
        invariant
            i <= data@.len(),
            keys@.len() == i,
            forall|j: int| 0 <= j < i ==> keys@[j] == (#[trigger] data@[j]).rank(),
        decreases data@.len() - i,
    {
        keys.push(data[i].key());
        i += 1;
    }
    let ghost unsorted = keys@;
    let sorted: Vec<i64> = sort_keys(keys);
    proof {
        broadcast use vstd::seq_lib::group_to_multiset_ensures;

        assert(sorted@.to_multiset().len() == sorted@.len());
        assert(unsorted.to_multiset().len() == unsorted.len());
    }
    let r: i64 = sorted[k];
    proof {
        broadcast use vstd::seq_lib::group_to_multiset_ensures;

        assert(sorted@.contains(r));
        assert(sorted@.to_multiset().count(r) > 0);
        assert(unsorted.contains(r));
        let j = choose|j: int| 0 <= j < unsorted.len() && unsorted[j] == r;
        assert(data@[j].rank() == r);
        lemma_below_multiset(sorted@, unsorted, r as int);
        lemma_below_multiset(sorted@, unsorted, r + 1);
        lemma_counts_agree(data@, unsorted, r as int);
        lemma_counts_agree(data@, unsorted, r + 1);
        lemma_below_sorted(sorted@, k as int, r as int);
        lemma_below_sorted(sorted@, k + 1, r + 1);
    }
    bin_of_rank(data, r)
}

/// A spectrum of `n` bins is long enough for the display range to follow it.
pub open spec fn has_range(n: nat) -> bool {
    n >= 10
}

/// `floor` and `ceil` are the bins of a spectrum by which the display range follows it.
pub open spec fn is_range_of(data: Seq<Level>, floor: Level, ceil: Level) -> bool {
    let n = data.len() as int;
    &&& n >= 10
    &&& is_kth(data, n / 10, floor)
    &&& is_kth(data, n * 99 / 100, ceil)
    &&& data.contains(floor)
    &&& data.contains(ceil)
}

/// `x` is the bin of a spectrum that counts as its noise floor.
pub open spec fn is_noise_floor(data: Seq<Level>, x: Level) -> bool {
    is_kth(data, data.len() as int / 5, x) && data.contains(x)
}

/// The bins by which the display range follows the signal: the one above a tenth of the others,
/// and the one above all but a hundredth. A spectrum of fewer than ten bins gives none.
pub fn range_samples(data: &Vec<Level>) -> (r: Option<(Level, Level)>)
    requires
        data@.len() * 99 <= usize::MAX,
    ensures
        match r {
            Some((floor, ceil)) => has_range(data@.len()) && is_range_of(data@, floor, ceil),
            None => !has_range(data@.len()),
        },
{
    let n: usize = data.len();
    if n < 10 {
        return None;
    }
    Some((kth(data, n / 10), kth(data, n * 99 / 100)))
}

/// The noise floor by which peaks are told: the bin above a fifth of the others.
pub fn noise_floor(data: &Vec<Level>) -> (x: Level)
    requires
        data@.len() > 0,
    ensures
        is_noise_floor(data@, x),
{
    kth(data, data.len() / 5)
}

// ── Snapping to a carrier ───────────────────────────────────────────────────

/// The strongest of the bins `lo` to `hi`, starting from `best`: a bin takes over when it is
/// stronger than the strongest one so far.
pub open spec fn strongest(data: Seq<Level>, best: int, lo: int, hi: int) -> int
    decreases hi + 1 - lo,
{
    if lo > hi {
        best
    } else {
        strongest(
            data,
            if data[best].below(data[lo]) {
                lo
            } else {
                best
            },
            lo + 1,
            hi,
        )
    }
}

/// First bin of the window around `raw`.
pub open spec fn window_lo(raw: int) -> int {
    if raw < SNAP_BINS {
        0
    } else {
        raw - SNAP_BINS
    }
}

/// Last bin of the window around `raw`.
pub open spec fn window_hi(raw: int, n: int) -> int {
    if raw + SNAP_BINS < n - 1 {
        raw + SNAP_BINS
    } else {
        n - 1
    }
}

/// Where a click on bin `raw` snaps to: the strongest bin of the window, when it is above `limit`.
pub open spec fn snapped(data: Seq<Level>, raw: int, limit: Level) -> Option<usize> {
    let peak = strongest(data, raw, window_lo(raw), window_hi(raw, data.len() as int));
    if limit.below(data[peak]) {
        Some(peak as usize)
    } else {
        None
    }
}

/// Bin `p` lies at most five bins from `raw`, and no bin that does is stronger. Of equally strong
/// bins it is `raw` itself, or else the leftmost.
pub open spec fn is_strongest_near(data: Seq<Level>, raw: int, p: int) -> bool {
    &&& 0 <= p < data.len()
    &&& raw - 5 <= p <= raw + 5
    &&& forall|j: int|
        0 <= j < data.len() && raw - 5 <= j <= raw + 5 ==> !data[p].below(#[trigger] data[j])
    &&& p != raw ==> data[raw].below(data[p])
    &&& p != raw ==> forall|j: int|
        0 <= j < p && raw - 5 <= j ==> (#[trigger] data[j]).below(data[p])
}

/// The bin that a click snaps to, if any: the strongest within five bins, when it is above
/// `limit` (3 dB over the clicked bin).
pub fn snap_bin(data: &Vec<Level>, raw: usize, limit: Level) -> (r: Option<usize>)
    requires
        raw < data@.len(),
    ensures
        ({
            let n = data@.len() as int;
            let peak = strongest(data@, raw as int, window_lo(raw as int), window_hi(raw as int, n));
            r == (if limit.below(data@[peak]) {
                Some(peak as usize)
            } else {
                None
            })
        }),
        r is Some ==> r->0 < data@.len(),
        r == snapped(data@, raw as int, limit),
        (forall|i: int| 0 <= i < data@.len() ==> !(#[trigger] data@[i]).is_nan()) ==> match r {
            Some(p) => limit.below(data@[p as int]) && is_strongest_near(
                data@,
                raw as int,
                p as int,
            ),
            None => forall|j: int|
                0 <= j < data@.len() && raw - 5 <= j <= raw + 5 ==> !limit.below(
                    #[trigger] data@[j],
                ),
        },
{
    let n: usize = data.len();
    proof {
        if forall|i: int| 0 <= i < data@.len() ==> !(#[trigger] data@[i]).is_nan() {
            law_click_snaps_to_strongest(data@, raw as int, limit);
        }
    }
    let lo: usize = if raw < SNAP_BINS {
        0
    } else {
        raw - SNAP_BINS
    };
    let hi: usize = if n - 1 - raw > SNAP_BINS {
        raw + SNAP_BINS
    } else {
        n - 1
    };
    let mut best: usize = raw;
    let mut b: usize = lo;
    while b <= hi
        invariant
            n == data@.len(),
            best < n,
            hi < n,
            lo <= b <= hi + 1,
            strongest(data@, raw as int, lo as int, hi as int) == strongest(
                data@,
                best as int,
                b as int,
                hi as int,
            ),
        decreases hi + 1 - b,
    {
        if data[best].lt(data[b]) {
            best = b;
        }
        b += 1;
    }
    if limit.lt(data[best]) {
        Some(best)
    } else {
        None
    }
}

/// Among bins that are numbers, no bin of the window is stronger than the strongest, and the
/// clicked bin itself stays when nothing is stronger than it.
pub proof fn law_strongest_is_maximal(data: Seq<Level>, best: int, lo: int, hi: int)
    requires
        0 <= best < data.len(),
        0 <= lo,
        hi < data.len(),
        forall|i: int| 0 <= i < data.len() ==> !(#[trigger] data[i]).is_nan(),
    ensures
        ({
            let p = strongest(data, best, lo, hi);
            &&& p == best || lo <= p <= hi
            &&& !data[p].below(data[best])
            &&& forall|i: int| lo <= i <= hi ==> !data[p].below(#[trigger] data[i])
            &&& (forall|i: int| lo <= i <= hi ==> !data[best].below(#[trigger] data[i])) ==> p
                == best
        }),
    decreases hi + 1 - lo,
{
    if lo <= hi {
        let next = if data[best].below(data[lo]) {
            lo
        } else {
            best
        };
        law_strongest_is_maximal(data, next, lo + 1, hi);
        let p = strongest(data, next, lo + 1, hi);
        assert(!data[next].is_nan() && !data[best].is_nan() && !data[lo].is_nan());
        assert(!data[p].is_nan());
        assert forall|i: int| lo <= i <= hi implies !data[p].below(#[trigger] data[i]) by {
            if i == lo {
                assert(!data[p].below(data[next]));
            }
        }
    }
}

/// A click finds the strongest carrier within five bins on either side, whenever one of them is
/// above the limit, and nothing else: among bins that are numbers, the bin found is above the limit
/// and no bin within five is stronger; none is found exactly when no bin within five is above it.
pub proof fn law_click_snaps_to_strongest(data: Seq<Level>, raw: int, limit: Level)
    requires
        0 <= raw < data.len() <= usize::MAX,
        forall|i: int| 0 <= i < data.len() ==> !(#[trigger] data[i]).is_nan(),
    ensures
        match snapped(data, raw, limit) {
            Some(p) => limit.below(data[p as int]) && is_strongest_near(data, raw, p as int),
            None => forall|j: int|
                0 <= j < data.len() && raw - 5 <= j <= raw + 5 ==> !limit.below(
                    #[trigger] data[j],
                ),
        },
        (exists|j: int|
            0 <= j < data.len() && raw - 5 <= j <= raw + 5 && limit.below(#[trigger] data[j]))
            ==> snapped(data, raw, limit) is Some,
{
    let lo = window_lo(raw);
    let hi = window_hi(raw, data.len() as int);
    let p = strongest(data, raw, lo, hi);
    law_strongest_is_maximal(data, raw, lo, hi);
    lemma_strongest_is_leftmost(data, raw, lo, hi);
    assert forall|j: int| 0 <= j < data.len() && raw - 5 <= j <= raw + 5 implies !data[p].below(
        #[trigger] data[j],
    ) by {
        assert(lo <= j <= hi);
    }
    if !limit.below(data[p]) {
        assert forall|j: int|
            0 <= j < data.len() && raw - 5 <= j <= raw + 5 implies !limit.below(
            #[trigger] data[j],
        ) by {
            assert(!data[p].is_nan());
        }
    }
}

/// A bin that takes over is stronger than the first one and than all bins before it.
proof fn lemma_strongest_is_leftmost(data: Seq<Level>, best: int, lo: int, hi: int)
    requires
        0 <= best < data.len(),
        0 <= lo,
        hi < data.len(),
        forall|i: int| 0 <= i < data.len() ==> !(#[trigger] data[i]).is_nan(),
    ensures
        ({
            let p = strongest(data, best, lo, hi);
            p != best ==> {
                &&& data[best].below(data[p])
                &&& forall|j: int| lo <= j < p ==> (#[trigger] data[j]).below(data[p])
            }
        }),
    decreases hi + 1 - lo,
{
    if lo <= hi {
        let next = if data[best].below(data[lo]) {
            lo
        } else {
            best
        };
        lemma_strongest_is_leftmost(data, next, lo + 1, hi);
        law_strongest_is_maximal(data, next, lo + 1, hi);
        let p = strongest(data, next, lo + 1, hi);
        assert(!data[next].is_nan() && !data[best].is_nan() && !data[lo].is_nan());
        assert(!data[p].is_nan());
    }
}

// ── Peak markers ────────────────────────────────────────────────────────────

/// Bin `i` is stronger than both its neighbours and than the threshold.
pub open spec fn stands_out(data: Seq<Level>, threshold: Level, i: int) -> bool {
    &&& 1 <= i < data.len() - 1
    &&& threshold.below(data[i])
    &&& data[i - 1].below(data[i])
    &&& data[i + 1].below(data[i])
}

/// The marked bins below `limit`: in ascending order, each a local maximum above the
/// threshold, and every such bin marked that keeps its distance from the marked ones before it.
pub open spec fn are_peaks(
    peaks: Seq<usize>,
    data: Seq<Level>,
    threshold: Level,
    spacing: int,
    limit: int,
) -> bool {
    &&& forall|k: int|
        0 <= k < peaks.len() ==> (#[trigger] peaks[k]) < limit && stands_out(
            data,
            threshold,
            peaks[k] as int,
        )
    &&& forall|k: int, m: int|
        0 <= k < m < peaks.len() ==> (#[trigger] peaks[k]) + spacing <= (#[trigger] peaks[m])
    &&& forall|i: int|
        i < limit && stands_out(data, threshold, i) ==> #[trigger] has_peak_near(peaks, spacing, i)
}

/// A marked bin lies at `i` or less than `spacing` before it.
pub open spec fn has_peak_near(peaks: Seq<usize>, spacing: int, i: int) -> bool {
    exists|k: int| 0 <= k < peaks.len() && i - spacing < (#[trigger] peaks[k]) <= i
}

/// Fewest bins between two peaks of a spectrum of `n` bins.
pub open spec fn spacing_of(n: int) -> int {
    if n / 32 < MIN_PEAK_SPACING {
        MIN_PEAK_SPACING as int
    } else {
        n / 32
    }
}

/// Marks the peaks of a spectrum.
pub fn detect_peaks(data: &Vec<Level>, threshold: Level) -> (peaks: Vec<usize>)
    requires
        data@.len() > 2,
    ensures
        are_peaks(
            peaks@,
            data@,
            threshold,
            spacing_of(data@.len() as int),
            data@.len() as int,
        ),
{
    let n: usize = data.len();
    let spacing: usize = if n / 32 < MIN_PEAK_SPACING {
        MIN_PEAK_SPACING
    } else {
        n / 32
    };
    let mut peaks: Vec<usize> = Vec::new();
    let mut i: usize = 1;
    while i < n - 1
        invariant
            n == data@.len(),
            n > 2,
            1 <= i <= n - 1,
            spacing == spacing_of(n as int),
            are_peaks(peaks@, data@, threshold, spacing as int, i as int),
        decreases n - i,
    {
        let ghost before = peaks@;
        if threshold.lt(data[i]) && data[i - 1].lt(data[i]) && data[i + 1].lt(data[i]) {
            let free: bool = if peaks.len() == 0 {
                true
            } else {
                i - peaks[peaks.len() - 1] >= spacing
            };
            if free {
                peaks.push(i);
            }
        }
        proof {
            assert forall|x: int|
                x < i + 1 && stands_out(data@, threshold, x) implies #[trigger] has_peak_near(
                peaks@,
                spacing as int,
                x,
            ) by {
                if x < i {
                    assert(has_peak_near(before, spacing as int, x));
                    let k = choose|k: int|
                        0 <= k < before.len() && x - spacing < (#[trigger] before[k]) <= x;
                    assert(peaks@[k] == before[k]);
                } else {
                    assert(peaks@.len() > 0);
                    assert(x - spacing < peaks@[peaks@.len() - 1] <= x);
                }
            }
        }
        i += 1;
    }
    peaks
}

// ── Peak hold ───────────────────────────────────────────────────────────────

/// The held level of a bin: a stronger one takes over, otherwise the held one decays; without
/// peak hold it is the bin itself.
pub open spec fn held(hold: Level, now: Level, decayed: Level, enabled: bool) -> Level {
    if !enabled || hold.below(now) {
        now
    } else {
        decayed
    }
}

/// Carries the held levels on by one frame. `decayed` is `hold` lowered by the decay.
pub fn update_peak_hold(
    hold: &Vec<Level>,
    now: &Vec<Level>,
    decayed: &Vec<Level>,
    enabled: bool,
) -> (r: Vec<Level>)
    requires
        hold@.len() == now@.len(),
        decayed@.len() == now@.len(),
    ensures
        r@ == Seq::new(
            now@.len(),
            |i: int| held(hold@[i], now@[i], decayed@[i], enabled),
        ),
{
    let mut r: Vec<Level> = Vec::new();
    let mut i: usize = 0;
    while i < now.len()
        invariant
            i <= now@.len(),
            hold@.len() == now@.len(),
            decayed@.len() == now@.len(),
            r@.len() == i,
            forall|j: int|
                0 <= j < i ==> #[trigger] r@[j] == held(hold@[j], now@[j], decayed@[j], enabled),
        decreases now@.len() - i,
    {
        if !enabled || hold[i].lt(now[i]) {
            r.push(now[i]);
        } else {
            r.push(decayed[i]);
        }
        i += 1;
    }
    r
}

/// The held levels when the number of bins changes.
pub fn fresh_peak_hold(n: usize) -> (r: Vec<Level>)
    ensures
        r@.len() == n,
        forall|i: int| 0 <= i < n ==> #[trigger] r@[i] == hold_start(),
{
    let mut r: Vec<Level> = Vec::new();
    let mut i: usize = 0;
    while i < n
        invariant
            i <= n,
            r@.len() == i,
            forall|j: int| 0 <= j < i ==> #[trigger] r@[j] == level::of(HOLD_START_BITS),
        decreases n - i,
    {
        r.push(level::of(HOLD_START_BITS));
        i += 1;
    }
    r
}

/// Some bin carries a signal.
pub open spec fn is_active(data: Seq<Level>) -> bool {
    exists|i: int| 0 <= i < data.len() && level::of(ACTIVE_BITS).below(#[trigger] data[i])
}

/// The level that peak hold starts from.
pub open spec fn hold_start() -> Level {
    level::of(HOLD_START_BITS)
}

/// Whether any bin carries a signal.
pub fn any_active(data: &Vec<Level>) -> (r: bool)
    ensures
        r == is_active(data@),
{
    let mut i: usize = 0;
    while i < data.len()
        invariant
            i <= data@.len(),
            forall|j: int| 0 <= j < i ==> !level::of(ACTIVE_BITS).below(#[trigger] data@[j]),
        decreases data@.len() - i,
    {
        if level::of(ACTIVE_BITS).lt(data[i]) {
            return true;
        }
        i += 1;
    }
    false
}

/// Any two marked peaks keep their distance, so a spectrum of `n` bins has at most
/// `n / spacing + 1` of them.
pub proof fn law_peaks_are_few(
    peaks: Seq<usize>,
    data: Seq<Level>,
    threshold: Level,
    spacing: int,
)
    requires
        spacing >= 1,
        are_peaks(peaks, data, threshold, spacing, data.len() as int),
    ensures
        peaks.len() > 0 ==> (peaks.len() - 1) * spacing < data.len(),
{
    if peaks.len() > 0 {
        lemma_spaced(peaks, spacing, peaks.len() - 1);
        assert(peaks[peaks.len() - 1] < data.len());
    }
}

proof fn lemma_spaced(peaks: Seq<usize>, spacing: int, m: int)
    requires
        spacing >= 1,
        0 <= m < peaks.len(),
        forall|k: int, j: int|
            0 <= k < j < peaks.len() ==> (#[trigger] peaks[k]) + spacing <= (#[trigger] peaks[j]),
    ensures
        peaks[m] >= m * spacing,
    decreases m,
{
    if m > 0 {
        lemma_spaced(peaks, spacing, m - 1);
        assert(peaks[m - 1] + spacing <= peaks[m]);
        assert(m * spacing == (m - 1) * spacing + spacing) by (nonlinear_arith);
    } else {
        assert(m * spacing == 0) by (nonlinear_arith)
            requires
                m == 0,
        ;
    }
}

// ── Laws ────────────────────────────────────────────────────────────────────

/// The range follows two bins of the spectrum: of all bins at most a tenth are below the one for the
/// floor and more than a tenth are not above it; at most 99 hundredths are below the one for the
/// ceiling and more than 99 hundredths are not above it.
pub proof fn law_range_percentiles(data: Seq<Level>, floor: Level, ceil: Level)
    requires
        is_range_of(data, floor, ceil),
    ensures
        data.contains(floor) && data.contains(ceil),
        10 * count_below(data, floor.rank()) <= data.len(),
        10 * count_below(data, floor.rank() + 1) > data.len(),
        100 * count_below(data, ceil.rank()) <= 99 * data.len(),
        100 * count_below(data, ceil.rank() + 1) > 99 * data.len(),
        floor.rank() <= ceil.rank(),
{
    if floor.rank() > ceil.rank() {
        lemma_count_grows(data, ceil.rank() + 1, floor.rank());
    }
}

/// The noise floor is above at most a fifth of the bins, and with the bins equal to it above more
/// than a fifth.
pub proof fn law_noise_percentile(data: Seq<Level>, x: Level)
    requires
        is_noise_floor(data, x),
    ensures
        data.contains(x),
        5 * count_below(data, x.rank()) <= data.len(),
        5 * count_below(data, x.rank() + 1) > data.len(),
{
}

proof fn lemma_count_grows(data: Seq<Level>, r: int, s: int)
    requires
        r <= s,
    ensures
        count_below(data, r) <= count_below(data, s),
    decreases data.len(),
{
    if data.len() > 0 {
        lemma_count_grows(data.drop_last(), r, s);
    }
}

/// Counting the bins below a rank: one more bin counts when its rank is lower, and a bin is below
/// another as a number exactly when its rank is.
pub proof fn law_count_below(data: Seq<Level>, x: Level, r: Level)
    requires
        !x.is_nan(),
        !r.is_nan(),
    ensures
        count_below(data.push(x), r.rank()) == count_below(data, r.rank()) + (if level::number_of(
            x.bits,
        ) < level::number_of(r.bits) {
            1int
        } else {
            0
        }),
        count_below(Seq::empty(), r.rank()) == 0,
{
    assert(data.push(x).drop_last() =~= data);
    level::law_order_is_numeric(x, r);
}

/// Marked peaks are above the threshold and above the bins on both sides; two of them are at least
/// two bins apart, and a 32nd of the spectrum; and a bin that is above the threshold and its
/// neighbours is left out only for a marked one so close before it.
pub proof fn law_peaks_stand_out(peaks: Seq<usize>, data: Seq<Level>, threshold: Level, i: int)
    requires
        are_peaks(peaks, data, threshold, spacing_of(data.len() as int), data.len() as int),
    ensures
        forall|k: int|
            0 <= k < peaks.len() ==> {
                let p = (#[trigger] peaks[k]) as int;
                &&& 0 < p < data.len() - 1
                &&& threshold.below(data[p])
                &&& data[p - 1].below(data[p])
                &&& data[p + 1].below(data[p])
            },
        forall|k: int, m: int|
            0 <= k < m < peaks.len() ==> (#[trigger] peaks[m]) - (#[trigger] peaks[k]) >= 2
                && peaks[m] - peaks[k] >= data.len() / 32,
        0 < i < data.len() - 1 && threshold.below(data[i]) && data[i - 1].below(data[i]) && data[i
            + 1].below(data[i]) ==> exists|k: int|
            0 <= k < peaks.len() && (#[trigger] peaks[k]) <= i && (i - peaks[k] < 2 || i - peaks[k]
                < data.len() / 32),
{
    let spacing = spacing_of(data.len() as int);
    assert(spacing >= 2 && spacing >= data.len() / 32);
    if 0 < i < data.len() - 1 && threshold.below(data[i]) && data[i - 1].below(data[i]) && data[i
        + 1].below(data[i]) {
        assert(stands_out(data, threshold, i));
        assert(has_peak_near(peaks, spacing, i));
        let k = choose|k: int| 0 <= k < peaks.len() && i - spacing < (#[trigger] peaks[k]) <= i;
        assert(peaks[k] <= i);
    }
}

/// Peak hold shows the stronger of what is held and what is received: a stronger bin takes over at
/// once, a weaker one lets the held level decay. Without it the bin itself is shown.
pub proof fn law_peak_hold(hold: Level, now: Level, decayed: Level)
    requires
        !hold.is_nan(),
        !now.is_nan(),
    ensures
        held(hold, now, decayed, false) == now,
        level::number_of(now.bits) > level::number_of(hold.bits) ==> held(hold, now, decayed, true)
            == now,
        level::number_of(now.bits) <= level::number_of(hold.bits) ==> held(hold, now, decayed, true)
            == decayed,
{
    level::law_order_is_numeric(hold, now);
}

/// Peak hold starts at -120 dBFS, below which no bin is held; a spectrum carries a signal when some
/// bin is above -119 dBFS.
pub proof fn law_silence(data: Seq<Level>, i: int)
    requires
        0 <= i < data.len(),
        !data[i].is_nan(),
    ensures
        level::number_of(hold_start().bits) == level::whole(-120),
        level::number_of(data[i].bits) > level::whole(-119) ==> is_active(data),
        (forall|k: int|
            0 <= k < data.len() ==> (#[trigger] data[k]).is_nan() || level::number_of(data[k].bits)
                <= level::whole(-119)) ==> !is_active(data),
{
    lemma2_to64();
    level::lemma_whole(0xC2F0_0000, -120, 17);
    level::lemma_whole(0xC2EE_0000, -119, 17);
    assert forall|k: int| 0 <= k < data.len() implies level::of(0xC2EE_0000).below(
        #[trigger] data[k],
    ) == (!data[k].is_nan() && level::number_of(data[k].bits) > level::whole(-119)) by {
        level::law_order_is_numeric(level::of(0xC2EE_0000), data[k]);
    }
}

/// The display range follows spectra of ten bins or more.
pub proof fn law_ten_bins_make_a_range(n: nat)
    ensures
        has_range(n) <==> n > 9,
{
}

} // verus!
