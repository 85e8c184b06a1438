//! The energy-based detector: frame segmentation, RMS energy, noise-floor
//! estimation, hysteresis classification and aggregation, all in exact
//! Q15 integer arithmetic.

use crate::vad::{ThresholdMode, VadConfig, VadError, VadResult, VoiceActivityDetector};
use vstd::prelude::*;
use vstd::relations::{sorted_by, total_ordering};
use vstd::seq_lib::group_to_multiset_ensures;
use vstd::seq_lib::lemma_sorted_unique;

verus! {

/// Samples per millisecond at the fixed 16 kHz rate.
pub const SAMPLES_PER_MS: usize = 16;

/// Lowest threshold the adaptive estimator may produce, so that a
/// uniformly silent buffer does not classify sensor noise as speech.
pub const NOISE_FLOOR_MIN_Q15: u64 = 100;

/// Highest threshold the adaptive estimator may produce (about 0.1 of
/// full scale): energy above this level is speech whatever the noise
/// floor, so a uniformly loud buffer cannot mask itself.
pub const ADAPTIVE_CAP_Q15: u64 = 3277;

/// Percentile of the per-frame energies used as the noise-floor baseline.
pub const BASELINE_PERCENTILE: usize = 15;

/// Sum of the squares of `s[from .. to]`.
pub open spec fn sum_sq(s: Seq<i16>, from: int, to: int) -> int
    decreases to - from,
{
    if to <= from {
        0
    } else {
        sum_sq(s, from, to - 1) + s[to - 1] * s[to - 1]
    }
}

proof fn lemma_sq_bound(x: i16)
    ensures
        0 <= x * x <= 0x4000_0000,
{
    assert(-0x8000 <= x <= 0x7fff ==> 0 <= x * x <= 0x4000_0000) by (nonlinear_arith);
}

proof fn lemma_sum_sq_bounds(s: Seq<i16>, from: int, to: int)
    requires
        0 <= from <= to <= s.len(),
    ensures
        0 <= sum_sq(s, from, to) <= (to - from) * 0x4000_0000,
    decreases to - from,
{
    if to <= from {
    } else {
        lemma_sum_sq_bounds(s, from, to - 1);
        lemma_sq_bound(s[to - 1]);
        assert((to - from - 1) * 0x4000_0000 + 0x4000_0000 == (to - from) * 0x4000_0000)
            by (nonlinear_arith);
    }
}

/// The integer square root: the largest `r` with `r * r <= x`.
pub open spec fn spec_isqrt(x: int) -> int
    decreases x,
{
    if x <= 0 {
        0
    } else {
        let r = spec_isqrt(x - 1);
        if (r + 1) * (r + 1) <= x {
            r + 1
        } else {
            r
        }
    }
}

proof fn lemma_isqrt_props(x: int)
    requires
        0 <= x,
    ensures
        0 <= spec_isqrt(x),
        spec_isqrt(x) * spec_isqrt(x) <= x,
        x < (spec_isqrt(x) + 1) * (spec_isqrt(x) + 1),
    decreases x,
{
    if x == 0 {
    } else {
        lemma_isqrt_props(x - 1);
        let r = spec_isqrt(x - 1);
        if (r + 1) * (r + 1) <= x {
            assert(x - 1 < (r + 1) * (r + 1));
            assert(x < (r + 2) * (r + 2)) by (nonlinear_arith)
                requires
                    x <= (r + 1) * (r + 1),
                    0 <= r,
            ;
        }
    }
}

proof fn lemma_isqrt_unique(x: int, r: int)
    requires
        0 <= x,
        0 <= r,
        r * r <= x,
        x < (r + 1) * (r + 1),
    ensures
        r == spec_isqrt(x),
{
    lemma_isqrt_props(x);
    let q = spec_isqrt(x);
    if q < r {
        assert((q + 1) * (q + 1) <= r * r) by (nonlinear_arith)
            requires
                0 <= q,
                q + 1 <= r,
        ;
    }
    if r < q {
        assert((r + 1) * (r + 1) <= q * q) by (nonlinear_arith)
            requires
                0 <= r,
                r + 1 <= q,
        ;
    }
}

proof fn lemma_isqrt_le_q15(x: int)
    requires
        0 <= x <= 0x4000_0000,
    ensures
        0 <= spec_isqrt(x) <= 32768,
{
    lemma_isqrt_props(x);
    if spec_isqrt(x) > 32768 {
        assert(32769 * 32769 <= spec_isqrt(x) * spec_isqrt(x)) by (nonlinear_arith)
            requires
                32769 <= spec_isqrt(x),
        ;
    }
}

/// Largest `r` with `r * r <= x`, for energies up to full scale squared.
fn isqrt(x: u64) -> (r: u64)
    requires
        x <= 0x4000_0000,
    ensures
        r == spec_isqrt(x as int),
        r <= 32768,
{
    let mut r: u64 = 0;
    loop
        invariant
            x <= 0x4000_0000,
            r <= 32768,
            r * r <= x,
        ensures
            r * r <= x < (r + 1) * (r + 1),
        decreases 32769 - r,
    {
        proof {
            assert((r + 1) * (r + 1) <= 32769 * 32769) by (nonlinear_arith)
                requires
                    r <= 32768,
            ;
        }
        let sq = (r + 1) * (r + 1);
        if sq > x {
            break ;
        }
        proof {
            assert((r + 1) * (r + 1) <= 0x4000_0000 ==> r + 1 <= 32768) by (nonlinear_arith);
        }
        r = r + 1;
    }
    proof {
        lemma_isqrt_unique(x as int, r as int);
    }
    r
}

/// Number of frames that cover `n` samples with frames of `fl` samples:
/// the last frame may be shorter than `fl`.
pub open spec fn spec_n_frames(n: int, fl: int) -> int {
    if n % fl == 0 {
        n / fl
    } else {
        n / fl + 1
    }
}

/// First sample past frame `i`: frames cover the buffer left to right
/// without gaps and the last frame is cut off at the end of the buffer.
pub open spec fn spec_frame_end(n: int, fl: int, i: int) -> int {
    if i * fl + fl <= n {
        i * fl + fl
    } else {
        n
    }
}

/// Every frame starts strictly inside the buffer and is nonempty.
pub proof fn lemma_frame_in_range(n: int, fl: int, i: int)
    requires
        1 <= fl,
        1 <= n,
        0 <= i < spec_n_frames(n, fl),
    ensures
        i * fl < n,
        i * fl < spec_frame_end(n, fl, i) <= n,
        spec_frame_end(n, fl, i) - i * fl <= fl,
{
    vstd::arithmetic::div_mod::lemma_fundamental_div_mod(n, fl);
    if n % fl == 0 {
        assert(i * fl <= (n / fl - 1) * fl) by (nonlinear_arith)
            requires
                i <= n / fl - 1,
                1 <= fl,
        ;
        assert((n / fl - 1) * fl == (n / fl) * fl - fl) by (nonlinear_arith);
    } else {
        assert(i * fl <= (n / fl) * fl) by (nonlinear_arith)
            requires
                i <= n / fl,
                1 <= fl,
        ;
    }
}

/// RMS energy of frame `i`, a Q15 magnitude in [0, 32768].
pub open spec fn spec_frame_energy(s: Seq<i16>, fl: int, i: int) -> int {
    let st = i * fl;
    let en = spec_frame_end(s.len() as int, fl, i);
    spec_isqrt(sum_sq(s, st, en) / (en - st))
}

/// Per-frame RMS energies of the whole buffer.
pub open spec fn spec_energies(s: Seq<i16>, fl: int) -> Seq<u64> {
    Seq::new(
        spec_n_frames(s.len() as int, fl) as nat,
        |i: int| spec_frame_energy(s, fl, i) as u64,
    )
}

proof fn lemma_frame_energy_in_range(s: Seq<i16>, fl: int, i: int)
    requires
        1 <= fl,
        1 <= s.len(),
        0 <= i < spec_n_frames(s.len() as int, fl),
    ensures
        0 <= spec_frame_energy(s, fl, i) <= 32768,
{
    let n = s.len() as int;
    let st = i * fl;
    let en = spec_frame_end(n, fl, i);
    lemma_frame_in_range(n, fl, i);
    lemma_sum_sq_bounds(s, st, en);
    lemma_mean_sq_bound(s, st, en);
    lemma_isqrt_le_q15(sum_sq(s, st, en) / (en - st));
}

/// The mean of the squares over a nonempty range is at most full scale
/// squared.
proof fn lemma_mean_sq_bound(s: Seq<i16>, from: int, to: int)
    requires
        0 <= from < to <= s.len(),
    ensures
        0 <= sum_sq(s, from, to) / (to - from) <= 0x4000_0000,
{
    let len = to - from;
    lemma_sum_sq_bounds(s, from, to);
    vstd::arithmetic::div_mod::lemma_div_is_ordered(sum_sq(s, from, to), len * 0x4000_0000, len);
    vstd::arithmetic::div_mod::lemma_div_multiples_vanish(0x4000_0000, len);
    vstd::arithmetic::div_mod::lemma_div_pos_is_pos(sum_sq(s, from, to), len);
}

/// Sum of squares of `samples[from .. to]`, exactly.
fn range_sum_sq(samples: &[i16], from: usize, to: usize) -> (r: u128)
    requires
        from <= to <= samples.len(),
    ensures
        r as int == sum_sq(samples@, from as int, to as int),
{
    let mut acc: u128 = 0;
    let mut j: usize = from;
    while j < to
        invariant
            from <= j <= to <= samples@.len(),
            acc as int == sum_sq(samples@, from as int, j as int),
            acc <= (j - from) * 0x4000_0000,
        decreases to - j,
    {
        proof {
            lemma_sq_bound(samples@[j as int]);
            assert((j - from) * 0x4000_0000 + 0x4000_0000 == (j + 1 - from) * 0x4000_0000)
                by (nonlinear_arith);
            assert((j + 1 - from) * 0x4000_0000 <= 0x1_0000_0000_0000_0000 * 0x4000_0000)
                by (nonlinear_arith)
                requires
                    j + 1 - from <= 0x1_0000_0000_0000_0000,
            ;
        }
        let v = samples[j] as i64;
        acc = acc + (v * v) as u128;
        j = j + 1;
    }
    acc
}

/// RMS energy of one frame: the square root of the mean of the squares,
/// normalized by the frame's actual sample count.
fn frame_energy(samples: &[i16], from: usize, to: usize) -> (r: u64)
    requires
        from < to <= samples.len(),
    ensures
        r as int == spec_isqrt(sum_sq(samples@, from as int, to as int) / (to - from) as int),
        r <= 32768,
{
    let sum = range_sum_sq(samples, from, to);
    let len = to - from;
    proof {
        lemma_mean_sq_bound(samples@, from as int, to as int);
    }
    let mean = (sum / (len as u128)) as u64;
    isqrt(mean)
}

/// Frame segmenter and energy calculator: slices the buffer into frames
/// of `fl` samples (the last frame keeps its shorter actual length) and
/// returns one RMS energy per frame.
fn frame_energies(samples: &[i16], fl: usize) -> (r: Vec<u64>)
    requires
        1 <= fl,
        1 <= samples.len(),
    ensures
        r@ == spec_energies(samples@, fl as int),
        forall|k: int| 0 <= k < r@.len() ==> #[trigger] r@[k] <= 32768,
{
    let n = samples.len();
    let n_frames = if n % fl == 0 {
        n / fl
    } else {
        proof {
            if fl == 1 {
                assert(n as int % (fl as int) == 0);
            }
            vstd::arithmetic::div_mod::lemma_div_is_strictly_smaller(n as int, fl as int);
        }
        n / fl + 1
    };
    let mut r: Vec<u64> = Vec::new();
    let mut i: usize = 0;
    while i < n_frames
        invariant
            1 <= fl,
            1 <= n,
            n == samples@.len(),
            n_frames == spec_n_frames(n as int, fl as int),
            0 <= i <= n_frames,
            r@.len() == i,
            forall|k: int|
                0 <= k < i ==> #[trigger] r@[k] == spec_frame_energy(
                    samples@,
                    fl as int,
                    k,
                ) as u64,
            forall|k: int| 0 <= k < i ==> #[trigger] r@[k] <= 32768,
        decreases n_frames - i,
    {
        proof {
            lemma_frame_in_range(n as int, fl as int, i as int);
            lemma_frame_energy_in_range(samples@, fl as int, i as int);
        }
        let st = i * fl;
        let en = if fl <= n - st {
            st + fl
        } else {
            n
        };
        let e = frame_energy(samples, st, en);
        r.push(e);
        i = i + 1;
    }
    proof {
        assert(r@ =~= spec_energies(samples@, fl as int));
    }
    r
}

/// Ascending order on energies, used to take a low percentile.
pub open spec fn energy_order() -> spec_fn(u64, u64) -> bool {
    |a: u64, b: u64| a <= b
}

proof fn lemma_energy_order_total()
    ensures
        total_ordering(energy_order()),
{
    assert(vstd::relations::reflexive(energy_order()));
    assert(vstd::relations::antisymmetric(energy_order()));
    assert(vstd::relations::transitive(energy_order()));
    assert(vstd::relations::strongly_connected(energy_order()));
}

/// Index of the noise-floor baseline in the sorted energies: the
/// `BASELINE_PERCENTILE`-th percentile, rounded down.
pub open spec fn spec_baseline_index(count: int) -> int {
    count * BASELINE_PERCENTILE as int / 100
}

proof fn lemma_baseline_index_in_range(count: int)
    requires
        1 <= count,
    ensures
        0 <= spec_baseline_index(count) < count,
{
    assert(count * 15 < 100 * count) by (nonlinear_arith)
        requires
            1 <= count,
    ;
    vstd::arithmetic::div_mod::lemma_multiply_divide_lt(count * 15, 100, count);
    vstd::arithmetic::div_mod::lemma_div_pos_is_pos(count * 15, 100);
    assert(0 <= count * 15) by (nonlinear_arith)
        requires
            1 <= count,
    ;
}

/// The noise-floor baseline: a low percentile of the per-frame energies,
/// which tracks ambient noise without being skewed by loud speech frames.
pub open spec fn spec_baseline(es: Seq<u64>) -> u64 {
    es.sort_by(energy_order())[spec_baseline_index(es.len() as int)]
}

/// Inserts `x` into an ascending vector, keeping it ascending.
fn insert_sorted(r: &mut Vec<u64>, x: u64)
    requires
        sorted_by(old(r)@, energy_order()),
    ensures
        sorted_by(final(r)@, energy_order()),
        final(r)@.to_multiset() == old(r)@.to_multiset().insert(x),
        final(r)@.len() == old(r)@.len() + 1,
{
    broadcast use group_to_multiset_ensures;

    let mut j: usize = 0;
    while j < r.len() && r[j] <= x
        invariant
            0 <= j <= r@.len(),
            *r == *old(r),
            forall|k: int| 0 <= k < j ==> energy_order()(#[trigger] r@[k], x),
        decreases r@.len() - j,
    {
        j = j + 1;
    }
    proof {
        old(r)@.insert_ensures(j as int, x);
    }
    let ghost prev = r@;
    let ghost pos = j as int;
    r.insert(j, x);
    proof {
        vstd::seq_lib::to_multiset_insert(prev, pos, x);
        vstd::seq_lib::to_multiset_len(prev.insert(pos, x));
        vstd::seq_lib::to_multiset_len(prev);
        assert(forall|i: int| 0 <= i < pos ==> #[trigger] r@[i] == prev[i]);
        assert(forall|i: int| pos <= i < prev.len() ==> #[trigger] r@[i + 1] == prev[i]);
        assert(r@[pos] == x);
        assert forall|a: int, b: int| 0 <= a < b < r@.len() implies energy_order()(
            r@[a],
            r@[b],
        ) by {
            if b < pos {
                assert(energy_order()(prev[a], prev[b]));
            } else if a < pos && b == pos {
                assert(energy_order()(prev[a], x));
            } else if a < pos && b > pos {
                assert(r@[b] == prev[b - 1]);
                if a < b - 1 {
                    assert(energy_order()(prev[a], prev[b - 1]));
                }
            } else if a == pos {
                assert(r@[b] == prev[b - 1]);
                assert(pos < prev.len());
                assert(!energy_order()(prev[pos], x));
                if pos < b - 1 {
                    assert(energy_order()(prev[pos], prev[b - 1]));
                }
            } else {
                assert(r@[a] == prev[a - 1] && r@[b] == prev[b - 1]);
                assert(energy_order()(prev[a - 1], prev[b - 1]));
            }
        }
    }
}

/// Sorts the energies ascending. The result is exactly the sorted
/// permutation that `Seq::sort_by` describes.
fn sort_energies(es: &Vec<u64>) -> (r: Vec<u64>)
    ensures
        r@ == es@.sort_by(energy_order()),
        r@.len() == es@.len(),
{
    broadcast use group_to_multiset_ensures;

    let mut r: Vec<u64> = Vec::new();
    let mut i: usize = 0;
    while i < es.len()
        invariant
            0 <= i <= es@.len(),
            sorted_by(r@, energy_order()),
            r@.to_multiset() == es@.subrange(0, i as int).to_multiset(),
            r@.len() == i,
        decreases es@.len() - i,
    {
        proof {
            assert(es@.subrange(0, i as int).push(es@[i as int]) =~= es@.subrange(
                0,
                i + 1 as int,
            ));
            vstd::seq_lib::to_multiset_build(es@.subrange(0, i as int), es@[i as int]);
        }
        insert_sorted(&mut r, es[i]);
        i = i + 1;
    }
    proof {
        assert(es@.subrange(0, es@.len() as int) =~= es@);
        lemma_energy_order_total();
        es@.lemma_sort_by_ensures(energy_order());
        lemma_sorted_unique(r@, es@.sort_by(energy_order()), energy_order());
    }
    r
}

/// The effective threshold for the call: the configured constant in
/// `Fixed` mode; in `Adaptive` mode the baseline scaled by the
/// configured multiplier, clamped between `NOISE_FLOOR_MIN_Q15` and
/// `ADAPTIVE_CAP_Q15`.
pub open spec fn spec_threshold(cfg: VadConfig, es: Seq<u64>) -> u64 {
    match cfg.threshold_mode {
        ThresholdMode::Fixed => cfg.fixed_threshold_q15 as u64,
        ThresholdMode::Adaptive => {
            let scaled = spec_baseline(es) as int * cfg.adaptive_multiplier_permille as int
                / 1000;
            if scaled < NOISE_FLOOR_MIN_Q15 as int {
                NOISE_FLOOR_MIN_Q15
            } else if scaled > ADAPTIVE_CAP_Q15 as int {
                ADAPTIVE_CAP_Q15
            } else {
                scaled as u64
            }
        },
    }
}

/// Noise floor estimator: derives the effective energy threshold for the
/// call from the configuration and the per-frame energies.
fn effective_threshold(cfg: &VadConfig, es: &Vec<u64>) -> (r: u64)
    requires
        cfg.valid(),
        1 <= es@.len(),
        forall|k: int| 0 <= k < es@.len() ==> #[trigger] es@[k] <= 32768,
    ensures
        r == spec_threshold(*cfg, es@),
{
    match cfg.threshold_mode {
        ThresholdMode::Fixed => cfg.fixed_threshold_q15 as u64,
        ThresholdMode::Adaptive => {
            let sorted = sort_energies(es);
            proof {
                lemma_baseline_index_in_range(es@.len() as int);
                lemma_energy_order_total();
                es@.lemma_sort_by_ensures(energy_order());
            }
            let count = sorted.len();
            let k = ((count as u128) * (BASELINE_PERCENTILE as u128) / 100) as usize;
            proof {
                assert(k as int == spec_baseline_index(count as int));
            }
            let baseline = sorted[k];
            proof {
                let s = es@.sort_by(energy_order());
                assert(es@.to_multiset().contains(s[k as int])) by {
                    broadcast use group_to_multiset_ensures;

                    assert(s.to_multiset().contains(s[k as int]));
                }
                broadcast use vstd::seq_lib::to_multiset_contains;

                assert(es@.contains(s[k as int]));
                assert(baseline <= 32768);
            }
            proof {
                assert(baseline as int * cfg.adaptive_multiplier_permille as int <= 32768
                    * 100000) by (nonlinear_arith)
                    requires
                        baseline <= 32768,
                        cfg.adaptive_multiplier_permille <= 100000,
                ;
            }
            let scaled = baseline * (cfg.adaptive_multiplier_permille as u64) / 1000;
            if scaled < NOISE_FLOOR_MIN_Q15 {
                NOISE_FLOOR_MIN_Q15
            } else if scaled > ADAPTIVE_CAP_Q15 {
                ADAPTIVE_CAP_Q15
            } else {
                scaled
            }
        },
    }
}

/// RMS energy of the whole buffer, a Q15 magnitude.
pub open spec fn spec_rms(s: Seq<i16>) -> u64 {
    spec_isqrt(sum_sq(s, 0, s.len() as int) / s.len() as int) as u64
}

/// Overall RMS energy across all samples, the representative loudness of
/// the buffer.
fn overall_rms(samples: &[i16]) -> (r: u64)
    requires
        1 <= samples.len(),
    ensures
        r == spec_rms(samples@),
        r <= 32768,
{
    proof {
        lemma_mean_sq_bound(samples@, 0, samples@.len() as int);
        lemma_isqrt_le_q15(
            sum_sq(samples@, 0, samples@.len() as int) / samples@.len() as int,
        );
    }
    frame_energy(samples, 0, samples.len())
}

/// One step of the two-state hysteresis machine, from state
/// `(in_speech, counter)` on a frame of energy `e`: the frame's speech
/// flag and the next state.
///
/// In silence, a frame above the threshold switches to speech at once
/// (fast attack). In speech, a frame above the threshold stays and
/// reloads the hangover counter; a frame at or below it stays in speech
/// while the counter lasts, and only a run of `hang + 1` quiet frames
/// falls back to silence.
pub open spec fn spec_classify_step(
    in_speech: bool,
    counter: nat,
    e: u64,
    thr: u64,
    hang: nat,
) -> (bool, bool, nat) {
    if e > thr {
        (true, true, hang)
    } else if in_speech && counter > 0 {
        (true, true, (counter - 1) as nat)
    } else {
        (false, false, 0)
    }
}

/// The classifier run over the first `k` frames, starting in silence:
/// the per-frame speech flags so far and the state after those frames.
pub open spec fn spec_classify_run(es: Seq<u64>, thr: u64, hang: nat, k: int) -> (
    Seq<bool>,
    bool,
    nat,
)
    decreases k,
{
    if k <= 0 {
        (Seq::empty(), false, 0 as nat)
    } else {
        let prior = spec_classify_run(es, thr, hang, k - 1);
        let step = spec_classify_step(prior.1, prior.2, es[k - 1], thr, hang);
        (prior.0.push(step.0), step.1, step.2)
    }
}

/// Per-frame speech flags for the whole buffer.
pub open spec fn spec_flags(es: Seq<u64>, thr: u64, hang: nat) -> Seq<bool> {
    spec_classify_run(es, thr, hang, es.len() as int).0
}

pub proof fn lemma_classify_run_len(es: Seq<u64>, thr: u64, hang: nat, k: int)
    requires
        0 <= k <= es.len(),
    ensures
        spec_classify_run(es, thr, hang, k).0.len() == k,
    decreases k,
{
    if k > 0 {
        lemma_classify_run_len(es, thr, hang, k - 1);
    }
}

/// Hysteresis classifier: one pass over the frame energies, producing a
/// speech flag per frame. `hang` is the hangover in frames.
fn classify_frames(es: &Vec<u64>, thr: u64, hang: u32) -> (r: Vec<bool>)
    ensures
        r@ == spec_flags(es@, thr, hang as nat),
        r@.len() == es@.len(),
{
    let mut flags: Vec<bool> = Vec::new();
    let mut in_speech: bool = false;
    let mut counter: u32 = 0;
    let mut i: usize = 0;
    while i < es.len()
        invariant
            0 <= i <= es@.len(),
            counter <= hang,
            flags@ == spec_classify_run(es@, thr, hang as nat, i as int).0,
            in_speech == spec_classify_run(es@, thr, hang as nat, i as int).1,
            counter as nat == spec_classify_run(es@, thr, hang as nat, i as int).2,
        decreases es@.len() - i,
    {
        let e = es[i];
        if e > thr {
            flags.push(true);
            in_speech = true;
            counter = hang;
        } else if in_speech && counter > 0 {
            flags.push(true);
            counter = counter - 1;
        } else {
            flags.push(false);
            in_speech = false;
            counter = 0;
        }
        i = i + 1;
    }
    proof {
        lemma_classify_run_len(es@, thr, hang as nat, es@.len() as int);
    }
    flags
}

/// Samples lying in speech-flagged frames among the first `k` frames of
/// a buffer of `n` samples cut into frames of `fl` samples.
pub open spec fn spec_speech_samples(n: int, fl: int, flags: Seq<bool>, k: int) -> int
    decreases k,
{
    if k <= 0 {
        0
    } else {
        spec_speech_samples(n, fl, flags, k - 1) + if flags[k - 1] {
            spec_frame_end(n, fl, k - 1) - (k - 1) * fl
        } else {
            0
        }
    }
}

/// The speech sample count never exceeds the samples covered so far,
/// and so never exceeds the buffer.
pub proof fn lemma_speech_samples_bounds(n: int, fl: int, flags: Seq<bool>, k: int)
    requires
        1 <= fl,
        1 <= n,
        0 <= k <= spec_n_frames(n, fl),
    ensures
        0 <= spec_speech_samples(n, fl, flags, k),
        spec_speech_samples(n, fl, flags, k) <= k * fl,
        spec_speech_samples(n, fl, flags, k) <= n,
    decreases k,
{
    if k > 0 {
        lemma_speech_samples_bounds(n, fl, flags, k - 1);
        lemma_frame_in_range(n, fl, k - 1);
        assert((k - 1) * fl + fl == k * fl) by (nonlinear_arith);
    }
}

/// Aggregator, first half: sums the actual sample counts of the frames
/// the classifier flagged as speech.
fn count_speech_samples(flags: &Vec<bool>, n: usize, fl: usize) -> (r: usize)
    requires
        1 <= fl,
        1 <= n,
        flags@.len() == spec_n_frames(n as int, fl as int),
    ensures
        r as int == spec_speech_samples(n as int, fl as int, flags@, flags@.len() as int),
        r <= n,
{
    let mut speech: usize = 0;
    let mut i: usize = 0;
    let n_frames = flags.len();
    while i < n_frames
        invariant
            1 <= fl,
            1 <= n,
            n_frames == flags@.len() == spec_n_frames(n as int, fl as int),
            0 <= i <= n_frames,
            speech as int == spec_speech_samples(n as int, fl as int, flags@, i as int),
            speech <= n,
        decreases n_frames - i,
    {
        proof {
            lemma_frame_in_range(n as int, fl as int, i as int);
            lemma_speech_samples_bounds(n as int, fl as int, flags@, i as int);
            lemma_speech_samples_bounds(n as int, fl as int, flags@, i + 1);
        }
        if flags[i] {
            let st = i * fl;
            let en = if fl <= n - st {
                st + fl
            } else {
                n
            };
            speech = speech + (en - st);
        }
        i = i + 1;
    }
    speech
}

/// The hangover converted to whole frames.
pub open spec fn spec_hangover_frames(cfg: VadConfig) -> nat {
    (cfg.hangover_ms / cfg.frame_duration_ms) as nat
}

/// Samples per frame.
pub open spec fn spec_frame_samples(cfg: VadConfig) -> int {
    cfg.frame_duration_ms * 16
}

/// The final decision: speech is present when the speech ratio reaches
/// `min_speech_ratio_permille`, or the absolute speech duration reaches
/// `min_speech_duration_ms`; either suffices, so that a short loud burst
/// in a long buffer and a lower but sustained presence both register.
pub open spec fn spec_has_speech(cfg: VadConfig, speech: int, total: int) -> bool {
    ||| 1000 * speech >= cfg.min_speech_ratio_permille * total
    ||| speech >= cfg.min_speech_duration_ms * 16
}

/// What one detection call computes on a nonempty buffer: frame
/// energies, an effective threshold, hysteresis-classified flags, and
/// the aggregated decision with its supporting metrics.
pub open spec fn spec_detect(s: Seq<i16>, cfg: VadConfig) -> VadResult {
    let n = s.len() as int;
    let fl = spec_frame_samples(cfg);
    let es = spec_energies(s, fl);
    let thr = spec_threshold(cfg, es);
    let flags = spec_flags(es, thr, spec_hangover_frames(cfg));
    let speech = spec_speech_samples(n, fl, flags, es.len() as int);
    VadResult {
        has_speech: spec_has_speech(cfg, speech, n),
        speech_samples: speech as usize,
        total_samples: s.len() as usize,
        rms_energy_q15: spec_rms(s),
    }
}

pub proof fn lemma_n_frames_pos(n: int, fl: int)
    requires
        1 <= n,
        1 <= fl,
    ensures
        1 <= spec_n_frames(n, fl),
{
    vstd::arithmetic::div_mod::lemma_fundamental_div_mod(n, fl);
    vstd::arithmetic::div_mod::lemma_div_pos_is_pos(n, fl);
    if n % fl == 0 && n / fl == 0 {
        assert(n == fl * (n / fl)) by (nonlinear_arith)
            requires
                n == fl * (n / fl) + n % fl,
                n % fl == 0,
        ;
        assert(n == 0) by (nonlinear_arith)
            requires
                n == fl * (n / fl),
                n / fl == 0,
        ;
    }
}

/// The energy-based voice activity detector.
///
/// A pure function of its configuration and the buffer it is given: the
/// same buffer and configuration always produce the same result, and no
/// state survives a call.
#[derive(Debug, Clone, Copy, PartialEq, Eq, Structural)]
pub struct EnergyVad {
    /// The configuration snapshot the detector was built from.
    pub config: VadConfig,
}

impl EnergyVad {
    /// Builds a detector, validating the configuration once here so that
    /// `detect` never has to reject it.
    pub fn new(config: &VadConfig) -> (r: Result<EnergyVad, VadError>)
        ensures
            config.valid() ==> (r matches Ok(v) && v.config == *config),
            !config.valid() ==> r == Err::<EnergyVad, VadError>(VadError::InvalidConfig),
    {
        if config.frame_duration_ms >= 1 && config.frame_duration_ms <= 1000
            && config.min_speech_ratio_permille >= 1 && config.min_speech_ratio_permille <= 1000
            && config.min_speech_duration_ms >= 1 && config.fixed_threshold_q15 <= 32768
            && config.adaptive_multiplier_permille >= 1000
            && config.adaptive_multiplier_permille <= 100000 {
            Ok(EnergyVad { config: *config })
        } else {
            Err(VadError::InvalidConfig)
        }
    }
}

impl VoiceActivityDetector for EnergyVad {
    open spec fn wf(&self) -> bool {
        self.config.valid()
    }

    open spec fn spec_detect(&self, samples: Seq<i16>) -> Result<VadResult, VadError> {
        if samples.len() == 0 {
            Err(VadError::EmptyInput)
        } else {
            Ok(spec_detect(samples, self.config))
        }
    }

    fn detect(&self, samples: &[i16]) -> (r: Result<VadResult, VadError>) {
        let n = samples.len();
        if n == 0 {
            return Err(VadError::EmptyInput);
        }
        let fl = (self.config.frame_duration_ms as usize) * SAMPLES_PER_MS;
        proof {
            lemma_n_frames_pos(n as int, fl as int);
        }
        let energies = frame_energies(samples, fl);
        let threshold = effective_threshold(&self.config, &energies);
        let hang = self.config.hangover_ms / self.config.frame_duration_ms;
        let flags = classify_frames(&energies, threshold, hang);
        let speech = count_speech_samples(&flags, n, fl);
        let rms = overall_rms(samples);
        proof {
            vstd::arithmetic::mul::lemma_mul_upper_bound(
                self.config.min_speech_ratio_permille as int,
                1000,
                n as int,
                u64::MAX as int,
            );
        }
        let ratio_reached = (speech as u128) * 1000 >= (
        self.config.min_speech_ratio_permille as u128) * (n as u128);
        let duration_reached = (speech as u128) >= (self.config.min_speech_duration_ms as u128)
            * 16;
        let result = VadResult {
            has_speech: ratio_reached || duration_reached,
            speech_samples: speech,
            total_samples: n,
            rms_energy_q15: rms,
        };
        proof {
            assert(result == spec_detect(samples@, self.config));
        }
        Ok(result)
    }
}

} // verus!
