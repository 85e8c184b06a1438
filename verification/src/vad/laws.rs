//! Laws the detector obeys, stated over the same spec functions that
//! `detect`'s contract uses, and proved once and for all.

use crate::vad::energy::{
    lemma_classify_run_len, lemma_frame_in_range, lemma_n_frames_pos,
    lemma_speech_samples_bounds, spec_classify_run, spec_detect, spec_energies, spec_flags,
    spec_frame_end, spec_frame_energy, spec_frame_samples, spec_hangover_frames, spec_isqrt,
    spec_n_frames, spec_speech_samples, sum_sq,
};
use crate::vad::{VadConfig, VadResult};
use vstd::prelude::*;

verus! {

proof fn lemma_sum_sq_zero(s: Seq<i16>, from: int, to: int)
    requires
        0 <= from <= to <= s.len(),
        forall|i: int| 0 <= i < s.len() ==> s[i] == 0,
    ensures
        sum_sq(s, from, to) == 0,
    decreases to - from,
{
    if to > from {
        lemma_sum_sq_zero(s, from, to - 1);
    }
}

proof fn lemma_quiet_run(es: Seq<u64>, thr: u64, hang: nat, k: int)
    requires
        0 <= k <= es.len(),
        forall|i: int| 0 <= i < es.len() ==> #[trigger] es[i] <= thr,
    ensures
        forall|i: int| 0 <= i < k ==> !(#[trigger] spec_classify_run(es, thr, hang, k).0[i]),
        !spec_classify_run(es, thr, hang, k).1,
        spec_classify_run(es, thr, hang, k).2 == 0,
    decreases k,
{
    lemma_classify_run_len(es, thr, hang, k);
    if k > 0 {
        lemma_quiet_run(es, thr, hang, k - 1);
        lemma_classify_run_len(es, thr, hang, k - 1);
    }
}

proof fn lemma_speech_samples_none(n: int, fl: int, flags: Seq<bool>, k: int)
    requires
        0 <= k,
        forall|i: int| 0 <= i < k ==> !(#[trigger] flags[i]),
    ensures
        spec_speech_samples(n, fl, flags, k) == 0,
    decreases k,
{
    if k > 0 {
        lemma_speech_samples_none(n, fl, flags, k - 1);
    }
}

/// An all-zero buffer of any length is pure silence: no speech, zero
/// speech duration (and so a zero speech ratio), and zero RMS energy.
pub proof fn lemma_silent_buffer_is_silence(s: Seq<i16>, cfg: VadConfig)
    requires
        cfg.valid(),
        1 <= s.len(),
        forall|i: int| 0 <= i < s.len() ==> s[i] == 0,
    ensures
        spec_detect(s, cfg) == (VadResult {
            has_speech: false,
            speech_samples: 0,
            total_samples: s.len() as usize,
            rms_energy_q15: 0,
        }),
{
    let n = s.len() as int;
    let fl = spec_frame_samples(cfg);
    let es = spec_energies(s, fl);
    let thr = crate::vad::energy::spec_threshold(cfg, es);
    let hang = spec_hangover_frames(cfg);
    assert forall|i: int| 0 <= i < es.len() implies #[trigger] es[i] <= thr by {
        lemma_frame_in_range(n, fl, i);
        lemma_sum_sq_zero(s, i * fl, spec_frame_end(n, fl, i));
        assert(spec_frame_energy(s, fl, i) == spec_isqrt(0));
    }
    lemma_quiet_run(es, thr, hang, es.len() as int);
    lemma_classify_run_len(es, thr, hang, es.len() as int);
    lemma_speech_samples_none(n, fl, spec_flags(es, thr, hang), es.len() as int);
    assert(1 * 1 <= cfg.min_speech_ratio_permille * n) by (nonlinear_arith)
        requires
            1 <= cfg.min_speech_ratio_permille,
            1 <= n,
    ;
    lemma_sum_sq_zero(s, 0, n);
    assert(spec_isqrt(0) == 0);
    assert(sum_sq(s, 0, n) / n == 0);
}

/// The speech duration never exceeds the buffer duration, so the speech
/// ratio `speech_samples / total_samples` always lies in [0, 1].
pub proof fn lemma_speech_ratio_bounded(s: Seq<i16>, cfg: VadConfig)
    requires
        cfg.valid(),
        1 <= s.len() <= usize::MAX,
    ensures
        spec_detect(s, cfg).speech_samples <= spec_detect(s, cfg).total_samples,
        spec_detect(s, cfg).total_samples == s.len(),
{
    let n = s.len() as int;
    let fl = spec_frame_samples(cfg);
    let es = spec_energies(s, fl);
    let thr = crate::vad::energy::spec_threshold(cfg, es);
    let hang = spec_hangover_frames(cfg);
    lemma_n_frames_pos(n, fl);
    lemma_speech_samples_bounds(n, fl, spec_flags(es, thr, hang), es.len() as int);
}

/// Raising `min_speech_ratio` while holding everything else fixed never
/// turns a silence decision into a speech decision: the classification and
/// the metrics do not depend on it, and the ratio test only gets
/// stricter.
pub proof fn lemma_raising_min_ratio_never_adds_speech(
    s: Seq<i16>,
    lenient: VadConfig,
    strict: VadConfig,
)
    requires
        lenient.valid(),
        strict.valid(),
        strict == (VadConfig { min_speech_ratio_permille: strict.min_speech_ratio_permille,
            ..lenient }),
        lenient.min_speech_ratio_permille <= strict.min_speech_ratio_permille,
        1 <= s.len(),
    ensures
        spec_detect(s, strict).has_speech ==> spec_detect(s, lenient).has_speech,
        spec_detect(s, strict).speech_samples == spec_detect(s, lenient).speech_samples,
        spec_detect(s, strict).rms_energy_q15 == spec_detect(s, lenient).rms_energy_q15,
{
    let n = s.len() as int;
    vstd::arithmetic::mul::lemma_mul_inequality(
        lenient.min_speech_ratio_permille as int,
        strict.min_speech_ratio_permille as int,
        n,
    );
}

/// Calling the detector twice on the same buffer with the same
/// configuration gives bit-identical results: every result equals
/// `spec_detect` of the buffer and configuration alone.
pub proof fn lemma_detect_deterministic(
    s: Seq<i16>,
    cfg: VadConfig,
    first: VadResult,
    second: VadResult,
)
    requires
        first == spec_detect(s, cfg),
        second == spec_detect(s, cfg),
    ensures
        first == second,
{
}

proof fn lemma_loud_run_with_dip(es: Seq<u64>, thr: u64, hang: nat, dip: int, k: int)
    requires
        1 <= hang,
        0 < dip < es.len(),
        forall|i: int| 0 <= i < es.len() && i != dip ==> #[trigger] es[i] > thr,
        1 <= k <= es.len(),
    ensures
        forall|i: int| 0 <= i < k ==> #[trigger] spec_classify_run(es, thr, hang, k).0[i],
        spec_classify_run(es, thr, hang, k).1,
        spec_classify_run(es, thr, hang, k).2 >= hang - 1,
        k - 1 != dip ==> spec_classify_run(es, thr, hang, k).2 == hang,
    decreases k,
{
    lemma_classify_run_len(es, thr, hang, k);
    if k == 1 {
        assert(es[0] > thr);
    } else {
        lemma_loud_run_with_dip(es, thr, hang, dip, k - 1);
        lemma_classify_run_len(es, thr, hang, k - 1);
    }
}

proof fn lemma_frames_cover(n: int, fl: int)
    requires
        1 <= fl,
        1 <= n,
    ensures
        spec_n_frames(n, fl) * fl >= n,
{
    vstd::arithmetic::div_mod::lemma_fundamental_div_mod(n, fl);
    if n % fl == 0 {
        assert((n / fl) * fl == fl * (n / fl)) by (nonlinear_arith);
    } else {
        assert((n / fl + 1) * fl == fl * (n / fl) + fl) by (nonlinear_arith);
    }
}

proof fn lemma_speech_samples_all(n: int, fl: int, flags: Seq<bool>, k: int)
    requires
        1 <= fl,
        1 <= n,
        0 <= k <= spec_n_frames(n, fl),
        forall|i: int| 0 <= i < k ==> #[trigger] flags[i],
    ensures
        spec_speech_samples(n, fl, flags, k) == if k == 0 {
            0int
        } else {
            spec_frame_end(n, fl, k - 1)
        },
    decreases k,
{
    if k > 0 {
        lemma_speech_samples_all(n, fl, flags, k - 1);
        lemma_frame_in_range(n, fl, k - 1);
        if k >= 2 {
            lemma_frame_in_range(n, fl, k - 2);
            assert((k - 2) * fl + fl == (k - 1) * fl) by (nonlinear_arith);
        }
    }
}

/// A single below-threshold frame in the middle of an otherwise loud
/// buffer does not split the speech region: with any hangover of at
/// least one frame, every frame is classified speech and the speech
/// duration is the whole buffer.
pub proof fn lemma_brief_dip_does_not_split(
    n: int,
    fl: int,
    es: Seq<u64>,
    thr: u64,
    hang: nat,
    dip: int,
)
    requires
        1 <= fl,
        1 <= n,
        es.len() == spec_n_frames(n, fl),
        1 <= hang,
        0 < dip < es.len(),
        forall|i: int| 0 <= i < es.len() && i != dip ==> #[trigger] es[i] > thr,
    ensures
        forall|i: int| 0 <= i < es.len() ==> #[trigger] spec_flags(es, thr, hang)[i],
        spec_speech_samples(n, fl, spec_flags(es, thr, hang), es.len() as int) == n,
{
    let k = es.len() as int;
    lemma_loud_run_with_dip(es, thr, hang, dip, k);
    lemma_classify_run_len(es, thr, hang, k);
    lemma_speech_samples_all(n, fl, spec_flags(es, thr, hang), k);
    lemma_frame_in_range(n, fl, k - 1);
    lemma_frames_cover(n, fl);
    assert((k - 1) * fl + fl == k * fl) by (nonlinear_arith);
}

} // verus!
