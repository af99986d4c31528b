//! Audio post-processing: fades and silence trimming.
//!
//! Audio here is integer PCM: a sample is a signed value bounded by
//! [`AUDIO_SCALE`], standing for the model's unit-range output (the
//! application crate scales the engine's floating-point samples to this
//! range and back).  Working on integers lets every step — framing, the
//! energy envelope, the threshold comparisons, the gating arithmetic and
//! the fade shaping — be exact and verified; the threshold tests compare
//! rational energies by cross-multiplication instead of taking roots.
//!
//! The facade's alternative policy, a fixed strip of leading and trailing
//! samples, never touches sample values and so runs on opaque 32-bit
//! words, preserving them bit for bit.

use vstd::prelude::*;

verus! {

/// Magnitude bound of an integer sample: this value stands for 1.0.
pub const AUDIO_SCALE: i32 = 32768;

/// The facade's choice of trim after inference: the adaptive RMS trimmer
/// of [`trim_silence`], or the fixed strip of [`fixed_trim`].
#[derive(Clone, Copy, Debug, PartialEq, Eq, Structural)]
pub enum TrimPolicy {
    Adaptive,
    Fixed,
}

/// Most samples a signal handed to the trimmer may have.
pub const MAX_SAMPLES: usize = 0x10000000;

/// Truncating scaling: `x * n / d` with the division rounded toward
/// zero, as integer division does.
pub open spec fn trunc_scale(x: int, n: int, d: int) -> int {
    if x >= 0 {
        (x * n) / d
    } else {
        -(((-x) * n) / d)
    }
}

/// One sample of the faded signal: the linear fade-in gain `i / fade_in`
/// over the first `fade_in` samples, then the fade-out gain `d / fade_out`
/// over the last `fade_out`, where `d` is the distance from the end; both
/// gains apply where the ranges overlap.
pub open spec fn faded_sample(s: Seq<i32>, i: int, fade_in: int, fade_out: int) -> int {
    let v1 = if i < fade_in {
        trunc_scale(s[i] as int, i, fade_in)
    } else {
        s[i] as int
    };
    let d = s.len() - 1 - i;
    if d < fade_out {
        trunc_scale(v1, d, fade_out)
    } else {
        v1
    }
}

/// The faded signal.
pub open spec fn fade_spec(s: Seq<i32>, fade_in: int, fade_out: int) -> Seq<int> {
    Seq::new(s.len(), |i: int| faded_sample(s, i, fade_in, fade_out))
}

/// Truncating toward zero never grows a magnitude when the gain is at
/// most one.
pub proof fn lemma_trunc_scale_bound(x: int, n: int, d: int)
    requires
        0 <= n <= d,
        0 < d,
    ensures
        x >= 0 ==> 0 <= trunc_scale(x, n, d) <= x,
        x < 0 ==> x <= trunc_scale(x, n, d) <= 0,
{
    if x >= 0 {
        assert(x * n <= x * d) by (nonlinear_arith)
            requires 0 <= n <= d && 0 <= x;
        assert((x * n) / d <= (x * d) / d) by (nonlinear_arith)
            requires x * n <= x * d && 0 < d;
        assert((x * d) / d == x) by (nonlinear_arith)
            requires 0 < d;
        assert((x * n) / d >= 0) by (nonlinear_arith)
            requires x >= 0 && n >= 0 && d > 0;
    } else {
        let y = -x;
        assert(y * n <= y * d) by (nonlinear_arith)
            requires 0 <= n <= d && 0 <= y;
        assert((y * n) / d <= (y * d) / d) by (nonlinear_arith)
            requires y * n <= y * d && 0 < d;
        assert((y * d) / d == y) by (nonlinear_arith)
            requires 0 < d;
        assert((y * n) / d >= 0) by (nonlinear_arith)
            requires y >= 0 && n >= 0 && d > 0;
    }
}

/// Scales one sample by `n / d`, truncating toward zero.
fn scale_sample(x: i32, n: u32, d: u32) -> (r: i32)
    requires
        -AUDIO_SCALE <= x <= AUDIO_SCALE,
        0 < d,
        n <= d,
    ensures
        r as int == trunc_scale(x as int, n as int, d as int),
        x >= 0 ==> 0 <= r <= x,
        x < 0 ==> x <= r <= 0,
{
    proof {
        lemma_trunc_scale_bound(x as int, n as int, d as int);
    }
    if x >= 0 {
        proof {
            assert((x as int) * (n as int) <= 0x8000_0000_0000int) by (nonlinear_arith)
                requires 0 <= x <= 0x8000 && 0 <= n < 0x1_0000_0000int;
        }
        let wide: u64 = (x as u64) * (n as u64);
        let q: u64 = wide / (d as u64);
        q as i32
    } else {
        let mag: u64 = (-(x as i64)) as u64;
        proof {
            assert((mag as int) * (n as int) <= 0x8000_0000_0000int) by (nonlinear_arith)
                requires 0 <= mag <= 0x8000 && 0 <= n < 0x1_0000_0000int;
        }
        let wide: u64 = mag * (n as u64);
        let q: u64 = wide / (d as u64);
        -(q as i32)
    }
}

/// All samples of a signal lie within the unit scale.
pub open spec fn samples_bounded(s: Seq<i32>) -> bool {
    forall|i: int| 0 <= i < s.len()
        ==> -AUDIO_SCALE <= #[trigger] s[i] <= AUDIO_SCALE
}

/// Applies a linear fade-in and fade-out, in samples, in place.
pub fn apply_fade_in_out_samples(audio: &mut Vec<i32>, fade_in: usize, fade_out: usize)
    requires
        samples_bounded(old(audio)@),
        old(audio)@.len() <= MAX_SAMPLES,
        fade_in <= MAX_SAMPLES,
        fade_out <= MAX_SAMPLES,
    ensures
        final(audio)@.len() == old(audio)@.len(),
        forall|i: int| 0 <= i < final(audio)@.len()
            ==> (#[trigger] final(audio)@[i]) as int
                == fade_spec(old(audio)@, fade_in as int, fade_out as int)[i],
        samples_bounded(final(audio)@),
{
    let ghost orig = audio@;
    let n: usize = audio.len();
    let fin: usize = if fade_in < n { fade_in } else { n };
    let mut i: usize = 0;
    while i < fin
        invariant
            audio@.len() == n,
            orig.len() == n,
            n <= MAX_SAMPLES,
            fade_in <= MAX_SAMPLES,
            fin <= fade_in,
            fin <= n,
            i <= fin,
            samples_bounded(orig),
            forall|k: int| 0 <= k < i ==> (#[trigger] audio@[k]) as int
                == trunc_scale(orig[k] as int, k, fade_in as int),
            forall|k: int| 0 <= k < i
                ==> -AUDIO_SCALE <= #[trigger] audio@[k] <= AUDIO_SCALE,
            forall|k: int| i <= k < n ==> (#[trigger] audio@[k]) == orig[k],
        decreases fin - i,
    {
        let v = scale_sample(audio[i], i as u32, fade_in as u32);
        audio.set(i, v);
        i = i + 1;
    }
    let fout: usize = if fade_out < n { fade_out } else { n };
    let ghost mid = audio@;
    let mut j: usize = 0;
    while j < fout
        invariant
            audio@.len() == n,
            mid.len() == n,
            n <= MAX_SAMPLES,
            fade_out <= MAX_SAMPLES,
            fout <= fade_out,
            fout <= n,
            j <= fout,
            samples_bounded(mid),
            forall|k: int| 0 <= k < n - j ==> (#[trigger] audio@[k]) == mid[k],
            forall|k: int| n - j <= k < n ==> (#[trigger] audio@[k]) as int
                == trunc_scale(mid[k] as int, n - 1 - k, fade_out as int),
            forall|k: int| n - j <= k < n
                ==> -AUDIO_SCALE <= #[trigger] audio@[k] <= AUDIO_SCALE,
        decreases fout - j,
    {
        let idx: usize = n - 1 - j;
        let v = scale_sample(audio[idx], j as u32, fade_out as u32);
        audio.set(idx, v);
        j = j + 1;
    }
    proof {
        assert forall|i: int| 0 <= i < n implies (#[trigger] audio@[i]) as int
            == faded_sample(orig, i, fade_in as int, fade_out as int) by {
            let d = n - 1 - i;
            if i < fin {
                assert(mid[i] as int == trunc_scale(orig[i] as int, i, fade_in as int));
            } else {
                assert(mid[i] == orig[i]);
            }
            if d < fout {
                assert(audio@[i] as int == trunc_scale(mid[i] as int, d, fade_out as int));
            } else {
                assert(audio@[i] == mid[i]);
            }
        }
    }
}

/// The fade gains pin both edges: with any fade-in at all the first
/// sample is zero, and with any fade-out the last is.
pub proof fn lemma_fade_edges(s: Seq<i32>, fade_in: int, fade_out: int)
    requires
        s.len() > 0,
    ensures
        fade_in >= 1 ==> fade_spec(s, fade_in, fade_out)[0] == 0,
        fade_out >= 1 ==> fade_spec(s, fade_in, fade_out)[s.len() - 1] == 0,
{
    let n = s.len() as int;
    if fade_in >= 1 {
        assert(trunc_scale(s[0] as int, 0, fade_in) == 0) by (nonlinear_arith)
            requires fade_in > 0;
        if n - 1 < fade_out {
            assert(trunc_scale(0int, n - 1, fade_out) == 0) by (nonlinear_arith)
                requires fade_out > 0 && n >= 1;
        }
    }
    if fade_out >= 1 {
        let v1 = if n - 1 < fade_in {
            trunc_scale(s[n - 1] as int, n - 1, fade_in)
        } else {
            s[n - 1] as int
        };
        assert(trunc_scale(v1, 0, fade_out) == 0) by (nonlinear_arith)
            requires fade_out > 0;
    }
}

/// Sum of squared samples of a frame.
pub open spec fn sum_squares(s: Seq<i32>) -> int
    decreases s.len(),
{
    if s.len() == 0 {
        0
    } else {
        sum_squares(s.drop_last()) + (s.last() as int) * (s.last() as int)
    }
}

/// The energy envelope: for each analysis frame, the sum of squares and
/// the frame's sample count.  Frames start every `hop` samples; a frame
/// runs `frame_len` samples or to the end of the signal, and the last
/// frame is the one reaching within `hop` of the end.
pub open spec fn frame_energies(audio: Seq<i32>, frame_len: int, hop: int, start: int) -> Seq<(int, int)>
    decreases audio.len() - start
        when 0 <= start < audio.len() && 1 <= hop && 1 <= frame_len
{
    let end = if start + frame_len < audio.len() {
        start + frame_len
    } else {
        audio.len() as int
    };
    let pair = (sum_squares(audio.subrange(start, end)), end - start);
    if start + hop >= audio.len() {
        seq![pair]
    } else {
        seq![pair] + frame_energies(audio, frame_len, hop, start + hop)
    }
}

/// A signal is silent when every frame's energy is zero, which makes the
/// reference RMS zero.
pub open spec fn envelope_silent(frames: Seq<(int, int)>) -> bool {
    forall|j: int| 0 <= j < frames.len() ==> (#[trigger] frames[j]).0 == 0
}

/// Ten to the `e`-th power.
pub open spec fn pow10(e: int) -> int
    decreases e when e >= 0
{
    if e <= 0 {
        1
    } else {
        10 * pow10(e - 1)
    }
}

/// Whether frame `j` counts as voiced: its mean energy is at least the
/// reference (the largest mean energy of any frame) divided by `factor`,
/// the power ratio of the threshold.  Means are compared as exact
/// rationals by cross-multiplication.
pub open spec fn frame_voiced(frames: Seq<(int, int)>, factor: int, j: int) -> bool {
    forall|k: int| 0 <= k < frames.len()
        ==> frames[j].0 * factor * (#[trigger] frames[k]).1 >= frames[k].0 * frames[j].1
}

/// The voiced flags of all frames.
pub open spec fn voiced_flags(frames: Seq<(int, int)>, factor: int) -> Seq<bool> {
    Seq::new(frames.len(), |j: int| frame_voiced(frames, factor, j))
}

/// The first index at which two consecutive voiced frames begin, looking
/// from `i` rightward.
pub open spec fn first_onset(v: Seq<bool>, i: int) -> Option<int>
    decreases v.len() - i when 0 <= i
{
    if i + 1 >= v.len() {
        None
    } else if v[i] && v[i + 1] {
        Some(i)
    } else {
        first_onset(v, i + 1)
    }
}

/// The last index at which two consecutive voiced frames begin, looking
/// from `i` leftward.
pub open spec fn last_onset(v: Seq<bool>, i: int) -> Option<int>
    decreases i + 1 when i < v.len()
{
    if i < 0 {
        None
    } else if i + 1 < v.len() && v[i] && v[i + 1] {
        Some(i)
    } else {
        last_onset(v, i - 1)
    }
}

/// Rounded analysis length in samples for a duration in milliseconds, at
/// least one sample.
pub open spec fn ms_to_len(ms: int, sr: int) -> int {
    let r = (ms * sr + 500) / 1000;
    if r < 1 {
        1
    } else {
        r
    }
}

/// The slice the adaptive trimmer keeps, or nothing when the input is
/// returned unchanged (an empty or silent signal, or a degenerate
/// window).  This is the whole decision chain: envelope, threshold with
/// two-frame hysteresis, minimum-silence gating, tail padding and head
/// pull-back.
pub open spec fn trim_bounds(
    audio: Seq<i32>,
    sr: int,
    top_db: int,
    frame_ms: int,
    hop_ms: int,
    min_silence_ms: int,
    end_padding_ms: int,
) -> Option<(int, int)> {
    let len = audio.len() as int;
    if len == 0 {
        None
    } else {
        let frame_len = ms_to_len(frame_ms, sr);
        let hop = ms_to_len(hop_ms, sr);
        let frames = frame_energies(audio, frame_len, hop, 0);
        if envelope_silent(frames) {
            None
        } else {
            let factor = pow10(top_db / 10);
            let v = voiced_flags(frames, factor);
            let n = frames.len() as int;
            let start_frame = match first_onset(v, 0) {
                Some(i) => i,
                None => 0,
            };
            let end_frame = match last_onset(v, n - 2) {
                Some(i) => i + 1,
                None => n - 1,
            };
            let start_sample0 = start_frame * hop;
            let end_sample0 = if (end_frame + 1) * hop < len {
                (end_frame + 1) * hop
            } else {
                len
            };
            let msf = (min_silence_ms * sr + 1000 * hop - 1) / (1000 * hop);
            let start_sample1 = if start_sample0 / hop < msf {
                0
            } else {
                start_sample0
            };
            let end_sample1 = if (len - end_sample0) / hop < msf {
                len
            } else {
                end_sample0
            };
            let pad = (end_padding_ms * sr) / 1000;
            let end_sample2 = if end_sample1 + pad < len {
                end_sample1 + pad
            } else {
                len
            };
            let spad = (5 * sr) / 1000;
            let start_sample2 = if start_sample1 - spad > 0 {
                start_sample1 - spad
            } else {
                0
            };
            if start_sample2 >= end_sample2 {
                None
            } else {
                Some((start_sample2, end_sample2))
            }
        }
    }
}

/// A signal of zeros has zero energy in every frame.
proof fn lemma_sum_squares_zero(s: Seq<i32>)
    requires
        forall|i: int| 0 <= i < s.len() ==> #[trigger] s[i] == 0,
    ensures
        sum_squares(s) == 0,
    decreases s.len(),
{
    if s.len() > 0 {
        lemma_sum_squares_zero(s.drop_last());
    }
}

/// Energy sums are nonnegative and bounded by the frame's count times
/// the largest possible square.
proof fn lemma_sum_squares_bounds(s: Seq<i32>)
    requires
        samples_bounded(s),
    ensures
        0 <= sum_squares(s),
        sum_squares(s) <= s.len() * (AUDIO_SCALE as int) * (AUDIO_SCALE as int),
    decreases s.len(),
{
    if s.len() == 0 {
    } else {
        assert(samples_bounded(s.drop_last())) by {
            assert(forall|i: int| 0 <= i < s.len() - 1
                ==> s.drop_last()[i] == s[i]);
        }
        lemma_sum_squares_bounds(s.drop_last());
        let x = s.last() as int;
        assert(0 <= x * x <= (AUDIO_SCALE as int) * (AUDIO_SCALE as int)) by (nonlinear_arith)
            requires -(AUDIO_SCALE as int) <= x <= AUDIO_SCALE as int;
        assert((s.len() as int) * (AUDIO_SCALE as int) * (AUDIO_SCALE as int)
            == (s.len() - 1) * (AUDIO_SCALE as int) * (AUDIO_SCALE as int)
                + (AUDIO_SCALE as int) * (AUDIO_SCALE as int)) by (nonlinear_arith);
    }
}

/// The integer views of the executable envelope pairs.
pub open spec fn pairs_view(v: Seq<(u64, u64)>) -> Seq<(int, int)> {
    Seq::new(v.len(), |j: int| (v[j].0 as int, v[j].1 as int))
}

/// Every frame of an all-zero signal has zero energy.
proof fn lemma_frames_zero(audio: Seq<i32>, frame_len: int, hop: int, start: int)
    requires
        forall|i: int| 0 <= i < audio.len() ==> #[trigger] audio[i] == 0,
        0 <= start < audio.len(),
        1 <= hop,
        1 <= frame_len,
    ensures
        envelope_silent(frame_energies(audio, frame_len, hop, start)),
    decreases audio.len() - start,
{
    let end = if start + frame_len < audio.len() {
        start + frame_len
    } else {
        audio.len() as int
    };
    assert(forall|i: int| 0 <= i < end - start
        ==> #[trigger] audio.subrange(start, end)[i] == 0);
    lemma_sum_squares_zero(audio.subrange(start, end));
    if start + hop >= audio.len() {
    } else {
        lemma_frames_zero(audio, frame_len, hop, start + hop);
        let rest = frame_energies(audio, frame_len, hop, start + hop);
        let whole = frame_energies(audio, frame_len, hop, start);
        assert(forall|j: int| 1 <= j < whole.len() ==> whole[j] == rest[j - 1]);
    }
}

/// Against any frame of maximal mean energy, the one-against-max test
/// decides voicedness exactly as the all-frames definition does.
proof fn lemma_voiced_equiv(frames: Seq<(int, int)>, factor: int, j: int, j0: int)
    requires
        0 <= j < frames.len(),
        0 <= j0 < frames.len(),
        factor >= 1,
        forall|k: int| 0 <= k < frames.len() ==> (#[trigger] frames[k]).1 >= 1,
        forall|k: int| 0 <= k < frames.len() ==> (#[trigger] frames[k]).0 >= 0,
        forall|k: int| 0 <= k < frames.len()
            ==> (#[trigger] frames[k]).0 * frames[j0].1 <= frames[j0].0 * frames[k].1,
    ensures
        frame_voiced(frames, factor, j)
            <==> frames[j].0 * factor * frames[j0].1 >= frames[j0].0 * frames[j].1,
{
    let sj = frames[j].0;
    let cj = frames[j].1;
    let s0 = frames[j0].0;
    let c0 = frames[j0].1;
    if frame_voiced(frames, factor, j) {
        assert(sj * factor * c0 >= s0 * cj);
    }
    if sj * factor * c0 >= s0 * cj {
        assert forall|k: int| 0 <= k < frames.len()
            implies sj * factor * (#[trigger] frames[k]).1 >= frames[k].0 * cj by {
            let sk = frames[k].0;
            let ck = frames[k].1;
            assert(sk * c0 <= s0 * ck);
            assert(sj * factor * c0 * ck >= s0 * cj * ck) by (nonlinear_arith)
                requires sj * factor * c0 >= s0 * cj && ck >= 1;
            assert(s0 * cj * ck >= sk * c0 * cj) by (nonlinear_arith)
                requires sk * c0 <= s0 * ck && cj >= 1;
            assert(sj * factor * ck >= sk * cj) by (nonlinear_arith)
                requires sj * factor * c0 * ck >= sk * c0 * cj && c0 >= 1;
        }
    }
}

/// Copies a sample vector unchanged.
fn copy_samples(audio: &Vec<i32>) -> (r: Vec<i32>)
    ensures
        r@ == audio@,
{
    let n: usize = audio.len();
    let mut out: Vec<i32> = Vec::new();
    let mut i: usize = 0;
    while i < n
        invariant
            n == audio@.len(),
            i <= n,
            out@ == audio@.subrange(0, i as int),
        decreases n - i,
    {
        out.push(audio[i]);
        proof {
            assert(out@ =~= audio@.subrange(0, i + 1));
        }
        i = i + 1;
    }
    proof {
        assert(audio@.subrange(0, n as int) =~= audio@);
    }
    out
}

/// The fade lengths, in samples, that the trimmer applies: five
/// milliseconds in, ten out.
pub open spec fn trim_fade_in(sr: int) -> int {
    (5 * sr) / 1000
}

/// See [`trim_fade_in`].
pub open spec fn trim_fade_out(sr: int) -> int {
    (10 * sr) / 1000
}

/// The facade's simple policy: strip a fixed number of leading and
/// trailing samples, when the signal is long enough to afford both.  The
/// samples are carried as opaque 32-bit words and are not altered.
pub fn fixed_trim(audio: &Vec<u32>, lead: usize, tail: usize) -> (r: Vec<u32>)
    ensures
        ({
            let n = audio@.len() as int;
            let s = if lead < n { lead as int } else { n };
            let e = if tail < n - s { tail as int } else { n - s };
            if n > s + e {
                r@ == audio@.subrange(s, n - e)
            } else {
                r@ == audio@
            }
        }),
        r@.len() <= audio@.len(),
{
    let n: usize = audio.len();
    let start: usize = if lead < n { lead } else { n };
    let rem: usize = n - start;
    let end_cut: usize = if tail < rem { tail } else { rem };
    if n > start + end_cut {
        let mut out: Vec<u32> = Vec::new();
        let mut i: usize = start;
        let stop: usize = n - end_cut;
        while i < stop
            invariant
                n == audio@.len(),
                start <= i <= stop <= n,
                out@ == audio@.subrange(start as int, i as int),
            decreases stop - i,
        {
            out.push(audio[i]);
            proof {
                assert(out@ =~= audio@.subrange(start as int, i + 1));
            }
            i = i + 1;
        }
        out
    } else {
        let mut out: Vec<u32> = Vec::new();
        let mut i: usize = 0;
        while i < n
            invariant
                n == audio@.len(),
                i <= n,
                out@ == audio@.subrange(0, i as int),
            decreases n - i,
        {
            out.push(audio[i]);
            proof {
                assert(out@ =~= audio@.subrange(0, i + 1));
            }
            i = i + 1;
        }
        proof {
            assert(audio@.subrange(0, n as int) =~= audio@);
        }
        out
    }
}

/// Applies the linear fades, taking the fade lengths in milliseconds.
pub fn apply_fade_in_out(audio: &mut Vec<i32>, sample_rate: u32, fade_in_ms: u32, fade_out_ms: u32)
    requires
        samples_bounded(old(audio)@),
        old(audio)@.len() <= MAX_SAMPLES,
        1 <= sample_rate <= 1000000,
        fade_in_ms <= 10000,
        fade_out_ms <= 10000,
    ensures
        final(audio)@.len() == old(audio)@.len(),
        forall|i: int| 0 <= i < final(audio)@.len()
            ==> (#[trigger] final(audio)@[i]) as int
                == fade_spec(
                    old(audio)@,
                    (fade_in_ms * sample_rate) as int / 1000,
                    (fade_out_ms * sample_rate) as int / 1000,
                )[i],
        samples_bounded(final(audio)@),
{
    proof {
        assert((fade_in_ms as int) * (sample_rate as int) <= 10000000000int) by (nonlinear_arith)
            requires fade_in_ms <= 10000 && sample_rate <= 1000000;
        assert((fade_out_ms as int) * (sample_rate as int) <= 10000000000int) by (nonlinear_arith)
            requires fade_out_ms <= 10000 && sample_rate <= 1000000;
    }
    let fin64: u64 = ((fade_in_ms as u64) * (sample_rate as u64)) / 1000;
    let fout64: u64 = ((fade_out_ms as u64) * (sample_rate as u64)) / 1000;
    let fin: usize = fin64 as usize;
    let fout: usize = fout64 as usize;
    apply_fade_in_out_samples(audio, fin, fout);
}

/// Trims leading and trailing silence with an RMS threshold, two-frame
/// hysteresis, minimum-silence gating and padded, faded edges.  The
/// threshold sits `top_db` decibels under the loudest frame; exact
/// integer arithmetic asks for a threshold in whole powers of ten of
/// energy, hence decibels in steps of ten.  An empty or silent signal,
/// or one whose trimming window collapses, comes back unchanged.
#[verifier::rlimit(100)]
pub fn trim_silence(
    audio: &Vec<i32>,
    sample_rate: u32,
    top_db: u32,
    frame_ms: u32,
    hop_ms: u32,
    min_silence_ms: u32,
    end_padding_ms: u32,
) -> (r: Vec<i32>)
    requires
        samples_bounded(audio@),
        audio@.len() <= MAX_SAMPLES,
        1 <= sample_rate <= 1000000,
        top_db % 10 == 0,
        top_db <= 90,
        1 <= frame_ms <= 10000,
        1 <= hop_ms <= 10000,
        min_silence_ms <= 10000,
        end_padding_ms <= 10000,
    ensures
        ({
            let bounds = trim_bounds(
                audio@,
                sample_rate as int,
                top_db as int,
                frame_ms as int,
                hop_ms as int,
                min_silence_ms as int,
                end_padding_ms as int,
            );
            match bounds {
                None => r@ == audio@,
                Some(se) => {
                    &&& r@.len() == se.1 - se.0
                    &&& forall|i: int| 0 <= i < r@.len()
                        ==> (#[trigger] r@[i]) as int == fade_spec(
                            audio@.subrange(se.0, se.1),
                            trim_fade_in(sample_rate as int),
                            trim_fade_out(sample_rate as int),
                        )[i]
                },
            }
        }),
        r@.len() <= audio@.len(),
        (forall|i: int| 0 <= i < audio@.len() ==> #[trigger] audio@[i] == 0)
            ==> r@ == audio@,
{
    let len: usize = audio.len();
    if len == 0 {
        return copy_samples(audio);
    }
    proof {
        assert((frame_ms as int) * (sample_rate as int) <= 10000000000int) by (nonlinear_arith)
            requires frame_ms <= 10000 && sample_rate <= 1000000;
        assert((hop_ms as int) * (sample_rate as int) <= 10000000000int) by (nonlinear_arith)
            requires hop_ms <= 10000 && sample_rate <= 1000000;
        assert((min_silence_ms as int) * (sample_rate as int) <= 10000000000int) by (nonlinear_arith)
            requires min_silence_ms <= 10000 && sample_rate <= 1000000;
        assert((end_padding_ms as int) * (sample_rate as int) <= 10000000000int) by (nonlinear_arith)
            requires end_padding_ms <= 10000 && sample_rate <= 1000000;
    }
    let fl64: u64 = ((frame_ms as u64) * (sample_rate as u64) + 500) / 1000;
    let frame_len: usize = if fl64 < 1 { 1 } else { fl64 as usize };
    let hop64: u64 = ((hop_ms as u64) * (sample_rate as u64) + 500) / 1000;
    let hop: usize = if hop64 < 1 { 1 } else { hop64 as usize };
    proof {
        assert(frame_len as int == ms_to_len(frame_ms as int, sample_rate as int));
        assert(hop as int == ms_to_len(hop_ms as int, sample_rate as int));
        assert(1 <= frame_len <= 10000001);
        assert(1 <= hop <= 10000001);
    }

    // The energy envelope: one (sum of squares, count) pair per frame.
    let ghost full_frames = frame_energies(audio@, frame_len as int, hop as int, 0);
    let mut frames_exec: Vec<(u64, u64)> = Vec::new();
    let mut start: usize = 0;
    proof {
        assert(pairs_view(frames_exec@) =~= Seq::<(int, int)>::empty());
        assert(full_frames =~= pairs_view(frames_exec@) + full_frames);
    }
    loop
        invariant_except_break
            len == audio@.len(),
            0 < len <= MAX_SAMPLES,
            samples_bounded(audio@),
            1 <= frame_len <= 10000001,
            1 <= hop <= 10000001,
            start < len,
            full_frames == frame_energies(audio@, frame_len as int, hop as int, 0),
            start == frames_exec@.len() * hop,
            full_frames == pairs_view(frames_exec@)
                + frame_energies(audio@, frame_len as int, hop as int, start as int),
            forall|j: int| 0 <= j < frames_exec@.len()
                ==> 1 <= (#[trigger] frames_exec@[j]).1 <= frame_len
                    && frames_exec@[j].0 <= frames_exec@[j].1 * 0x40000000,
        ensures
            len == audio@.len(),
            pairs_view(frames_exec@) == full_frames,
            frames_exec@.len() >= 1,
            (frames_exec@.len() - 1) * hop < len,
            forall|j: int| 0 <= j < frames_exec@.len()
                ==> 1 <= (#[trigger] frames_exec@[j]).1 <= frame_len
                    && frames_exec@[j].0 <= frames_exec@[j].1 * 0x40000000,
        decreases len - start,
    {
        let end: usize = if start + frame_len < len { start + frame_len } else { len };
        let mut s: u64 = 0;
        let mut k: usize = start;
        while k < end
            invariant
                len == audio@.len(),
                samples_bounded(audio@),
                start <= k <= end <= len,
                end - start <= frame_len,
                frame_len <= 10000001,
                s == sum_squares(audio@.subrange(start as int, k as int)),
                s <= (k - start) * 0x40000000,
            decreases end - k,
        {
            let a: i64 = audio[k] as i64;
            proof {
                assert(0 <= (a as int) * (a as int) <= 0x40000000int) by (nonlinear_arith)
                    requires -0x8000 <= a <= 0x8000;
                assert((k - start + 1) * 0x40000000int == (k - start) * 0x40000000 + 0x40000000)
                    by (nonlinear_arith);
                assert((k - start) * 0x40000000int <= 10000001 * 0x40000000int) by (nonlinear_arith)
                    requires 0 <= k - start <= 10000001int;
            }
            let sq: u64 = (a * a) as u64;
            s = s + sq;
            proof {
                let sub = audio@.subrange(start as int, k + 1);
                assert(sub.drop_last() =~= audio@.subrange(start as int, k as int));
                assert(sub.last() == audio@[k as int]);
            }
            k = k + 1;
        }
        let cnt: u64 = (end - start) as u64;
        let ghost pre = frames_exec@;
        frames_exec.push((s, cnt));
        proof {
            assert(pairs_view(frames_exec@)
                =~= pairs_view(pre) + seq![(s as int, cnt as int)]);
            assert(s as int <= cnt as int * 0x40000000);
        }
        if start + hop >= len {
            proof {
                let tail = frame_energies(audio@, frame_len as int, hop as int, start as int);
                assert(tail =~= seq![(s as int, cnt as int)]);
                assert(pairs_view(frames_exec@) =~= full_frames);
                assert((frames_exec@.len() - 1) * hop == start);
            }
            break;
        }
        proof {
            let tail = frame_energies(audio@, frame_len as int, hop as int, start as int);
            let rest = frame_energies(audio@, frame_len as int, hop as int, start + hop);
            assert(tail =~= seq![(s as int, cnt as int)] + rest);
            assert(full_frames =~= pairs_view(frames_exec@) + rest);
            assert((frames_exec@.len()) * hop == start + hop) by (nonlinear_arith)
                requires frames_exec@.len() - 1 >= 0 && (frames_exec@.len() - 1) * hop == start;
        }
        start = start + hop;
    }
    let ghost frames = pairs_view(frames_exec@);
    let nf: usize = frames_exec.len();

    // Silent signals come back unchanged.
    let mut all_zero = true;
    let mut j: usize = 0;
    while j < nf
        invariant_except_break
            nf == frames_exec@.len(),
            frames == pairs_view(frames_exec@),
            j <= nf,
            all_zero,
            forall|k: int| 0 <= k < j ==> (#[trigger] frames[k]).0 == 0,
        ensures
            nf == frames_exec@.len(),
            all_zero == envelope_silent(frames),
        decreases nf - j,
    {
        if frames_exec[j].0 != 0 {
            all_zero = false;
            proof {
                assert(frames[j as int].0 != 0);
            }
            break;
        }
        j = j + 1;
    }
    proof {
        if forall|i: int| 0 <= i < audio@.len() ==> #[trigger] audio@[i] == 0 {
            lemma_frames_zero(audio@, frame_len as int, hop as int, 0);
        }
    }
    if all_zero {
        return copy_samples(audio);
    }

    // The threshold's power ratio.
    proof {
        reveal_with_fuel(pow10, 11);
    }
    let e: u32 = top_db / 10;
    let factor: u64 = if e == 0 {
        1
    } else if e == 1 {
        10
    } else if e == 2 {
        100
    } else if e == 3 {
        1000
    } else if e == 4 {
        10000
    } else if e == 5 {
        100000
    } else if e == 6 {
        1000000
    } else if e == 7 {
        10000000
    } else if e == 8 {
        100000000
    } else {
        1000000000
    };
    proof {
        assert(factor as int == pow10((top_db / 10) as int));
        assert(1 <= factor <= 1000000000);
    }

    // The loudest frame, by mean energy, compared as exact rationals.
    let mut rs: u64 = frames_exec[0].0;
    let mut rc: u64 = frames_exec[0].1;
    let ghost mut j0: int = 0;
    let mut j: usize = 1;
    while j < nf
        invariant
            nf == frames_exec@.len(),
            frames == pairs_view(frames_exec@),
            1 <= j <= nf,
            0 <= j0 < j,
            rs as int == frames[j0].0,
            rc as int == frames[j0].1,
            forall|k: int| 0 <= k < j
                ==> (#[trigger] frames[k]).0 * (rc as int) <= (rs as int) * frames[k].1,
            forall|k: int| 0 <= k < nf
                ==> 1 <= (#[trigger] frames[k]).1 <= frame_len
                    && 0 <= frames[k].0 <= frames[k].1 * 0x40000000,
        decreases nf - j,
    {
        let sj: u64 = frames_exec[j].0;
        let cj: u64 = frames_exec[j].1;
        proof {
            assert((sj as int) * (rc as int) <= 0xFFFFFFFFFFFFFFFFint * 0xFFFFFFFFFFFFFFFFint)
                by (nonlinear_arith)
                requires 0 <= sj as int <= 0xFFFFFFFFFFFFFFFFint
                    && 0 <= rc as int <= 0xFFFFFFFFFFFFFFFFint;
            assert((rs as int) * (cj as int) <= 0xFFFFFFFFFFFFFFFFint * 0xFFFFFFFFFFFFFFFFint)
                by (nonlinear_arith)
                requires 0 <= rs as int <= 0xFFFFFFFFFFFFFFFFint
                    && 0 <= cj as int <= 0xFFFFFFFFFFFFFFFFint;
        }
        let left: u128 = (sj as u128) * (rc as u128);
        let right: u128 = (rs as u128) * (cj as u128);
        if left > right {
            proof {
                let old_rs = rs as int;
                let old_rc = rc as int;
                assert(sj as int == frames[j as int].0 && cj as int == frames[j as int].1);
                assert forall|k: int| 0 <= k < j + 1
                    implies (#[trigger] frames[k]).0 * (cj as int)
                        <= (sj as int) * frames[k].1 by {
                    if k < j {
                        let sk = frames[k].0;
                        let ck = frames[k].1;
                        assert(sk * old_rc <= old_rs * ck);
                        assert((sj as int) * old_rc > old_rs * (cj as int));
                        assert(sk * (cj as int) <= (sj as int) * ck) by (nonlinear_arith)
                            requires
                                sk * old_rc <= old_rs * ck,
                                (sj as int) * old_rc > old_rs * (cj as int),
                                old_rc >= 1,
                                cj as int >= 1,
                                ck >= 1,
                                sk >= 0,
                                old_rs >= 0,
                                sj as int >= 0;
                    }
                }
            }
            rs = sj;
            rc = cj;
            proof {
                j0 = j as int;
            }
        }
        j = j + 1;
    }

    // Voiced flags against the loudest frame.
    let mut vflags: Vec<bool> = Vec::new();
    let mut j: usize = 0;
    while j < nf
        invariant
            nf == frames_exec@.len(),
            frames == pairs_view(frames_exec@),
            j <= nf,
            0 <= j0 < nf,
            rs as int == frames[j0].0,
            rc as int == frames[j0].1,
            1 <= factor <= 1000000000,
            forall|k: int| 0 <= k < nf
                ==> (#[trigger] frames[k]).0 * (rc as int) <= (rs as int) * frames[k].1,
            forall|k: int| 0 <= k < nf
                ==> 1 <= (#[trigger] frames[k]).1 <= frame_len
                    && 0 <= frames[k].0 <= frames[k].1 * 0x40000000,
            frame_len <= 10000001,
            vflags@.len() == j,
            forall|k: int| 0 <= k < j
                ==> vflags@[k] == frame_voiced(frames, factor as int, k),
        decreases nf - j,
    {
        let sj: u64 = frames_exec[j].0;
        let cj: u64 = frames_exec[j].1;
        proof {
            assert((sj as int) * (factor as int)
                <= 0xFFFFFFFFFFFFFFFFint * 0x3B9ACA00int) by (nonlinear_arith)
                requires 0 <= sj as int <= 0xFFFFFFFFFFFFFFFFint
                    && 0 <= factor as int <= 0x3B9ACA00int;
            assert((sj as int) * (factor as int) * (rc as int)
                <= 0xFFFFFFFFFFFFFFFFint * 0x3B9ACA00int * 0x989681int) by (nonlinear_arith)
                requires 0 <= (sj as int) * (factor as int)
                        <= 0xFFFFFFFFFFFFFFFFint * 0x3B9ACA00int
                    && 0 <= rc as int <= 0x989681int;
            assert((rs as int) * (cj as int) <= 0xFFFFFFFFFFFFFFFFint * 0xFFFFFFFFFFFFFFFFint)
                by (nonlinear_arith)
                requires 0 <= rs as int <= 0xFFFFFFFFFFFFFFFFint
                    && 0 <= cj as int <= 0xFFFFFFFFFFFFFFFFint;
        }
        let lhs: u128 = (sj as u128) * (factor as u128) * (rc as u128);
        let rhs: u128 = (rs as u128) * (cj as u128);
        let voiced = lhs >= rhs;
        proof {
            lemma_voiced_equiv(frames, factor as int, j as int, j0);
        }
        vflags.push(voiced);
        j = j + 1;
    }
    let ghost vspec = voiced_flags(frames, factor as int);
    proof {
        assert(vflags@ =~= vspec);
    }

    // Start scan: the first two-frame voiced run.
    let mut sf_found = false;
    let mut s_onset: usize = 0;
    let mut j: usize = 0;
    while j + 1 < nf
        invariant_except_break
            nf == vflags@.len(),
            vspec == vflags@,
            j + 1 <= nf,
            !sf_found,
            first_onset(vspec, 0) == first_onset(vspec, j as int),
        ensures
            nf == vflags@.len(),
            sf_found ==> first_onset(vspec, 0) == Some(s_onset as int)
                && s_onset + 1 < nf,
            !sf_found ==> first_onset(vspec, 0) is None,
        decreases nf - j,
    {
        if vflags[j] && vflags[j + 1] {
            sf_found = true;
            s_onset = j;
            break;
        }
        j = j + 1;
    }
    let start_frame: usize = if sf_found { s_onset } else { 0 };

    // End scan: the last two-frame voiced run.
    let mut ef_found = false;
    let mut e_onset: usize = 0;
    if nf >= 2 {
        let mut j: usize = nf - 2;
        loop
            invariant_except_break
                nf == vflags@.len(),
                nf >= 2,
                vspec == vflags@,
                j <= nf - 2,
                !ef_found,
                last_onset(vspec, (nf - 2) as int) == last_onset(vspec, j as int),
            ensures
                nf == vflags@.len(),
                ef_found ==> last_onset(vspec, (nf - 2) as int) == Some(e_onset as int)
                    && e_onset + 1 < nf,
                !ef_found ==> last_onset(vspec, (nf - 2) as int) is None,
            decreases j,
        {
            if vflags[j] && vflags[j + 1] {
                ef_found = true;
                e_onset = j;
                break;
            }
            if j == 0 {
                proof {
                    assert(last_onset(vspec, 0int) == last_onset(vspec, -1));
                    assert(last_onset(vspec, -1) is None);
                }
                break;
            }
            j = j - 1;
        }
    } else {
        proof {
            assert(last_onset(vspec, (nf - 2) as int) is None);
        }
    }
    let end_frame: usize = if ef_found { e_onset + 1 } else { nf - 1 };

    // Frames to samples, gating, padding.
    proof {
        assert((start_frame as int) * (hop as int) <= (nf - 1) * (hop as int))
            by (nonlinear_arith)
            requires 0 <= start_frame as int <= nf - 1 && hop as int >= 1;
        assert((end_frame as int + 1) * (hop as int) == (end_frame as int) * (hop as int) + hop)
            by (nonlinear_arith);
        assert((end_frame as int) * (hop as int) <= (nf - 1) * (hop as int))
            by (nonlinear_arith)
            requires 0 <= end_frame as int <= nf - 1 && hop as int >= 1;
        assert((nf - 1) * (hop as int) < len);
    }
    let ss0: u64 = (start_frame as u64) * (hop as u64);
    let es0_raw: u64 = ((end_frame as u64) + 1) * (hop as u64);
    let es0: u64 = if es0_raw < len as u64 { es0_raw } else { len as u64 };
    let msf: u64 = ((min_silence_ms as u64) * (sample_rate as u64) + 1000 * (hop as u64) - 1)
        / (1000 * (hop as u64));
    let ss1: u64 = if ss0 / (hop as u64) < msf { 0 } else { ss0 };
    let es1: u64 = if ((len as u64) - es0) / (hop as u64) < msf { len as u64 } else { es0 };
    let pad: u64 = ((end_padding_ms as u64) * (sample_rate as u64)) / 1000;
    let es2: u64 = if es1 + pad < len as u64 { es1 + pad } else { len as u64 };
    let spad: u64 = (5 * (sample_rate as u64)) / 1000;
    let ss2: u64 = if ss1 > spad { ss1 - spad } else { 0 };

    let ghost bounds = trim_bounds(
        audio@,
        sample_rate as int,
        top_db as int,
        frame_ms as int,
        hop_ms as int,
        min_silence_ms as int,
        end_padding_ms as int,
    );

    if ss2 >= es2 {
        proof {
            assert(bounds is None);
        }
        return copy_samples(audio);
    }
    proof {
        assert(bounds == Some((ss2 as int, es2 as int)));
    }

    // Slice and shape the edges.
    let s_idx: usize = ss2 as usize;
    let e_idx: usize = es2 as usize;
    let mut out: Vec<i32> = Vec::new();
    let mut i: usize = s_idx;
    while i < e_idx
        invariant
            len == audio@.len(),
            samples_bounded(audio@),
            s_idx <= i <= e_idx <= len,
            out@ == audio@.subrange(s_idx as int, i as int),
        decreases e_idx - i,
    {
        out.push(audio[i]);
        proof {
            assert(out@ =~= audio@.subrange(s_idx as int, i + 1));
        }
        i = i + 1;
    }
    proof {
        assert(samples_bounded(out@));
    }
    let fin64: u64 = (5 * (sample_rate as u64)) / 1000;
    let fout64: u64 = (10 * (sample_rate as u64)) / 1000;
    apply_fade_in_out_samples(&mut out, fin64 as usize, fout64 as usize);
    out
}

} // verus!
