//! In-process audio normalization: decoding, channel downmix,
//! resample bookkeeping, and quantization to the canonical form.
//!
//! Decoded samples are carried as 31-bit fixed-point values: the
//! number stored is the sample value scaled by 2^31, so 16-bit input
//! scales by 2^16 and 32-bit input is used as is. All arithmetic on
//! them is exact integer arithmetic; divisions truncate toward zero,
//! the way the quantization of a real-valued sample truncates.

use vstd::prelude::*;
use vstd::arithmetic::div_mod::{
    lemma_div_is_ordered, lemma_div_multiples_vanish, lemma_fundamental_div_mod,
};
use vstd::arithmetic::power2::pow2;
use crate::wav::{i16_le_at, i32_le_at, le32_at};

verus! {

/// Division truncating toward zero (what `/` does on machine integers),
/// for a positive divisor.
pub open spec fn tdiv(a: int, b: int) -> int
    recommends
        b >= 1,
{
    if a >= 0 {
        a / b
    } else {
        -((-a) / b)
    }
}

/// Truncating division of a bounded machine value.
fn tdiv_i64(a: i64, b: i64) -> (r: i64)
    requires
        b >= 1,
        a > i64::MIN,
    ensures
        r == tdiv(a as int, b as int),
{
    if a >= 0 {
        a / b
    } else {
        proof {
            lemma_div_is_ordered(0, (-a) as int, b as int);
            lemma_div_is_ordered((-a) as int, i64::MAX as int, b as int);
        }
        -((-a) / b)
    }
}

proof fn lemma_tdiv_bound(a: int, b: int, m: int)
    requires
        b >= 1,
        m >= 0,
        -m <= a <= m,
    ensures
        -m <= tdiv(a, b) <= m,
{
    if a >= 0 {
        lemma_div_is_ordered(0, a, b);
        lemma_div_is_ordered(a, m, b);
        lemma_div_multiples_vanish(m, b);
        lemma_div_is_ordered(m, m * b, b);
        assert(m <= m * b) by (nonlinear_arith)
            requires
                b >= 1,
                m >= 0,
        ;
    } else {
        lemma_div_is_ordered(0, -a, b);
        lemma_div_is_ordered(-a, m, b);
        lemma_div_multiples_vanish(m, b);
        lemma_div_is_ordered(m, m * b, b);
        assert(m <= m * b) by (nonlinear_arith)
            requires
                b >= 1,
                m >= 0,
        ;
    }
}

// ---------------------------------------------------------------------
// Decoding to the fixed-point domain
// ---------------------------------------------------------------------

/// Every fixed-point sample lies within one unit of full scale.
pub open spec fn q31_bounded(s: Seq<i64>) -> bool {
    forall|i: int| 0 <= i < s.len() ==> -0x80000000 <= #[trigger] s[i] <= 0x80000000
}

/// 16-bit samples enter the fixed-point domain scaled by 2^16.
pub open spec fn spec_decode16_q31(b: Seq<u8>, start: int, count: int) -> Seq<i64> {
    Seq::new(count as nat, |i: int| (i16_le_at(b, start + 2 * i) * 0x10000) as i64)
}

/// 32-bit samples are already at the fixed-point scale.
pub open spec fn spec_decode32_q31(b: Seq<u8>, start: int, count: int) -> Seq<i64> {
    Seq::new(count as nat, |i: int| i32_le_at(b, start + 4 * i) as i64)
}

/// Decode `count` 16-bit samples at `start` into the fixed-point domain.
pub fn decode16_q31(bytes: &Vec<u8>, start: usize, count: usize) -> (r: Vec<i64>)
    requires
        start + 2 * count <= bytes@.len(),
    ensures
        r@ == spec_decode16_q31(bytes@, start as int, count as int),
        q31_bounded(r@),
{
    let blen: usize = bytes.len();
    let mut out: Vec<i64> = Vec::new();
    let mut i: usize = 0;
    while i < count
        invariant
            i <= count,
            blen == bytes@.len(),
            start + 2 * count <= blen,
            out@.len() == i,
            forall|j: int|
                0 <= j < i ==> #[trigger] out@[j] == (i16_le_at(bytes@, start + 2 * j)
                    * 0x10000) as i64,
            q31_bounded(out@),
        decreases count - i,
    {
        let v: i16 = crate::wav::read_i16_le(bytes, start + 2 * i);
        out.push((v as i64) * 0x10000);
        i = i + 1;
    }
    proof {
        assert(out@ =~= spec_decode16_q31(bytes@, start as int, count as int));
    }
    out
}

/// Decode `count` 32-bit samples at `start` into the fixed-point domain.
pub fn decode32_q31(bytes: &Vec<u8>, start: usize, count: usize) -> (r: Vec<i64>)
    requires
        start + 4 * count <= bytes@.len(),
    ensures
        r@ == spec_decode32_q31(bytes@, start as int, count as int),
        q31_bounded(r@),
{
    let blen: usize = bytes.len();
    let mut out: Vec<i64> = Vec::new();
    let mut i: usize = 0;
    while i < count
        invariant
            i <= count,
            blen == bytes@.len(),
            start + 4 * count <= blen,
            out@.len() == i,
            forall|j: int| 0 <= j < i ==> #[trigger] out@[j] == i32_le_at(bytes@, start + 4 * j),
            q31_bounded(out@),
        decreases count - i,
    {
        let v: i32 = crate::wav::read_i32_le(bytes, start + 4 * i);
        out.push(v as i64);
        i = i + 1;
    }
    proof {
        assert(out@ =~= spec_decode32_q31(bytes@, start as int, count as int));
    }
    out
}

// ---------------------------------------------------------------------
// Channel downmix
// ---------------------------------------------------------------------

/// Sum of the first `k` channel values of frame `f`.
pub open spec fn frame_sum(s: Seq<i64>, c: int, f: int, k: int) -> int
    decreases k,
{
    if k <= 0 {
        0
    } else {
        frame_sum(s, c, f, k - 1) + s[f * c + (k - 1)]
    }
}

proof fn lemma_frame_sum_bound(s: Seq<i64>, c: int, f: int, k: int)
    requires
        k >= 0,
        c >= 1,
        0 <= f,
        f * c + c <= s.len(),
        k <= c,
        q31_bounded(s),
    ensures
        -k * 0x80000000 <= frame_sum(s, c, f, k) <= k * 0x80000000,
    decreases k,
{
    if k > 0 {
        lemma_frame_sum_bound(s, c, f, k - 1);
        assert(0 <= f * c + (k - 1) < s.len()) by (nonlinear_arith)
            requires
                c >= 1,
                0 <= f,
                f * c + c <= s.len(),
                0 < k <= c,
        ;
        assert((k - 1) * 0x80000000 + 0x80000000 == k * 0x80000000) by (nonlinear_arith);
    }
}

/// Mono by arithmetic mean: each output frame is the truncating mean
/// of its `c` channel values. A trailing partial frame is dropped.
pub open spec fn spec_downmix(s: Seq<i64>, c: int) -> Seq<i64>
    recommends
        c >= 1,
{
    Seq::new((s.len() as int / c) as nat, |f: int| tdiv(frame_sum(s, c, f, c), c) as i64)
}

/// Downmix interleaved frames to mono by arithmetic mean.
pub fn downmix_q31(samples: &Vec<i64>, channels: u16) -> (r: Vec<i64>)
    requires
        channels >= 1,
        q31_bounded(samples@),
    ensures
        r@ == spec_downmix(samples@, channels as int),
        q31_bounded(r@),
{
    let n: usize = samples.len();
    let c: usize = channels as usize;
    let frames: usize = n / c;
    proof {
        lemma_fundamental_div_mod(n as int, c as int);
        assert(frames * c <= n) by (nonlinear_arith)
            requires
                c >= 1,
                n >= 0,
                frames == n as int / c as int,
                c * frames + n as int % c as int == n as int,
                n as int % c as int >= 0,
        ;
    }
    let mut out: Vec<i64> = Vec::new();
    let mut f: usize = 0;
    while f < frames
        invariant
            f <= frames,
            n == samples@.len(),
            c == channels as usize,
            c >= 1,
            c <= 0x10000,
            q31_bounded(samples@),
            frames == n / c,
            frames * c <= n,
            out@.len() == f,
            forall|g: int|
                0 <= g < f ==> #[trigger] out@[g] == tdiv(
                    frame_sum(samples@, c as int, g, c as int),
                    c as int,
                ) as i64,
            q31_bounded(out@),
        decreases frames - f,
    {
        proof {
            assert(f * c + c <= frames * c) by (nonlinear_arith)
                requires
                    f + 1 <= frames,
                    c >= 1,
            ;
        }
        let base: usize = f * c;
        let mut acc: i64 = 0;
        let mut k: usize = 0;
        while k < c
            invariant
                k <= c,
                c <= 0x10000,
                n == samples@.len(),
                q31_bounded(samples@),
                base == f * c,
                base + c <= n,
                acc == frame_sum(samples@, c as int, f as int, k as int),
                -(k as int) * 0x80000000 <= acc as int <= (k as int) * 0x80000000,
            decreases c - k,
        {
            proof {
                assert((k as int) * 0x80000000 + 0x80000000 <= 0x7FFFFFFFFFFFFFFF)
                    by (nonlinear_arith)
                    requires
                        0 <= k < c <= 0x10000,
                ;
                assert((k + 1) as int * 0x80000000 == (k as int) * 0x80000000 + 0x80000000)
                    by (nonlinear_arith);
            }
            acc = acc + samples[base + k];
            k = k + 1;
        }
        proof {
            lemma_frame_sum_bound(samples@, c as int, f as int, c as int);
            assert(-0x80000000 <= tdiv(acc as int, c as int) <= 0x80000000) by {
                if acc as int >= 0 {
                    lemma_div_is_ordered(acc as int, (c as int) * 0x80000000, c as int);
                    lemma_div_multiples_vanish(0x80000000, c as int);
                    assert((c as int) * 0x80000000 == 0x80000000int * (c as int))
                        by (nonlinear_arith);
                    lemma_div_is_ordered(0, acc as int, c as int);
                } else {
                    lemma_div_is_ordered(-(acc as int), (c as int) * 0x80000000, c as int);
                    lemma_div_multiples_vanish(0x80000000, c as int);
                    assert((c as int) * 0x80000000 == 0x80000000int * (c as int))
                        by (nonlinear_arith);
                    lemma_div_is_ordered(0, -(acc as int), c as int);
                }
            }
        }
        let mean: i64 = tdiv_i64(acc, c as i64);
        out.push(mean);
        f = f + 1;
    }
    proof {
        assert(out@ =~= spec_downmix(samples@, channels as int));
    }
    out
}

/// Downmixing a two-channel stream takes each `[L, R]` pair to
/// `(L + R) / 2`: the mean of the pair, truncated toward zero.
pub proof fn lemma_stereo_downmix(s: Seq<i64>, f: int)
    requires
        0 <= f < s.len() / 2,
    ensures
        spec_downmix(s, 2)[f] == tdiv(s[2 * f] + s[2 * f + 1], 2) as i64,
{
    assert(frame_sum(s, 2, f, 2) == s[2 * f] + s[2 * f + 1]) by {
        assert(frame_sum(s, 2, f, 0) == 0);
        assert(frame_sum(s, 2, f, 1) == s[f * 2]);
        assert(frame_sum(s, 2, f, 2) == s[f * 2] + s[f * 2 + 1]);
    }
}

// ---------------------------------------------------------------------
// Quantization
// ---------------------------------------------------------------------

/// A fixed-point sample quantized to 16-bit PCM: clamped to the unit
/// range and scaled by 32767, truncating toward zero.
pub open spec fn spec_quantize_one(v: int) -> int {
    let clamped = if v < -0x80000000 {
        -0x80000000
    } else if v > 0x80000000 {
        0x80000000
    } else {
        v
    };
    tdiv(clamped * 0x7FFF, 0x80000000)
}

pub open spec fn spec_quantize(s: Seq<i64>) -> Seq<i16> {
    Seq::new(s.len(), |i: int| spec_quantize_one(s[i] as int) as i16)
}

/// Quantize fixed-point samples to 16-bit PCM.
pub fn quantize_q31(samples: &Vec<i64>) -> (r: Vec<i16>)
    requires
        q31_bounded(samples@),
    ensures
        r@ == spec_quantize(samples@),
{
    let n: usize = samples.len();
    let mut out: Vec<i16> = Vec::new();
    let mut i: usize = 0;
    while i < n
        invariant
            i <= n,
            n == samples@.len(),
            q31_bounded(samples@),
            out@.len() == i,
            forall|j: int| 0 <= j < i ==> #[trigger] out@[j] == spec_quantize_one(
                samples@[j] as int,
            ) as i16,
        decreases n - i,
    {
        let v: i64 = samples[i];
        proof {
            lemma_tdiv_bound(v as int * 0x7FFF, 0x80000000int, 0x7FFFint * 0x80000000);
            assert(-0x7FFF <= tdiv(v as int * 0x7FFF, 0x80000000) <= 0x7FFF) by {
                if v >= 0 {
                    lemma_div_is_ordered(v as int * 0x7FFF, 0x80000000int * 0x7FFF, 0x80000000int);
                    lemma_div_multiples_vanish(0x7FFF, 0x80000000);
                    assert(v as int * 0x7FFF <= 0x80000000 * 0x7FFF) by (nonlinear_arith)
                        requires
                            0 <= v <= 0x80000000,
                    ;
                } else {
                    lemma_div_is_ordered(-(v as int * 0x7FFF), 0x80000000int * 0x7FFF, 0x80000000int);
                    lemma_div_multiples_vanish(0x7FFF, 0x80000000);
                    assert(-(v as int * 0x7FFF) <= 0x80000000 * 0x7FFF) by (nonlinear_arith)
                        requires
                            -0x80000000 <= v < 0,
                    ;
                }
            }
        }
        let q: i64 = tdiv_i64(v * 0x7FFF, 0x80000000);
        out.push(q as i16);
        i = i + 1;
    }
    proof {
        assert(out@ =~= spec_quantize(samples@));
    }
    out
}

// ---------------------------------------------------------------------
// Decoding IEEE-float samples
// ---------------------------------------------------------------------

/// The fixed-point value of the 32-bit IEEE-float sample at `p`:
/// sign, biased exponent and mantissa read out of the little-endian
/// bits, the magnitude `(2^23 + m) x 2^(e - 150)` scaled by 2^31 and
/// truncated toward zero, everything clamped to one unit of full
/// scale. Infinities clamp the same way; NaN samples quantize the
/// way the clamp of a NaN does, to the bottom of the range.
pub open spec fn f32_q31_at(b: Seq<u8>, p: int) -> int {
    let v = le32_at(b, p);
    let e = (v / 0x800000) % 0x100;
    let m = v % 0x800000;
    let mag: int = if e >= 127 {
        0x80000000
    } else if e >= 119 {
        (0x800000 + m) * pow2((e - 119) as nat)
    } else if e >= 95 && e >= 1 {
        (0x800000 + m) / pow2((119 - e) as nat) as int
    } else {
        0
    };
    if e == 0xFF && m != 0 {
        -0x80000000
    } else if v >= 0x80000000 {
        -mag
    } else {
        mag
    }
}

/// 2 to the `k`, as a machine value.
fn pow2_u64(k: u32) -> (r: u64)
    requires
        k <= 32,
    ensures
        r == pow2(k as nat),
{
    let mut r: u64 = 1;
    let mut i: u32 = 0;
    proof {
        vstd::arithmetic::power2::lemma2_to64();
    }
    while i < k
        invariant
            i <= k <= 32,
            r == pow2(i as nat),
            r <= 0x100000000,
        decreases k - i,
    {
        proof {
            vstd::arithmetic::power2::lemma2_to64();
            vstd::arithmetic::power2::lemma_pow2_unfold((i + 1) as nat);
            if i + 1 < 32 {
                vstd::arithmetic::power2::lemma_pow2_strictly_increases(
                    (i + 1) as nat,
                    32nat,
                );
            }
        }
        r = r * 2;
        i = i + 1;
    }
    r
}

/// Read the IEEE-float sample at `p` as a fixed-point value.
fn read_f32_q31(bytes: &Vec<u8>, p: usize) -> (r: i64)
    requires
        p + 4 <= bytes@.len(),
    ensures
        r == f32_q31_at(bytes@, p as int),
        -0x80000000 <= r <= 0x80000000,
{
    let v: u32 = crate::wav::read_u32_le(bytes, p);
    let e: u32 = (v / 0x800000) % 0x100;
    let m: u32 = v % 0x800000;
    proof {
        vstd::arithmetic::power2::lemma2_to64();
    }
    let mag: i64 = if e >= 127 {
        0x80000000
    } else if e >= 119 {
        proof {
            vstd::arithmetic::power2::lemma_pow2_pos((e - 119) as nat);
            if ((e - 119) as nat) < 7 {
                vstd::arithmetic::power2::lemma_pow2_strictly_increases((e - 119) as nat, 7nat);
            }
            assert(pow2((e - 119) as nat) <= 128);
            assert((0x800000 + m as int) * pow2((e - 119) as nat) <= 0x1000000 * 128)
                by (nonlinear_arith)
                requires
                    0 <= m < 0x800000,
                    0 < pow2((e - 119) as nat) <= 128,
            ;
        }
        ((0x800000 + m) as i64) * (pow2_u64(e - 119) as i64)
    } else if e >= 95 && e >= 1 {
        proof {
            vstd::arithmetic::power2::lemma_pow2_pos((119 - e) as nat);
            if ((119 - e) as nat) < 24 {
                vstd::arithmetic::power2::lemma_pow2_strictly_increases((119 - e) as nat, 24nat);
            }
            assert(pow2((119 - e) as nat) <= 0x1000000);
            lemma_div_is_ordered(0, 0x800000 + m as int, pow2((119 - e) as nat) as int);
            vstd::arithmetic::div_mod::lemma_div_nonincreasing(
                0x800000 + m as int,
                pow2((119 - e) as nat) as int,
            );
        }
        ((0x800000 + m) as i64) / (pow2_u64(119 - e) as i64)
    } else {
        0
    };
    if e == 0xFF && m != 0 {
        -0x80000000
    } else if v >= 0x80000000 {
        -mag
    } else {
        mag
    }
}

/// IEEE-float samples truncated into the fixed-point domain.
pub open spec fn spec_decode_f32_q31(b: Seq<u8>, start: int, count: int) -> Seq<i64> {
    Seq::new(count as nat, |i: int| f32_q31_at(b, start + 4 * i) as i64)
}

/// Decode `count` IEEE-float samples at `start` into the fixed-point
/// domain.
pub fn decode_f32_q31(bytes: &Vec<u8>, start: usize, count: usize) -> (r: Vec<i64>)
    requires
        start + 4 * count <= bytes@.len(),
    ensures
        r@ == spec_decode_f32_q31(bytes@, start as int, count as int),
        q31_bounded(r@),
{
    let blen: usize = bytes.len();
    let mut out: Vec<i64> = Vec::new();
    let mut i: usize = 0;
    while i < count
        invariant
            i <= count,
            blen == bytes@.len(),
            start + 4 * count <= blen,
            out@.len() == i,
            forall|j: int| 0 <= j < i ==> #[trigger] out@[j] == f32_q31_at(bytes@, start + 4 * j),
            q31_bounded(out@),
        decreases count - i,
    {
        let v: i64 = read_f32_q31(bytes, start + 4 * i);
        out.push(v);
        i = i + 1;
    }
    proof {
        assert(out@ =~= spec_decode_f32_q31(bytes@, start as int, count as int));
    }
    out
}

// ---------------------------------------------------------------------
// Resample bookkeeping
// ---------------------------------------------------------------------

/// How many samples resampling `n` input samples to 16 kHz must yield:
/// `n x 16000 / rate`, rounded half away from zero.
pub open spec fn expected_out_len(n: int, rate: int) -> int
    recommends
        rate >= 1,
{
    (2 * n * 16000 + rate) / (2 * rate)
}

/// The lowest source rate the resampler accepts: anything lower would
/// need a ratio above 8.
pub const MIN_RESAMPLE_RATE: u32 = 2000;

/// The highest source rate the resampler accepts: anything higher
/// would need a ratio below 1/8.
pub const MAX_RESAMPLE_RATE: u32 = 128000;

/// A source rate whose ratio to 16 kHz lies within [1/8, 8].
pub open spec fn rate_in_resample_range(rate: int) -> bool {
    MIN_RESAMPLE_RATE <= rate <= MAX_RESAMPLE_RATE
}

// ---------------------------------------------------------------------
// The in-process conversion tier
// ---------------------------------------------------------------------

use crate::errors::NormalizeError;
use crate::wav::{
    wav_parse, wav_canonical, spec_pcm16_wav, FORMAT_PCM, MAX_PCM16_SAMPLES, CANONICAL_RATE,
};

/// Samples decoded and downmixed to mono, awaiting resampling by the
/// caller. `expected_len` is what the resampled stream must be
/// truncated to. The library guarantees only that ceiling: whether
/// the resampler yields at least that many samples is the
/// resampler's own property.
pub struct ResampleJob {
    pub mono: Vec<i64>,
    pub source_rate: u32,
    pub expected_len: usize,
}

/// What the in-process tier decided for one input.
pub enum NormalizeStep {
    /// Canonical output bytes, ready for transcription.
    Ready(Vec<u8>),
    /// Decoding and downmix are done; the caller must resample the
    /// mono samples and hand the result to `finish_resampled`.
    NeedsResample(ResampleJob),
    /// This tier cannot handle the input; the caller falls back to the
    /// external conversion tool.
    Fallback(NormalizeError),
}

/// The decision, at the specification level.
pub enum SpecStep {
    Ready(Seq<u8>),
    Resample { mono: Seq<i64>, source_rate: u32, expected_len: int },
    Fallback(NormalizeError),
}

/// The executable step carries exactly the values the specification
/// step describes.
pub open spec fn step_matches(r: NormalizeStep, s: SpecStep) -> bool {
    match (r, s) {
        (NormalizeStep::Ready(v), SpecStep::Ready(q)) => v@ == q,
        (NormalizeStep::NeedsResample(j), SpecStep::Resample { mono, source_rate, expected_len }) => {
            &&& j.mono@ == mono
            &&& j.source_rate == source_rate
            &&& j.expected_len == expected_len
        },
        (NormalizeStep::Fallback(e1), SpecStep::Fallback(e2)) => e1 == e2,
        _ => false,
    }
}

/// The mono fixed-point samples an input container decodes to.
pub open spec fn spec_mono_q31(b: Seq<u8>, w: crate::wav::SpecWavInfo) -> Seq<i64> {
    if w.fmt.format_code == crate::wav::FORMAT_FLOAT {
        spec_downmix(spec_decode_f32_q31(b, w.data_start, w.data_len / 4), w.fmt.channels as int)
    } else if w.fmt.bits_per_sample == 16 {
        spec_downmix(spec_decode16_q31(b, w.data_start, w.data_len / 2), w.fmt.channels as int)
    } else {
        spec_downmix(spec_decode32_q31(b, w.data_start, w.data_len / 4), w.fmt.channels as int)
    }
}

/// The encodings the in-process tier decodes: 16- or 32-bit integer
/// PCM, and 32-bit IEEE float.
pub open spec fn tier2_supported(fmt: crate::wav::FmtInfo) -> bool {
    ||| fmt.format_code == FORMAT_PCM && (fmt.bits_per_sample == 16 || fmt.bits_per_sample == 32)
    ||| fmt.format_code == crate::wav::FORMAT_FLOAT && fmt.bits_per_sample == 32
}

/// The full decision tree of the in-process tier. A container that
/// does not parse, an unsupported encoding, a resample ratio outside
/// [1/8, 8], or an output too large for the container's size fields
/// all fall through to the external tool; everything else is decoded,
/// downmixed, and either finished at once (source already at 16 kHz)
/// or handed out for resampling.
pub open spec fn spec_tier2(b: Seq<u8>) -> SpecStep {
    match wav_parse(b) {
        Option::None => SpecStep::Fallback(NormalizeError::MalformedContainer),
        Option::Some(w) => {
            if w.fmt.channels < 1 {
                SpecStep::Fallback(NormalizeError::MalformedContainer)
            } else if !tier2_supported(w.fmt) {
                SpecStep::Fallback(
                    NormalizeError::UnsupportedSampleFormat {
                        format_code: w.fmt.format_code,
                        bits_per_sample: w.fmt.bits_per_sample,
                    },
                )
            } else {
                let mono = spec_mono_q31(b, w);
                if w.fmt.sample_rate == CANONICAL_RATE {
                    if mono.len() > MAX_PCM16_SAMPLES {
                        SpecStep::Fallback(NormalizeError::TooLarge)
                    } else {
                        SpecStep::Ready(spec_pcm16_wav(spec_quantize(mono)))
                    }
                } else if !rate_in_resample_range(w.fmt.sample_rate as int) {
                    SpecStep::Fallback(
                        NormalizeError::SampleRateOutOfRange { sample_rate: w.fmt.sample_rate },
                    )
                } else {
                    let expect = expected_out_len(mono.len() as int, w.fmt.sample_rate as int);
                    if expect > MAX_PCM16_SAMPLES {
                        SpecStep::Fallback(NormalizeError::TooLarge)
                    } else {
                        SpecStep::Resample {
                            mono,
                            source_rate: w.fmt.sample_rate,
                            expected_len: expect,
                        }
                    }
                }
            }
        },
    }
}

/// The in-process conversion tier: decode, downmix, and either finish
/// or hand out a resampling job, exactly as `spec_tier2` decides.
pub fn normalize_in_process(bytes: &Vec<u8>) -> (r: NormalizeStep)
    ensures
        step_matches(r, spec_tier2(bytes@)),
{
    let parsed = crate::wav::parse_wav(bytes);
    let w = match parsed {
        Option::None => {
            return NormalizeStep::Fallback(NormalizeError::MalformedContainer);
        },
        Option::Some(w) => w,
    };
    if w.channels < 1 {
        return NormalizeStep::Fallback(NormalizeError::MalformedContainer);
    }
    let supported = (w.format_code == FORMAT_PCM && (w.bits_per_sample == 16
        || w.bits_per_sample == 32)) || (w.format_code == crate::wav::FORMAT_FLOAT
        && w.bits_per_sample == 32);
    if !supported {
        return NormalizeStep::Fallback(
            NormalizeError::UnsupportedSampleFormat {
                format_code: w.format_code,
                bits_per_sample: w.bits_per_sample,
            },
        );
    }
    let mono: Vec<i64> = if w.format_code == crate::wav::FORMAT_FLOAT {
        let count: usize = w.data_len / 4;
        proof {
            lemma_fundamental_div_mod(w.data_len as int, 4);
        }
        let decoded = decode_f32_q31(bytes, w.data_start, count);
        downmix_q31(&decoded, w.channels)
    } else if w.bits_per_sample == 16 {
        let count: usize = w.data_len / 2;
        proof {
            lemma_fundamental_div_mod(w.data_len as int, 2);
        }
        let decoded = decode16_q31(bytes, w.data_start, count);
        downmix_q31(&decoded, w.channels)
    } else {
        let count: usize = w.data_len / 4;
        proof {
            lemma_fundamental_div_mod(w.data_len as int, 4);
        }
        let decoded = decode32_q31(bytes, w.data_start, count);
        downmix_q31(&decoded, w.channels)
    };
    proof {
        assert(mono@ == spec_mono_q31(bytes@, wav_parse(bytes@)->Some_0));
    }
    if w.sample_rate == CANONICAL_RATE {
        if mono.len() > MAX_PCM16_SAMPLES {
            return NormalizeStep::Fallback(NormalizeError::TooLarge);
        }
        let pcm = quantize_q31(&mono);
        let out = crate::wav::encode_pcm16_wav(&pcm);
        return NormalizeStep::Ready(out);
    }
    if w.sample_rate < MIN_RESAMPLE_RATE || w.sample_rate > MAX_RESAMPLE_RATE {
        return NormalizeStep::Fallback(
            NormalizeError::SampleRateOutOfRange { sample_rate: w.sample_rate },
        );
    }
    proof {
        let dl = w.data_len as int;
        let ch = w.channels as int;
        vstd::arithmetic::div_mod::lemma_div_nonincreasing(dl / 2, ch);
        vstd::arithmetic::div_mod::lemma_div_nonincreasing(dl / 4, ch);
        vstd::arithmetic::div_mod::lemma_div_nonincreasing(dl, 2);
        vstd::arithmetic::div_mod::lemma_div_nonincreasing(dl, 4);
        assert(mono@.len() <= dl);
        assert(dl <= 0xFFFFFFFF);
    }
    let n64: u64 = mono.len() as u64;
    let expect64: u64 = (2 * n64 * 16000 + w.sample_rate as u64) / (2 * w.sample_rate as u64);
    proof {
        assert(expect64 == expected_out_len(mono@.len() as int, w.sample_rate as int));
    }
    if expect64 > MAX_PCM16_SAMPLES as u64 {
        return NormalizeStep::Fallback(NormalizeError::TooLarge);
    }
    NormalizeStep::NeedsResample(
        ResampleJob {
            mono,
            source_rate: w.sample_rate,
            expected_len: expect64 as usize,
        },
    )
}

/// Tiers one and two together: pass canonical input through unchanged,
/// otherwise run the in-process tier.
pub fn normalize_begin(bytes: Vec<u8>) -> (r: NormalizeStep)
    ensures
        wav_canonical(bytes@) ==> (r matches NormalizeStep::Ready(v) && v@ == bytes@),
        !wav_canonical(bytes@) ==> step_matches(r, spec_tier2(bytes@)),
{
    if crate::wav::is_valid_wav_format(&bytes) {
        return NormalizeStep::Ready(bytes);
    }
    normalize_in_process(&bytes)
}

/// Truncate a resampled stream to the expected length and encode it
/// as the canonical container. Shorter streams are encoded as they
/// are: truncation only ever removes the padding artifacts at the
/// end, it never pads.
pub fn finish_resampled(samples: Vec<i16>, expected_len: usize) -> (r: Vec<u8>)
    requires
        expected_len <= MAX_PCM16_SAMPLES,
    ensures
        r@ == spec_pcm16_wav(
            if samples@.len() <= expected_len {
                samples@
            } else {
                samples@.take(expected_len as int)
            },
        ),
{
    let mut trimmed = samples;
    let ghost pre: Seq<i16> = trimmed@;
    if trimmed.len() > expected_len {
        trimmed.truncate(expected_len);
        proof {
            assert(trimmed@ =~= pre.take(expected_len as int));
        }
    }
    crate::wav::encode_pcm16_wav(&trimmed)
}

/// What the in-process tier encodes is itself canonical: the reader
/// accepts it and finds mono 16-bit PCM at 16 kHz, with the samples
/// where the header says. Normalizing a normalized container is
/// therefore the identity: it passes straight through the first tier.
pub proof fn lemma_encoded_output_is_canonical(s: Seq<i16>)
    requires
        s.len() <= MAX_PCM16_SAMPLES,
    ensures
        wav_canonical(spec_pcm16_wav(s)),
        wav_parse(spec_pcm16_wav(s)) matches Some(w) && w.fmt == (crate::wav::FmtInfo {
            format_code: FORMAT_PCM,
            channels: 1u16,
            sample_rate: CANONICAL_RATE,
            bits_per_sample: 16u16,
        }) && w.data_start == 44 && w.data_len == 2 * s.len(),
{
    let b = spec_pcm16_wav(s);
    let n = s.len() as int;
    let riff_size: u32 = (36 + 2 * n) as u32;
    let data_size: u32 = (2 * n) as u32;
    let hdr = crate::wav::spec_header(
        FORMAT_PCM,
        1u16,
        CANONICAL_RATE,
        16u16,
        32000u32,
        2u16,
        riff_size,
        data_size,
    );
    crate::wav::lemma_pcm16_bytes_len(s);
    crate::wav::lemma_header_len(
        FORMAT_PCM,
        1u16,
        CANONICAL_RATE,
        16u16,
        32000u32,
        2u16,
        riff_size,
        data_size,
    );
    assert(b.len() == 44 + 2 * n);
    assert(forall|i: int| 0 <= i < 44 ==> #[trigger] b[i] == hdr[i]);
    // the preamble
    assert(crate::wav::is_cc(b, 0, 0x52, 0x49, 0x46, 0x46));
    assert(crate::wav::is_cc(b, 8, 0x57, 0x41, 0x56, 0x45));
    // the fmt chunk at 12: its size field, then its fields
    assert(crate::wav::is_cc(b, 12, 0x66, 0x6d, 0x74, 0x20));
    assert(!crate::wav::is_cc(b, 12, 0x64, 0x61, 0x74, 0x61));
    assert(le32_at(b, 16) == 16);
    assert(crate::wav::le16_at(b, 20) == FORMAT_PCM);
    assert(crate::wav::le16_at(b, 22) == 1);
    assert(le32_at(b, 24) == CANONICAL_RATE);
    assert(crate::wav::le16_at(b, 34) == 16);
    assert(crate::wav::spec_fmt_resolved(b, 20, 16) == Option::Some(
        crate::wav::FmtInfo {
            format_code: FORMAT_PCM,
            channels: 1u16,
            sample_rate: CANONICAL_RATE,
            bits_per_sample: 16u16,
        },
    ));
    // the data chunk at 36
    assert(crate::wav::is_cc(b, 36, 0x64, 0x61, 0x74, 0x61));
    crate::wav::lemma_u32_le_roundtrip(data_size);
    assert(le32_at(b, 40) == 2 * n);
    let fmt = crate::wav::FmtInfo {
        format_code: FORMAT_PCM,
        channels: 1u16,
        sample_rate: CANONICAL_RATE,
        bits_per_sample: 16u16,
    };
    assert(crate::wav::scan_chunks(b, 36, Option::Some(fmt)) == Option::Some(
        crate::wav::SpecWavInfo { fmt, data_start: 44, data_len: 2 * n },
    ));
    assert(crate::wav::scan_chunks(b, 12, Option::None) == crate::wav::scan_chunks(
        b,
        36,
        Option::Some(fmt),
    ));
}

// ---------------------------------------------------------------------
// The external-tool tier
// ---------------------------------------------------------------------

/// The fixed argument set for the external conversion tool: input
/// path, resample to 16 kHz, downmix to one channel, 16-bit PCM,
/// overwrite, output path.
pub fn external_tool_args(input_path: &String, output_path: &String) -> (r: Vec<String>)
    ensures
        r@.len() == 10,
        r@[0]@ == "-i"@,
        r@[1]@ == input_path@,
        r@[2]@ == "-ar"@,
        r@[3]@ == "16000"@,
        r@[4]@ == "-ac"@,
        r@[5]@ == "1"@,
        r@[6]@ == "-c:a"@,
        r@[7]@ == "pcm_s16le"@,
        r@[8]@ == "-y"@,
        r@[9]@ == output_path@,
{
    let mut args: Vec<String> = Vec::new();
    args.push(String::from_str("-i"));
    args.push(input_path.clone());
    args.push(String::from_str("-ar"));
    args.push(String::from_str("16000"));
    args.push(String::from_str("-ac"));
    args.push(String::from_str("1"));
    args.push(String::from_str("-c:a"));
    args.push(String::from_str("pcm_s16le"));
    args.push(String::from_str("-y"));
    args.push(output_path.clone());
    args
}

/// Classify a failure to launch the external tool: its absence is a
/// distinct, user-actionable error, anything else an audio-read error
/// carrying the launcher's description.
pub fn classify_tool_failure(tool_missing: bool, detail: String) -> (r:
    crate::errors::TranscriptionError)
    ensures
        tool_missing ==> (r matches crate::errors::TranscriptionError::FfmpegNotFoundError {
            message,
        } && message@
            == "FFmpeg is not installed. Install FFmpeg to convert audio formats for local transcription."@),
        !tool_missing ==> (r matches crate::errors::TranscriptionError::AudioReadError { message }
            && message@ == "Failed to run ffmpeg: "@ + detail@),
{
    if tool_missing {
        crate::errors::TranscriptionError::FfmpegNotFoundError {
            message: String::from_str(
                "FFmpeg is not installed. Install FFmpeg to convert audio formats for local transcription.",
            ),
        }
    } else {
        crate::errors::TranscriptionError::AudioReadError {
            message: String::from_str("Failed to run ffmpeg: ").concat(detail.as_str()),
        }
    }
}

/// A source rate whose ratio to 16 kHz exceeds 8 or falls below 1/8
/// is rejected before any resampling work begins: the decision alone
/// falls through to the external tool, and no resampling job is ever
/// handed out for such an input.
pub proof fn lemma_out_of_range_rate_rejected(b: Seq<u8>)
    requires
        wav_parse(b) is Some,
        !rate_in_resample_range(wav_parse(b)->Some_0.fmt.sample_rate as int),
    ensures
        !(spec_tier2(b) is Resample),
        (wav_parse(b)->Some_0.fmt.sample_rate != CANONICAL_RATE && spec_tier2(b) is Fallback
            && wav_parse(b)->Some_0.fmt.channels >= 1 && wav_parse(b)->Some_0.fmt.format_code
            == FORMAT_PCM && (wav_parse(b)->Some_0.fmt.bits_per_sample == 16
            || wav_parse(b)->Some_0.fmt.bits_per_sample == 32)) ==> spec_tier2(b)
            == SpecStep::Fallback(
            NormalizeError::SampleRateOutOfRange {
                sample_rate: wav_parse(b)->Some_0.fmt.sample_rate,
            },
        ),
{
}

/// Whatever a resampler hands back for a job of this tier, the
/// finished container never holds more samples than the expected
/// output length computed with the job: `n x 16000 / source rate`,
/// rounded half away from zero. Truncation only removes the padding
/// artifacts beyond that length; a shorter stream is kept as it is.
pub proof fn lemma_resample_output_bounded(b: Seq<u8>, resampled: Seq<i16>)
    requires
        spec_tier2(b) is Resample,
    ensures
        match spec_tier2(b) {
            SpecStep::Resample { mono, source_rate, expected_len } => {
                &&& expected_len == expected_out_len(mono.len() as int, source_rate as int)
                &&& ({
                    let kept = if resampled.len() <= expected_len {
                        resampled
                    } else {
                        resampled.take(expected_len)
                    };
                    &&& kept.len() <= expected_len
                    &&& spec_pcm16_wav(kept).len() == 44 + 2 * kept.len()
                })
            },
            _ => true,
        },
{
    match spec_tier2(b) {
        SpecStep::Resample { mono, source_rate, expected_len } => {
            let kept = if resampled.len() <= expected_len {
                resampled
            } else {
                resampled.take(expected_len)
            };
            crate::wav::lemma_pcm16_bytes_len(kept);
        },
        _ => {},
    }
}

/// When the source is already at 16 kHz, no resampling happens: the
/// in-process result keeps one output sample per mono input frame,
/// each one only quantized.
pub proof fn lemma_same_rate_keeps_length(b: Seq<u8>)
    requires
        wav_parse(b) is Some,
        wav_parse(b)->Some_0.fmt.sample_rate == CANONICAL_RATE,
        spec_tier2(b) is Ready,
    ensures
        spec_tier2(b)->Ready_0 == spec_pcm16_wav(spec_quantize(spec_mono_q31(b, wav_parse(b)->Some_0))),
        spec_quantize(spec_mono_q31(b, wav_parse(b)->Some_0)).len() == spec_mono_q31(
            b,
            wav_parse(b)->Some_0,
        ).len(),
{
}

} // verus!
