//! The RIFF/WAVE container: byte-level layout, a chunk-walking reader,
//! and an encoder for the canonical mono / 16 kHz / 16-bit PCM form.
//!
//! Everything in a WAV file is little-endian. The reader walks the chunk
//! list after the `RIFF`/`WAVE` preamble, records the format fields from
//! the `fmt ` chunk, and stops at the first `data` chunk.

use vstd::prelude::*;

verus! {

// ---------------------------------------------------------------------
// Little-endian primitives
// ---------------------------------------------------------------------

/// The value of two little-endian bytes at position `p`.
pub open spec fn le16_at(b: Seq<u8>, p: int) -> int {
    b[p] + 0x100 * b[p + 1]
}

/// The value of four little-endian bytes at position `p`.
pub open spec fn le32_at(b: Seq<u8>, p: int) -> int {
    b[p] + 0x100 * b[p + 1] + 0x10000 * b[p + 2] + 0x1000000 * b[p + 3]
}

/// The two little-endian bytes of a 16-bit value.
pub open spec fn spec_u16_le(x: u16) -> Seq<u8> {
    seq![(x % 0x100) as u8, (x / 0x100) as u8]
}

/// The four little-endian bytes of a 32-bit value.
pub open spec fn spec_u32_le(x: u32) -> Seq<u8> {
    seq![
        (x % 0x100) as u8,
        ((x / 0x100) % 0x100) as u8,
        ((x / 0x10000) % 0x100) as u8,
        (x / 0x1000000) as u8,
    ]
}

pub proof fn lemma_u32_le_roundtrip(x: u32)
    ensures
        spec_u32_le(x).len() == 4,
        le32_at(spec_u32_le(x), 0) == x,
{
}

/// Append the two little-endian bytes of `x`.
pub fn push_u16_le(out: &mut Vec<u8>, x: u16)
    ensures
        final(out)@ == old(out)@ + spec_u16_le(x),
{
    out.push((x % 0x100) as u8);
    out.push((x / 0x100) as u8);
    proof {
        assert(out@ =~= old(out)@ + spec_u16_le(x));
    }
}

/// Append the four little-endian bytes of `x`.
pub fn push_u32_le(out: &mut Vec<u8>, x: u32)
    ensures
        final(out)@ == old(out)@ + spec_u32_le(x),
{
    out.push((x % 0x100) as u8);
    out.push(((x / 0x100) % 0x100) as u8);
    out.push(((x / 0x10000) % 0x100) as u8);
    out.push((x / 0x1000000) as u8);
    proof {
        assert(out@ =~= old(out)@ + spec_u32_le(x));
    }
}

/// Read the 16-bit little-endian value at `p`.
pub fn read_u16_le(bytes: &Vec<u8>, p: usize) -> (r: u16)
    requires
        p + 2 <= bytes@.len(),
    ensures
        r == le16_at(bytes@, p as int),
{
    let n: usize = bytes.len();
    assert(p + 2 <= n);
    let lo: u16 = bytes[p] as u16;
    let hi: u16 = bytes[p + 1] as u16;
    lo + 0x100 * hi
}

/// Read the 32-bit little-endian value at `p`.
pub fn read_u32_le(bytes: &Vec<u8>, p: usize) -> (r: u32)
    requires
        p + 4 <= bytes@.len(),
    ensures
        r == le32_at(bytes@, p as int),
{
    let n: usize = bytes.len();
    assert(p + 4 <= n);
    let b0: u32 = bytes[p] as u32;
    let b1: u32 = bytes[p + 1] as u32;
    let b2: u32 = bytes[p + 2] as u32;
    let b3: u32 = bytes[p + 3] as u32;
    b0 + 0x100 * b1 + 0x10000 * b2 + 0x1000000 * b3
}

// ---------------------------------------------------------------------
// Header layout
// ---------------------------------------------------------------------

/// Format code for integer PCM samples.
pub const FORMAT_PCM: u16 = 1;

/// Format code for IEEE-float samples.
pub const FORMAT_FLOAT: u16 = 3;

/// Byte length of the headers this crate writes: `RIFF` preamble,
/// a 16-byte `fmt ` chunk, and the `data` chunk header.
pub const HEADER_LEN: usize = 44;

/// The 44 header bytes preceding the sample data, as this crate writes
/// them: `RIFF` size, `WAVE`, a 16-byte `fmt ` chunk, and the `data`
/// chunk header.
pub open spec fn spec_header(
    format_code: u16,
    channels: u16,
    sample_rate: u32,
    bits_per_sample: u16,
    byte_rate: u32,
    block_align: u16,
    riff_size: u32,
    data_size: u32,
) -> Seq<u8> {
    seq![0x52u8, 0x49u8, 0x46u8, 0x46u8]  // "RIFF"
    + spec_u32_le(riff_size)
    + seq![0x57u8, 0x41u8, 0x56u8, 0x45u8]  // "WAVE"
    + seq![0x66u8, 0x6du8, 0x74u8, 0x20u8]  // "fmt "
    + spec_u32_le(16u32)
    + spec_u16_le(format_code)
    + spec_u16_le(channels)
    + spec_u32_le(sample_rate)
    + spec_u32_le(byte_rate)
    + spec_u16_le(block_align)
    + spec_u16_le(bits_per_sample)
    + seq![0x64u8, 0x61u8, 0x74u8, 0x61u8]  // "data"
    + spec_u32_le(data_size)
}

pub proof fn lemma_header_len(
    format_code: u16,
    channels: u16,
    sample_rate: u32,
    bits_per_sample: u16,
    byte_rate: u32,
    block_align: u16,
    riff_size: u32,
    data_size: u32,
)
    ensures
        spec_header(
            format_code,
            channels,
            sample_rate,
            bits_per_sample,
            byte_rate,
            block_align,
            riff_size,
            data_size,
        ).len() == 44,
{
}

/// Build the 44 header bytes.
pub fn build_header(
    format_code: u16,
    channels: u16,
    sample_rate: u32,
    bits_per_sample: u16,
    byte_rate: u32,
    block_align: u16,
    riff_size: u32,
    data_size: u32,
) -> (r: Vec<u8>)
    ensures
        r@ == spec_header(
            format_code,
            channels,
            sample_rate,
            bits_per_sample,
            byte_rate,
            block_align,
            riff_size,
            data_size,
        ),
{
    let mut out: Vec<u8> = Vec::new();
    out.push(0x52u8);
    out.push(0x49u8);
    out.push(0x46u8);
    out.push(0x46u8);
    push_u32_le(&mut out, riff_size);
    out.push(0x57u8);
    out.push(0x41u8);
    out.push(0x56u8);
    out.push(0x45u8);
    out.push(0x66u8);
    out.push(0x6du8);
    out.push(0x74u8);
    out.push(0x20u8);
    push_u32_le(&mut out, 16u32);
    push_u16_le(&mut out, format_code);
    push_u16_le(&mut out, channels);
    push_u32_le(&mut out, sample_rate);
    push_u32_le(&mut out, byte_rate);
    push_u16_le(&mut out, block_align);
    push_u16_le(&mut out, bits_per_sample);
    out.push(0x64u8);
    out.push(0x61u8);
    out.push(0x74u8);
    out.push(0x61u8);
    push_u32_le(&mut out, data_size);
    proof {
        assert(out@ =~= spec_header(
            format_code,
            channels,
            sample_rate,
            bits_per_sample,
            byte_rate,
            block_align,
            riff_size,
            data_size,
        ));
    }
    out
}

// ---------------------------------------------------------------------
// Reading a WAV container
// ---------------------------------------------------------------------

/// The format fields of a `fmt ` chunk.
#[derive(Clone, Copy, Debug, PartialEq, Eq, Structural)]
pub struct FmtInfo {
    pub format_code: u16,
    pub channels: u16,
    pub sample_rate: u32,
    pub bits_per_sample: u16,
}

/// What a successful parse of a WAV container yields: the format
/// fields and the position of the sample data.
pub struct SpecWavInfo {
    pub fmt: FmtInfo,
    pub data_start: int,
    pub data_len: int,
}

/// The format fields and data location of a parsed WAV container.
#[derive(Clone, Copy, Debug, PartialEq, Eq, Structural)]
pub struct WavInfo {
    pub format_code: u16,
    pub channels: u16,
    pub sample_rate: u32,
    pub bits_per_sample: u16,
    pub data_start: usize,
    pub data_len: usize,
}

/// The four bytes at `p` are `c0 c1 c2 c3`.
pub open spec fn is_cc(b: Seq<u8>, p: int, c0: u8, c1: u8, c2: u8, c3: u8) -> bool {
    b[p] == c0 && b[p + 1] == c1 && b[p + 2] == c2 && b[p + 3] == c3
}

/// The format fields read from a 16-byte `fmt ` chunk body at `p`.
pub open spec fn spec_fmt_at(b: Seq<u8>, p: int) -> FmtInfo {
    FmtInfo {
        format_code: le16_at(b, p) as u16,
        channels: le16_at(b, p + 2) as u16,
        sample_rate: le32_at(b, p + 4) as u32,
        bits_per_sample: le16_at(b, p + 14) as u16,
    }
}

/// The sixteen subformat bytes at `p` name integer PCM.
pub open spec fn is_pcm_guid(b: Seq<u8>, p: int) -> bool {
    &&& b[p] == 0x01u8
    &&& is_guid_tail(b, p)
}

/// The sixteen subformat bytes at `p` name IEEE-float samples.
pub open spec fn is_float_guid(b: Seq<u8>, p: int) -> bool {
    &&& b[p] == 0x03u8
    &&& is_guid_tail(b, p)
}

/// The fixed fourteen bytes every media subformat identifier shares.
pub open spec fn is_guid_tail(b: Seq<u8>, p: int) -> bool {
    &&& b[p + 1] == 0x00u8
    &&& b[p + 2] == 0x00u8
    &&& b[p + 3] == 0x00u8
    &&& b[p + 4] == 0x00u8
    &&& b[p + 5] == 0x00u8
    &&& b[p + 6] == 0x10u8
    &&& b[p + 7] == 0x00u8
    &&& b[p + 8] == 0x80u8
    &&& b[p + 9] == 0x00u8
    &&& b[p + 10] == 0x00u8
    &&& b[p + 11] == 0xaau8
    &&& b[p + 12] == 0x00u8
    &&& b[p + 13] == 0x38u8
    &&& b[p + 14] == 0x9bu8
    &&& b[p + 15] == 0x71u8
}

/// The format fields of a `fmt ` chunk of `size` bytes at `p`,
/// with the extensible form resolved: its subformat identifier gives
/// the real format code and, when set, its valid-bits field gives
/// the real depth. An extensible chunk that is too short, declares
/// an unexpected extension size, or names an unknown subformat does
/// not parse.
pub open spec fn spec_fmt_resolved(b: Seq<u8>, p: int, size: int) -> Option<FmtInfo> {
    let base = spec_fmt_at(b, p);
    if base.format_code != 0xFFFE {
        Option::Some(base)
    } else if size >= 40 && le16_at(b, p + 16) == 22 {
        let valid_bits = le16_at(b, p + 18) as u16;
        let bits = if valid_bits > 0 {
            valid_bits
        } else {
            base.bits_per_sample
        };
        if is_pcm_guid(b, p + 24) {
            Option::Some(FmtInfo { format_code: FORMAT_PCM, bits_per_sample: bits, ..base })
        } else if is_float_guid(b, p + 24) {
            Option::Some(FmtInfo { format_code: FORMAT_FLOAT, bits_per_sample: bits, ..base })
        } else {
            Option::None
        }
    } else {
        Option::None
    }
}

/// Walk the chunk list from `pos`. A `fmt ` chunk records the format
/// fields (a malformed one aborts the parse); the walk ends at the
/// first `data` chunk, which must fit in the input and must follow a
/// `fmt ` chunk. Other chunks are skipped over, with the odd-size
/// padding byte the RIFF format prescribes.
pub open spec fn scan_chunks(b: Seq<u8>, pos: int, fmt: Option<FmtInfo>) -> Option<SpecWavInfo>
    decreases b.len() - pos,
{
    if pos < 0 || pos + 8 > b.len() {
        Option::None
    } else {
        let size = le32_at(b, pos + 4);
        if is_cc(b, pos, 0x64, 0x61, 0x74, 0x61) {  // "data"
            match fmt {
                Option::Some(f) => if pos + 8 + size <= b.len() {
                    Option::Some(SpecWavInfo { fmt: f, data_start: pos + 8, data_len: size })
                } else {
                    Option::None
                },
                Option::None => Option::None,
            }
        } else if is_cc(b, pos, 0x66, 0x6d, 0x74, 0x20) {  // "fmt "
            if size >= 16 && pos + 8 + size <= b.len() {
                match spec_fmt_resolved(b, pos + 8, size) {
                    Option::None => Option::None,
                    Option::Some(f) => {
                        let next = pos + 8 + size + (if size % 2 == 1 { 1int } else { 0int });
                        if next > b.len() {
                            Option::None
                        } else {
                            scan_chunks(b, next, Option::Some(f))
                        }
                    },
                }
            } else {
                Option::None
            }
        } else {
            let next = pos + 8 + size + (if size % 2 == 1 { 1int } else { 0int });
            if next > b.len() {
                Option::None
            } else {
                scan_chunks(b, next, fmt)
            }
        }
    }
}

/// A parse of the whole container: the `RIFF`/`WAVE` preamble followed
/// by the chunk walk.
pub open spec fn wav_parse(b: Seq<u8>) -> Option<SpecWavInfo> {
    if b.len() >= 12 && is_cc(b, 0, 0x52, 0x49, 0x46, 0x46) && is_cc(b, 8, 0x57, 0x41, 0x56, 0x45) {
        scan_chunks(b, 12, Option::None)
    } else {
        Option::None
    }
}

/// The four bytes at `p` equal the given ones.
fn cc_at(bytes: &Vec<u8>, p: usize, c0: u8, c1: u8, c2: u8, c3: u8) -> (r: bool)
    requires
        p + 4 <= bytes@.len(),
    ensures
        r == is_cc(bytes@, p as int, c0, c1, c2, c3),
{
    let n: usize = bytes.len();
    assert(p + 4 <= n);
    bytes[p] == c0 && bytes[p + 1] == c1 && bytes[p + 2] == c2 && bytes[p + 3] == c3
}

/// Parse a WAV container: find the format fields and the sample data.
pub fn parse_wav(bytes: &Vec<u8>) -> (r: Option<WavInfo>)
    ensures
        (r is Some) == (wav_parse(bytes@) is Some),
        match (r, wav_parse(bytes@)) {
            (Option::Some(w), Option::Some(s)) => {
                &&& w.format_code == s.fmt.format_code
                &&& w.channels == s.fmt.channels
                &&& w.sample_rate == s.fmt.sample_rate
                &&& w.bits_per_sample == s.fmt.bits_per_sample
                &&& w.data_start == s.data_start
                &&& w.data_len == s.data_len
                &&& w.data_start + w.data_len <= bytes@.len()
                &&& w.data_len <= 0xFFFFFFFF
            },
            (Option::None, Option::None) => true,
            _ => false,
        },
{
    let n: usize = bytes.len();
    if n < 12 {
        return Option::None;
    }
    if !cc_at(bytes, 0, 0x52, 0x49, 0x46, 0x46) || !cc_at(bytes, 8, 0x57, 0x41, 0x56, 0x45) {
        return Option::None;
    }
    let mut pos: usize = 12;
    let mut fmt_found: Option<FmtInfo> = Option::None;
    assert(wav_parse(bytes@) == scan_chunks(bytes@, 12, Option::<FmtInfo>::None));
    loop
        invariant
            12 <= pos <= n,
            n == bytes@.len(),
            scan_chunks(bytes@, pos as int, fmt_found) == wav_parse(bytes@),
        decreases n - pos,
    {
        if n - pos < 8 {
            return Option::None;
        }
        let size: u32 = read_u32_le(bytes, pos + 4);
        if cc_at(bytes, pos, 0x64, 0x61, 0x74, 0x61) {
            match fmt_found {
                Option::None => {
                    return Option::None;
                },
                Option::Some(f) => {
                    if size as u64 <= (n - pos - 8) as u64 {
                        return Option::Some(WavInfo {
                            format_code: f.format_code,
                            channels: f.channels,
                            sample_rate: f.sample_rate,
                            bits_per_sample: f.bits_per_sample,
                            data_start: pos + 8,
                            data_len: size as usize,
                        });
                    } else {
                        return Option::None;
                    }
                },
            }
        }
        let is_fmt = cc_at(bytes, pos, 0x66, 0x6d, 0x74, 0x20);
        let mut fmt_next: Option<FmtInfo> = fmt_found;
        if is_fmt {
            if !(size >= 16 && size as u64 <= (n - pos - 8) as u64) {
                return Option::None;
            }
            let base = FmtInfo {
                format_code: read_u16_le(bytes, pos + 8),
                channels: read_u16_le(bytes, pos + 10),
                sample_rate: read_u32_le(bytes, pos + 12),
                bits_per_sample: read_u16_le(bytes, pos + 22),
            };
            assert(base == spec_fmt_at(bytes@, pos + 8));
            if base.format_code != 0xFFFE {
                fmt_next = Option::Some(base);
            } else {
                if !(size >= 40 && read_u16_le(bytes, pos + 24) == 22) {
                    return Option::None;
                }
                let valid_bits: u16 = read_u16_le(bytes, pos + 26);
                let bits: u16 = if valid_bits > 0 {
                    valid_bits
                } else {
                    base.bits_per_sample
                };
                let g: usize = pos + 32;
                let tail_ok: bool = bytes[g + 1] == 0x00 && bytes[g + 2] == 0x00 && bytes[g + 3]
                    == 0x00 && bytes[g + 4] == 0x00 && bytes[g + 5] == 0x00 && bytes[g + 6] == 0x10
                    && bytes[g + 7] == 0x00 && bytes[g + 8] == 0x80 && bytes[g + 9] == 0x00
                    && bytes[g + 10] == 0x00 && bytes[g + 11] == 0xaa && bytes[g + 12] == 0x00
                    && bytes[g + 13] == 0x38 && bytes[g + 14] == 0x9b && bytes[g + 15] == 0x71;
                if bytes[g] == 0x01 && tail_ok {
                    fmt_next = Option::Some(FmtInfo {
                        format_code: FORMAT_PCM,
                        channels: base.channels,
                        sample_rate: base.sample_rate,
                        bits_per_sample: bits,
                    });
                } else if bytes[g] == 0x03 && tail_ok {
                    fmt_next = Option::Some(FmtInfo {
                        format_code: FORMAT_FLOAT,
                        channels: base.channels,
                        sample_rate: base.sample_rate,
                        bits_per_sample: bits,
                    });
                } else {
                    return Option::None;
                }
            }
            assert(Option::Some(fmt_next->Some_0) == spec_fmt_resolved(
                bytes@,
                pos + 8,
                size as int,
            ));
        }
        let pad: u128 = if size % 2 == 1 {
            1
        } else {
            0
        };
        let next_wide: u128 = pos as u128 + 8 + size as u128 + pad;
        if next_wide > n as u128 {
            return Option::None;
        }
        let next: usize = next_wide as usize;
        assert(scan_chunks(bytes@, pos as int, fmt_found) == scan_chunks(
            bytes@,
            next as int,
            fmt_next,
        ));
        pos = next;
        fmt_found = fmt_next;
    }
}

// ---------------------------------------------------------------------
// The canonical form
// ---------------------------------------------------------------------

/// The sample rate every transcription engine expects.
pub const CANONICAL_RATE: u32 = 16000;

/// The container parses and already holds mono, 16 kHz, 16-bit
/// integer PCM: nothing needs to change before transcription.
pub open spec fn wav_canonical(b: Seq<u8>) -> bool {
    match wav_parse(b) {
        Option::Some(w) => {
            &&& w.fmt.format_code == FORMAT_PCM
            &&& w.fmt.channels == 1
            &&& w.fmt.sample_rate == CANONICAL_RATE
            &&& w.fmt.bits_per_sample == 16
        },
        Option::None => false,
    }
}

/// Whether the input is already in the canonical mono / 16 kHz /
/// 16-bit PCM form.
pub fn is_valid_wav_format(bytes: &Vec<u8>) -> (r: bool)
    ensures
        r == wav_canonical(bytes@),
{
    match parse_wav(bytes) {
        Option::Some(w) => w.format_code == FORMAT_PCM && w.channels == 1 && w.sample_rate
            == CANONICAL_RATE && w.bits_per_sample == 16,
        Option::None => false,
    }
}

// ---------------------------------------------------------------------
// Sample decoding
// ---------------------------------------------------------------------

/// The signed 16-bit sample whose little-endian bytes sit at `p`.
pub open spec fn i16_le_at(b: Seq<u8>, p: int) -> int {
    let v = le16_at(b, p);
    if v >= 0x8000 {
        v - 0x10000
    } else {
        v
    }
}

/// The signed 32-bit sample whose little-endian bytes sit at `p`.
pub open spec fn i32_le_at(b: Seq<u8>, p: int) -> int {
    let v = le32_at(b, p);
    if v >= 0x80000000 {
        v - 0x100000000
    } else {
        v
    }
}

/// Read the signed 16-bit sample at `p`.
pub fn read_i16_le(bytes: &Vec<u8>, p: usize) -> (r: i16)
    requires
        p + 2 <= bytes@.len(),
    ensures
        r as int == i16_le_at(bytes@, p as int),
{
    let v: u16 = read_u16_le(bytes, p);
    if v >= 0x8000 {
        let m: i32 = 0x10000 - v as i32;
        (-m) as i16
    } else {
        v as i16
    }
}

/// Read the signed 32-bit sample at `p`.
pub fn read_i32_le(bytes: &Vec<u8>, p: usize) -> (r: i32)
    requires
        p + 4 <= bytes@.len(),
    ensures
        r as int == i32_le_at(bytes@, p as int),
{
    let v: u32 = read_u32_le(bytes, p);
    if v >= 0x80000000 {
        let m: i64 = 0x100000000 - v as i64;
        (-m) as i32
    } else {
        v as i32
    }
}

/// Decode `count` consecutive 16-bit samples starting at byte `start`.
pub fn decode_pcm16(bytes: &Vec<u8>, start: usize, count: usize) -> (r: Vec<i16>)
    requires
        start + 2 * count <= bytes@.len(),
    ensures
        r@.len() == count,
        forall|i: int|
            0 <= i < count ==> #[trigger] r@[i] as int == i16_le_at(bytes@, start + 2 * i),
{
    let blen: usize = bytes.len();
    let mut out: Vec<i16> = Vec::new();
    let mut i: usize = 0;
    while i < count
        invariant
            i <= count,
            blen == bytes@.len(),
            start + 2 * count <= blen,
            out@.len() == i,
            forall|j: int|
                0 <= j < i ==> #[trigger] out@[j] as int == i16_le_at(bytes@, start + 2 * j),
        decreases count - i,
    {
        out.push(read_i16_le(bytes, start + 2 * i));
        i = i + 1;
    }
    out
}

// ---------------------------------------------------------------------
// Encoding the canonical container
// ---------------------------------------------------------------------

/// The little-endian bytes of one signed 16-bit sample.
pub open spec fn spec_i16_le(v: i16) -> Seq<u8> {
    spec_u16_le(v as u16)
}

/// The little-endian byte stream of a sequence of 16-bit samples.
pub open spec fn spec_pcm16_bytes(s: Seq<i16>) -> Seq<u8>
    decreases s.len(),
{
    if s.len() == 0 {
        Seq::empty()
    } else {
        spec_pcm16_bytes(s.drop_last()) + spec_i16_le(s.last())
    }
}

pub proof fn lemma_pcm16_bytes_len(s: Seq<i16>)
    ensures
        spec_pcm16_bytes(s).len() == 2 * s.len(),
    decreases s.len(),
{
    if s.len() > 0 {
        lemma_pcm16_bytes_len(s.drop_last());
    }
}

/// The largest sample count the canonical container can declare: the
/// data and RIFF size fields are 32 bits.
pub const MAX_PCM16_SAMPLES: usize = 0x7FFF0000;

/// A whole canonical container: mono, 16 kHz, 16-bit PCM, with a
/// 44-byte header followed by the sample bytes.
pub open spec fn spec_pcm16_wav(s: Seq<i16>) -> Seq<u8> {
    spec_header(
        FORMAT_PCM,
        1u16,
        CANONICAL_RATE,
        16u16,
        32000u32,
        2u16,
        (36 + 2 * s.len()) as u32,
        (2 * s.len()) as u32,
    ) + spec_pcm16_bytes(s)
}

/// Append the little-endian bytes of one 16-bit sample.
pub fn push_i16_le(out: &mut Vec<u8>, v: i16)
    ensures
        final(out)@ == old(out)@ + spec_i16_le(v),
{
    push_u16_le(out, v as u16);
}

/// Encode samples as a canonical mono / 16 kHz / 16-bit PCM container.
pub fn encode_pcm16_wav(samples: &Vec<i16>) -> (r: Vec<u8>)
    requires
        samples@.len() <= MAX_PCM16_SAMPLES,
    ensures
        r@ == spec_pcm16_wav(samples@),
        r@.len() == 44 + 2 * samples@.len(),
{
    let n: usize = samples.len();
    let data_size: u32 = 2 * (n as u32);
    let riff_size: u32 = 36 + data_size;
    let mut out: Vec<u8> = build_header(
        FORMAT_PCM,
        1u16,
        CANONICAL_RATE,
        16u16,
        32000u32,
        2u16,
        riff_size,
        data_size,
    );
    let ghost header: Seq<u8> = out@;
    let mut i: usize = 0;
    assert(samples@.take(0) =~= Seq::<i16>::empty());
    while i < n
        invariant
            i <= n,
            n == samples@.len(),
            out@ == header + spec_pcm16_bytes(samples@.take(i as int)),
        decreases n - i,
    {
        push_i16_le(&mut out, samples[i]);
        proof {
            let t = samples@.take(i + 1);
            assert(t.drop_last() =~= samples@.take(i as int));
            assert(t.last() == samples@[i as int]);
            assert(out@ == header + spec_pcm16_bytes(t));
        }
        i = i + 1;
    }
    proof {
        assert(samples@.take(n as int) =~= samples@);
        lemma_pcm16_bytes_len(samples@);
    }
    out
}

} // verus!
