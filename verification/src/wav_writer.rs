//! Progressive WAV writing for capture.
//!
//! The writer keeps the complete byte image of the file as it must
//! appear on disk: a 44-byte IEEE-float header followed by the sample
//! bytes. Appends extend the image; a header rewrite patches the two
//! mutable size fields in place and never touches the sample bytes.
//! The caller persists the image (its tail, plus the header when it
//! changed) and supplies a monotonic clock, so that at most one second
//! of writes can sit behind a stale on-disk header.

use vstd::prelude::*;
use crate::wav::{
    spec_header, build_header, le32_at, FORMAT_FLOAT, HEADER_LEN,
};

verus! {

/// Capture stores every sample as a 32-bit IEEE float.
pub const BYTES_PER_SAMPLE: usize = 4;

/// How long a stale on-disk header may lag behind the data, at most.
pub const HEADER_UPDATE_INTERVAL_MS: u64 = 1000;

/// The largest sample count the 32-bit RIFF size field can describe.
pub const MAX_CAPTURE_SAMPLES: u64 = 0x3FFFFFF6;

/// Overwrite the first `src.len()` bytes of `dst` with `src`.
fn overwrite_prefix(dst: &mut Vec<u8>, src: &Vec<u8>)
    requires
        src@.len() <= old(dst)@.len(),
    ensures
        final(dst)@ == src@ + old(dst)@.subrange(src@.len() as int, old(dst)@.len() as int),
{
    let n: usize = src.len();
    let dn: usize = dst.len();
    let mut k: usize = 0;
    while k < n
        invariant
            k <= n,
            n == src@.len(),
            dn == dst@.len(),
            n <= dn,
            old(dst)@.len() == dn,
            forall|j: int| 0 <= j < k ==> #[trigger] dst@[j] == src@[j],
            forall|j: int| k <= j < dn ==> #[trigger] dst@[j] == old(dst)@[j],
        decreases n - k,
    {
        let b: u8 = src[k];
        dst[k] = b;
        k = k + 1;
    }
    proof {
        assert(dst@ =~= src@ + old(dst)@.subrange(n as int, dn as int));
    }
}

/// A WAV file being written progressively, as its full byte image.
pub struct WavWriter {
    /// The bytes of the file as they must appear on disk.
    pub image: Vec<u8>,
    pub sample_rate: u32,
    pub channels: u16,
    /// Samples appended so far (one value of one channel each).
    pub samples_written: u64,
    /// Data size currently declared by the header.
    pub declared_data: u32,
    /// RIFF size currently declared by the header.
    pub declared_riff: u32,
    /// Clock reading at the most recent header rewrite.
    pub last_header_update_ms: u64,
    pub file_path: String,
}

impl WavWriter {
    /// The stream byte rate the header declares.
    pub open spec fn spec_byte_rate(self) -> u32 {
        (self.sample_rate * self.channels * BYTES_PER_SAMPLE) as u32
    }

    /// The frame size the header declares.
    pub open spec fn spec_block_align(self) -> u16 {
        (self.channels * BYTES_PER_SAMPLE) as u16
    }

    /// The 44 header bytes declaring the given sizes.
    pub open spec fn spec_header_with(self, riff_size: u32, data_size: u32) -> Seq<u8> {
        spec_header(
            FORMAT_FLOAT,
            self.channels,
            self.sample_rate,
            32u16,
            self.spec_byte_rate(),
            self.spec_block_align(),
            riff_size,
            data_size,
        )
    }

    /// The sample bytes: everything after the header.
    pub open spec fn data_bytes(self) -> Seq<u8> {
        self.image@.subrange(HEADER_LEN as int, self.image@.len() as int)
    }

    /// Well-formedness: the image is a header with the declared sizes
    /// followed by exactly the appended sample bytes, and every size
    /// the format's 32-bit fields must hold still fits.
    pub open spec fn wf(self) -> bool {
        &&& self.sample_rate >= 1
        &&& self.channels >= 1
        &&& self.channels <= 0x3FFF
        &&& self.sample_rate * self.channels <= 0x3FFFFFFF
        &&& self.samples_written <= MAX_CAPTURE_SAMPLES
        &&& self.image@.len() == HEADER_LEN + BYTES_PER_SAMPLE * self.samples_written
        &&& self.image@.subrange(0, HEADER_LEN as int) == self.spec_header_with(
            self.declared_riff,
            self.declared_data,
        )
    }

    /// Milliseconds of audio written so far.
    pub open spec fn spec_duration_ms(self) -> int {
        1000 * self.samples_written / (self.sample_rate * self.channels)
    }

    /// Create a writer whose image holds a fresh header with
    /// placeholder size fields and no sample bytes yet.
    pub fn new(sample_rate: u32, channels: u16, file_path: String, now_ms: u64) -> (r: WavWriter)
        requires
            sample_rate >= 1,
            channels >= 1,
            channels <= 0x3FFF,
            sample_rate * channels <= 0x3FFFFFFF,
        ensures
            r.wf(),
            r.sample_rate == sample_rate,
            r.channels == channels,
            r.samples_written == 0,
            r.declared_data == 0xFFFFFFFFu32,
            r.declared_riff == 0xFFFFFFFFu32,
            r.last_header_update_ms == now_ms,
            r.file_path == file_path,
            r.data_bytes() == Seq::<u8>::empty(),
    {
        let byte_rate: u32 = sample_rate * (channels as u32) * 4;
        let block_align: u16 = channels * 4;
        let image: Vec<u8> = build_header(
            FORMAT_FLOAT,
            channels,
            sample_rate,
            32u16,
            byte_rate,
            block_align,
            0xFFFFFFFFu32,
            0xFFFFFFFFu32,
        );
        let r = WavWriter {
            image,
            sample_rate,
            channels,
            samples_written: 0,
            declared_data: 0xFFFFFFFFu32,
            declared_riff: 0xFFFFFFFFu32,
            last_header_update_ms: now_ms,
            file_path,
        };
        proof {
            assert(r.image@.subrange(0, HEADER_LEN as int) =~= r.spec_header_with(
                0xFFFFFFFFu32,
                0xFFFFFFFFu32,
            ));
            assert(r.data_bytes() =~= Seq::<u8>::empty());
        }
        r
    }

    /// Patch both size fields of the header so they declare the data
    /// written so far. Sample bytes are untouched.
    fn rewrite_header(&mut self)
        requires
            old(self).wf(),
        ensures
            final(self).wf(),
            final(self).sample_rate == old(self).sample_rate,
            final(self).channels == old(self).channels,
            final(self).samples_written == old(self).samples_written,
            final(self).last_header_update_ms == old(self).last_header_update_ms,
            final(self).file_path == old(self).file_path,
            final(self).declared_data == 4 * old(self).samples_written,
            final(self).declared_riff == 36 + 4 * old(self).samples_written,
            final(self).data_bytes() == old(self).data_bytes(),
            final(self).image@.len() == old(self).image@.len(),
    {
        let data_size: u32 = 4 * (self.samples_written as u32);
        let riff_size: u32 = 36 + data_size;
        let byte_rate: u32 = self.sample_rate * (self.channels as u32) * 4;
        let block_align: u16 = self.channels * 4;
        let hdr: Vec<u8> = build_header(
            FORMAT_FLOAT,
            self.channels,
            self.sample_rate,
            32u16,
            byte_rate,
            block_align,
            riff_size,
            data_size,
        );
        proof {
            crate::wav::lemma_header_len(
                FORMAT_FLOAT,
                old(self).channels,
                old(self).sample_rate,
                32u16,
                old(self).spec_byte_rate(),
                old(self).spec_block_align(),
                riff_size,
                data_size,
            );
        }
        overwrite_prefix(&mut self.image, &hdr);
        self.declared_data = data_size;
        self.declared_riff = riff_size;
        proof {
            assert(self.image@.subrange(0, HEADER_LEN as int) =~= self.spec_header_with(
                riff_size,
                data_size,
            ));
            assert(self.data_bytes() =~= old(self).data_bytes());
        }
    }

    /// Append sample bytes (already encoded as 32-bit floats) and
    /// rewrite the header when at least a second has passed since the
    /// last rewrite.
    pub fn write_samples(&mut self, sample_bytes: &Vec<u8>, now_ms: u64)
        requires
            old(self).wf(),
            sample_bytes@.len() % 4 == 0,
            old(self).samples_written + sample_bytes@.len() / 4 <= MAX_CAPTURE_SAMPLES,
            old(self).last_header_update_ms <= now_ms,
        ensures
            final(self).wf(),
            final(self).sample_rate == old(self).sample_rate,
            final(self).channels == old(self).channels,
            final(self).file_path == old(self).file_path,
            final(self).samples_written == old(self).samples_written + sample_bytes@.len() / 4,
            final(self).data_bytes() == old(self).data_bytes() + sample_bytes@,
            now_ms - old(self).last_header_update_ms >= HEADER_UPDATE_INTERVAL_MS ==> {
                &&& final(self).declared_data == 4 * final(self).samples_written
                &&& final(self).declared_riff == 36 + 4 * final(self).samples_written
                &&& final(self).last_header_update_ms == now_ms
            },
            now_ms - old(self).last_header_update_ms < HEADER_UPDATE_INTERVAL_MS ==> {
                &&& final(self).declared_data == old(self).declared_data
                &&& final(self).declared_riff == old(self).declared_riff
                &&& final(self).last_header_update_ms == old(self).last_header_update_ms
            },
    {
        let added: usize = sample_bytes.len() / 4;
        let mut k: usize = 0;
        let n: usize = sample_bytes.len();
        while k < n
            invariant
                k <= n,
                n == sample_bytes@.len(),
                self.image@ == old(self).image@ + sample_bytes@.take(k as int),
                self.sample_rate == old(self).sample_rate,
                self.channels == old(self).channels,
                self.samples_written == old(self).samples_written,
                self.declared_data == old(self).declared_data,
                self.declared_riff == old(self).declared_riff,
                self.last_header_update_ms == old(self).last_header_update_ms,
                self.file_path == old(self).file_path,
            decreases n - k,
        {
            let b: u8 = sample_bytes[k];
            self.image.push(b);
            proof {
                assert(old(self).image@ + sample_bytes@.take(k + 1) =~= (old(self).image@
                    + sample_bytes@.take(k as int)).push(sample_bytes@[k as int]));
            }
            k = k + 1;
        }
        proof {
            assert(sample_bytes@.take(n as int) =~= sample_bytes@);
        }
        self.samples_written = self.samples_written + (added as u64);
        proof {
            assert(self.image@.subrange(0, HEADER_LEN as int) =~= old(self).image@.subrange(
                0,
                HEADER_LEN as int,
            ));
            assert(self.data_bytes() =~= old(self).data_bytes() + sample_bytes@);
        }
        if now_ms - self.last_header_update_ms >= HEADER_UPDATE_INTERVAL_MS {
            self.rewrite_header();
            self.last_header_update_ms = now_ms;
        }
    }

    /// One unconditional header rewrite: afterwards both size fields
    /// declare exactly the bytes written.
    pub fn finalize(&mut self)
        requires
            old(self).wf(),
        ensures
            final(self).wf(),
            final(self).sample_rate == old(self).sample_rate,
            final(self).channels == old(self).channels,
            final(self).samples_written == old(self).samples_written,
            final(self).last_header_update_ms == old(self).last_header_update_ms,
            final(self).file_path == old(self).file_path,
            final(self).declared_data == 4 * old(self).samples_written,
            final(self).declared_riff == 36 + 4 * old(self).samples_written,
            final(self).data_bytes() == old(self).data_bytes(),
            final(self).image@.len() == old(self).image@.len(),
    {
        self.rewrite_header();
    }

    /// The duration written so far, `samples / (rate x channels)`
    /// seconds, reported in milliseconds.
    pub fn duration_millis(&self) -> (r: u64)
        requires
            self.wf(),
        ensures
            r == self.spec_duration_ms(),
    {
        let per_second: u64 = (self.sample_rate as u64) * (self.channels as u64);
        assert(per_second >= 1) by (nonlinear_arith)
            requires
                self.sample_rate >= 1,
                self.channels >= 1,
                per_second == (self.sample_rate as u64) * (self.channels as u64),
        ;
        (1000 * self.samples_written) / per_second
    }

    /// The full byte image of the file, for the caller to persist.
    pub fn file_bytes(&self) -> (r: &Vec<u8>)
        ensures
            r@ == self.image@,
    {
        &self.image
    }

    pub fn get_file_path(&self) -> (r: &String)
        ensures
            r@ == self.file_path@,
    {
        &self.file_path
    }

    /// Sample rate, channel count and duration in milliseconds.
    pub fn get_metadata(&self) -> (r: (u32, u16, u64))
        requires
            self.wf(),
        ensures
            r.0 == self.sample_rate,
            r.1 == self.channels,
            r.2 == self.spec_duration_ms(),
    {
        (self.sample_rate, self.channels, self.duration_millis())
    }
}

/// After a finalizing rewrite, the header's mutable size fields hold
/// exactly the written byte counts: the data field is
/// `samples x bytes-per-sample` and the RIFF field trails the whole
/// file by the fixed eight bytes.
pub proof fn lemma_finalized_header_sizes(w: WavWriter)
    requires
        w.wf(),
        w.declared_data == 4 * w.samples_written,
        w.declared_riff == 36 + 4 * w.samples_written,
    ensures
        le32_at(w.image@, 40) == 4 * w.samples_written,
        le32_at(w.image@, 4) == 36 + 4 * w.samples_written,
        le32_at(w.image@, 4) + 8 == w.image@.len(),
{
    let hdr = w.spec_header_with(w.declared_riff, w.declared_data);
    assert(w.image@.subrange(0, 44) == hdr);
    assert(w.image@[40] == hdr[40] && w.image@[41] == hdr[41] && w.image@[42] == hdr[42]
        && w.image@[43] == hdr[43]);
    assert(w.image@[4] == hdr[4] && w.image@[5] == hdr[5] && w.image@[6] == hdr[6] && w.image@[7]
        == hdr[7]);
    crate::wav::lemma_u32_le_roundtrip(w.declared_data);
    crate::wav::lemma_u32_le_roundtrip(w.declared_riff);
}

/// Finalizing is idempotent: a writer whose header already declares
/// the written sizes is left byte-identical by another rewrite,
/// because the declared fields are recomputed from the same counter.
pub proof fn lemma_finalize_idempotent(w1: WavWriter, w2: WavWriter)
    requires
        w1.wf(),
        w1.declared_data == 4 * w1.samples_written,
        w1.declared_riff == 36 + 4 * w1.samples_written,
        // `w2` is any outcome a second finalize admits
        w2.wf(),
        w2.sample_rate == w1.sample_rate,
        w2.channels == w1.channels,
        w2.samples_written == w1.samples_written,
        w2.declared_data == 4 * w1.samples_written,
        w2.declared_riff == 36 + 4 * w1.samples_written,
        w2.data_bytes() == w1.data_bytes(),
    ensures
        w2.image@ == w1.image@,
{
    assert(w2.image@ =~= w2.image@.subrange(0, 44) + w2.data_bytes());
    assert(w1.image@ =~= w1.image@.subrange(0, 44) + w1.data_bytes());
}

} // verus!
