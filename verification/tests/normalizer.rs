//! End-to-end tests of the normalization pipeline, with the
//! resampling step performed the way the application performs it.

use whispering::errors::NormalizeError;
use whispering::normalize::{
    finish_resampled, normalize_begin, normalize_in_process, NormalizeStep, ResampleJob,
};
use whispering::wav::{encode_pcm16_wav, is_valid_wav_format, parse_wav};
use rubato::Resampler;

/// Build a WAV container through hound, as outside producers would.
fn hound_wav(channels: u16, sample_rate: u32, bits: u16, frames: &[Vec<i32>]) -> Vec<u8> {
    let spec = hound::WavSpec {
        channels,
        sample_rate,
        bits_per_sample: bits,
        sample_format: hound::SampleFormat::Int,
    };
    let mut cur = std::io::Cursor::new(Vec::new());
    {
        let mut w = hound::WavWriter::new(&mut cur, spec).unwrap();
        for frame in frames {
            assert_eq!(frame.len(), channels as usize);
            for &v in frame {
                if bits == 16 {
                    w.write_sample(v as i16).unwrap();
                } else {
                    w.write_sample(v).unwrap();
                }
            }
        }
        w.finalize().unwrap();
    }
    cur.into_inner()
}

/// The application's resampling step: windowed-sinc interpolation in
/// fixed chunks with a zero-padded tail, then quantization and the
/// library's truncation and encoding.
fn resample_and_finish(job: ResampleJob) -> Vec<u8> {
    let ratio = 16000.0f64 / job.source_rate as f64;
    let params = rubato::SincInterpolationParameters {
        sinc_len: 64,
        f_cutoff: 0.95,
        interpolation: rubato::SincInterpolationType::Linear,
        oversampling_factor: 128,
        window: rubato::WindowFunction::BlackmanHarris2,
    };
    let chunk = 1024usize;
    let mut rs = rubato::SincFixedIn::<f32>::new(ratio, 8.0, params, chunk, 1).unwrap();
    let mono: Vec<f32> = job.mono.iter().map(|&q| q as f32 / 2147483648.0).collect();
    let mut out_f: Vec<f32> = Vec::with_capacity(job.expected_len);
    let mut pos = 0usize;
    while pos < mono.len() {
        let end = (pos + chunk).min(mono.len());
        let mut c: Vec<f32> = mono[pos..end].to_vec();
        if c.len() < chunk {
            c.resize(chunk, 0.0);
        }
        let waves = vec![c];
        let o = rs.process(&waves, None).unwrap();
        out_f.extend_from_slice(&o[0]);
        pos += chunk;
    }
    let pcm: Vec<i16> = out_f.iter().map(|&s| (s.max(-1.0).min(1.0) * 32767.0) as i16).collect();
    finish_resampled(pcm, job.expected_len)
}

#[test]
fn canonical_input_passes_through_byte_identical() {
    let samples: Vec<i16> = (0..2000).map(|i| ((i * 37) % 4001 - 2000) as i16).collect();
    let bytes = encode_pcm16_wav(&samples);
    assert!(is_valid_wav_format(&bytes));
    let original = bytes.clone();
    match normalize_begin(bytes) {
        NormalizeStep::Ready(out) => assert_eq!(out, original),
        _ => panic!("canonical input must pass through"),
    }
}

#[test]
fn hound_canonical_input_passes_through() {
    let frames: Vec<Vec<i32>> = (0..500).map(|i| vec![(i % 100) - 50]).collect();
    let bytes = hound_wav(1, 16000, 16, &frames);
    assert!(is_valid_wav_format(&bytes));
    let original = bytes.clone();
    match normalize_begin(bytes) {
        NormalizeStep::Ready(out) => assert_eq!(out, original),
        _ => panic!("canonical input must pass through"),
    }
}

#[test]
fn three_channel_one_second_becomes_canonical() {
    let frames: Vec<Vec<i32>> = (0..44100)
        .map(|i| {
            let v = ((i as f32 * 0.05).sin() * 12000.0) as i32;
            vec![v, v / 2, -v]
        })
        .collect();
    let bytes = hound_wav(3, 44100, 16, &frames);
    match normalize_begin(bytes) {
        NormalizeStep::NeedsResample(job) => {
            assert_eq!(job.source_rate, 44100);
            assert_eq!(job.mono.len(), 44100);
            assert_eq!(job.expected_len, 16000);
            let out = resample_and_finish(job);
            let info = parse_wav(&out).unwrap();
            assert_eq!(info.format_code, 1);
            assert_eq!(info.channels, 1);
            assert_eq!(info.sample_rate, 16000);
            assert_eq!(info.bits_per_sample, 16);
            let n = info.data_len / 2;
            assert!(n >= 15999 && n <= 16000, "got {} samples", n);
            assert!(is_valid_wav_format(&out));
        },
        _ => panic!("expected a resampling job"),
    }
}

#[test]
fn stereo_downmix_is_the_mean_of_each_pair() {
    let frames: Vec<Vec<i32>> = vec![
        vec![1000, 2000],
        vec![5, -10],
        vec![-32768, -32768],
        vec![32767, 32767],
        vec![0, 1],
    ];
    let bytes = hound_wav(2, 16000, 16, &frames);
    match normalize_begin(bytes) {
        NormalizeStep::Ready(out) => {
            let info = parse_wav(&out).unwrap();
            assert_eq!(info.channels, 1);
            assert_eq!(info.data_len, 10);
            let mut cur = std::io::Cursor::new(out);
            let reader = hound::WavReader::new(&mut cur).unwrap();
            let got: Vec<i16> = reader.into_samples::<i16>().map(|s| s.unwrap()).collect();
            // each mean, then scaled by 32767/32768 with truncation
            // toward zero
            let expect = |l: i64, r: i64| -> i16 {
                let mean_q31 = {
                    let s = (l + r) * 65536;
                    if s >= 0 { s / 2 } else { -((-s) / 2) }
                };
                let p = mean_q31 * 32767;
                let q = if p >= 0 { p >> 31 } else { -((-p) >> 31) };
                q as i16
            };
            assert_eq!(got[0], expect(1000, 2000));
            assert_eq!(got[0], 1499);
            assert_eq!(got[1], expect(5, -10));
            assert_eq!(got[1], -2);
            assert_eq!(got[2], -32767);
            assert_eq!(got[3], 32766);
            assert_eq!(got[4], 0);
        },
        _ => panic!("16 kHz stereo should finish in-process"),
    }
}

#[test]
fn resample_ratio_limits_are_enforced_strictly() {
    let frames: Vec<Vec<i32>> = (0..64).map(|i| vec![i]).collect();
    // just under the lowest supported rate: ratio above 8
    let bytes = hound_wav(1, 1999, 16, &frames);
    match normalize_in_process(&bytes) {
        NormalizeStep::Fallback(NormalizeError::SampleRateOutOfRange { sample_rate }) => {
            assert_eq!(sample_rate, 1999)
        },
        _ => panic!("1999 Hz must be rejected"),
    }
    // just above the highest supported rate: ratio below 1/8
    let bytes = hound_wav(1, 128001, 16, &frames);
    assert!(matches!(
        normalize_in_process(&bytes),
        NormalizeStep::Fallback(NormalizeError::SampleRateOutOfRange { .. })
    ));
    // both boundary rates are inside the envelope
    let bytes = hound_wav(1, 2000, 16, &frames);
    assert!(matches!(normalize_in_process(&bytes), NormalizeStep::NeedsResample(_)));
    let bytes = hound_wav(1, 128000, 16, &frames);
    assert!(matches!(normalize_in_process(&bytes), NormalizeStep::NeedsResample(_)));
}

#[test]
fn same_rate_input_is_not_resampled() {
    // 16 kHz mono but 32-bit: converted in-process without any
    // resampling job, one output sample per input sample
    let frames: Vec<Vec<i32>> = (0..100).map(|i| vec![i * 65536]).collect();
    let bytes = hound_wav(1, 16000, 32, &frames);
    match normalize_in_process(&bytes) {
        NormalizeStep::Ready(out) => {
            let info = parse_wav(&out).unwrap();
            assert_eq!(info.data_len, 200);
        },
        _ => panic!("16 kHz input must not be resampled"),
    }
}

#[test]
fn expected_length_is_rounded_half_away_from_zero() {
    let frames: Vec<Vec<i32>> = (0..100).map(|i| vec![i]).collect();
    let bytes = hound_wav(1, 8000, 16, &frames);
    match normalize_in_process(&bytes) {
        NormalizeStep::NeedsResample(job) => assert_eq!(job.expected_len, 200),
        _ => panic!("expected a resampling job"),
    }
    // 11025 frames at 22050 Hz: exactly 8000 out
    let frames: Vec<Vec<i32>> = (0..11025).map(|i| vec![i % 512]).collect();
    let bytes = hound_wav(1, 22050, 16, &frames);
    match normalize_in_process(&bytes) {
        NormalizeStep::NeedsResample(job) => assert_eq!(job.expected_len, 8000),
        _ => panic!("expected a resampling job"),
    }
    // 3 frames at 24000 Hz: 3 x 2/3 = 2
    let frames: Vec<Vec<i32>> = vec![vec![1], vec![2], vec![3]];
    let bytes = hound_wav(1, 24000, 16, &frames);
    match normalize_in_process(&bytes) {
        NormalizeStep::NeedsResample(job) => assert_eq!(job.expected_len, 2),
        _ => panic!("expected a resampling job"),
    }
}

#[test]
fn truncation_never_exceeds_the_expected_length() {
    let long: Vec<i16> = (0..500).map(|i| i as i16).collect();
    let out = finish_resampled(long, 100);
    let info = parse_wav(&out).unwrap();
    assert_eq!(info.data_len, 200);
    // shorter streams are kept, never padded
    let short: Vec<i16> = (0..40).map(|i| i as i16).collect();
    let out = finish_resampled(short, 100);
    let info = parse_wav(&out).unwrap();
    assert_eq!(info.data_len, 80);
}

fn hound_f32_wav(channels: u16, sample_rate: u32, samples: &[f32]) -> Vec<u8> {
    let spec = hound::WavSpec {
        channels,
        sample_rate,
        bits_per_sample: 32,
        sample_format: hound::SampleFormat::Float,
    };
    let mut cur = std::io::Cursor::new(Vec::new());
    {
        let mut w = hound::WavWriter::new(&mut cur, spec).unwrap();
        for &v in samples {
            w.write_sample(v).unwrap();
        }
        w.finalize().unwrap();
    }
    cur.into_inner()
}

#[test]
fn float_input_quantizes_exactly() {
    let samples = [
        0.0f32,
        1.0,
        -1.0,
        0.5,
        -0.5,
        2.0,
        -2.0,
        f32::NAN,
        f32::INFINITY,
        f32::NEG_INFINITY,
        0.25,
        -0.0,
        1.0e-40,
    ];
    let bytes = hound_f32_wav(1, 16000, &samples);
    match normalize_in_process(&bytes) {
        NormalizeStep::Ready(out) => {
            let mut cur = std::io::Cursor::new(out);
            let reader = hound::WavReader::new(&mut cur).unwrap();
            let got: Vec<i16> = reader.into_samples::<i16>().map(|s| s.unwrap()).collect();
            // out-of-range values clamp; NaN clamps the way the
            // float min/max chain clamps it, to the bottom
            let expected: Vec<i16> =
                vec![0, 32767, -32767, 16383, -16383, 32767, -32767, -32767, 32767, -32767, 8191,
                    0, 0];
            assert_eq!(got, expected);
        },
        _ => panic!("16 kHz float input converts in-process"),
    }
}

#[test]
fn float_input_resamples_like_integer_input() {
    let samples: Vec<f32> = (0..4410).map(|i| (i as f32 * 0.03).sin() * 0.8).collect();
    let bytes = hound_f32_wav(1, 44100, &samples);
    match normalize_in_process(&bytes) {
        NormalizeStep::NeedsResample(job) => {
            assert_eq!(job.source_rate, 44100);
            assert_eq!(job.expected_len, 1600);
            let out = resample_and_finish(job);
            assert!(is_valid_wav_format(&out));
        },
        _ => panic!("expected a resampling job"),
    }
}

#[test]
fn normalizing_twice_is_the_identity_after_the_first_pass() {
    let frames: Vec<Vec<i32>> = (0..300).map(|i| vec![i * 7 - 1000, i * 3]).collect();
    let bytes = hound_wav(2, 16000, 16, &frames);
    let first = match normalize_begin(bytes) {
        NormalizeStep::Ready(out) => out,
        _ => panic!("16 kHz stereo should finish in-process"),
    };
    assert!(is_valid_wav_format(&first));
    let again = first.clone();
    match normalize_begin(again) {
        NormalizeStep::Ready(out) => assert_eq!(out, first),
        _ => panic!("a canonical container passes through"),
    }
}

#[test]
fn malformed_container_falls_back() {
    let garbage: Vec<u8> = vec![1, 2, 3, 4, 5, 6, 7, 8];
    assert!(matches!(
        normalize_in_process(&garbage),
        NormalizeStep::Fallback(NormalizeError::MalformedContainer)
    ));
    // RIFF preamble but nothing else
    let mut truncated = b"RIFF\x00\x00\x00\x00WAVE".to_vec();
    assert!(matches!(
        normalize_in_process(&truncated),
        NormalizeStep::Fallback(NormalizeError::MalformedContainer)
    ));
    truncated.clear();
    assert!(!is_valid_wav_format(&truncated));
}

#[test]
fn unsupported_depth_falls_back() {
    let spec = hound::WavSpec {
        channels: 1,
        sample_rate: 16000,
        bits_per_sample: 8,
        sample_format: hound::SampleFormat::Int,
    };
    let mut cur = std::io::Cursor::new(Vec::new());
    {
        let mut w = hound::WavWriter::new(&mut cur, spec).unwrap();
        for i in 0..32 {
            w.write_sample(i as i8).unwrap();
        }
        w.finalize().unwrap();
    }
    let bytes = cur.into_inner();
    assert!(matches!(
        normalize_in_process(&bytes),
        NormalizeStep::Fallback(NormalizeError::UnsupportedSampleFormat { .. })
    ));
}

#[test]
fn extra_chunks_are_skipped() {
    // hand-built: RIFF + a LIST chunk before fmt and data
    let mut b: Vec<u8> = Vec::new();
    b.extend_from_slice(b"RIFF");
    b.extend_from_slice(&0u32.to_le_bytes());
    b.extend_from_slice(b"WAVE");
    b.extend_from_slice(b"LIST");
    b.extend_from_slice(&5u32.to_le_bytes());
    b.extend_from_slice(b"INFOx");
    b.push(0); // odd chunk sizes are padded to even
    b.extend_from_slice(b"fmt ");
    b.extend_from_slice(&16u32.to_le_bytes());
    b.extend_from_slice(&1u16.to_le_bytes());
    b.extend_from_slice(&1u16.to_le_bytes());
    b.extend_from_slice(&16000u32.to_le_bytes());
    b.extend_from_slice(&32000u32.to_le_bytes());
    b.extend_from_slice(&2u16.to_le_bytes());
    b.extend_from_slice(&16u16.to_le_bytes());
    b.extend_from_slice(b"data");
    b.extend_from_slice(&4u32.to_le_bytes());
    b.extend_from_slice(&[0x10, 0x00, 0xF0, 0xFF]);
    let info = parse_wav(&b).unwrap();
    assert_eq!(info.format_code, 1);
    assert_eq!(info.channels, 1);
    assert_eq!(info.sample_rate, 16000);
    assert_eq!(info.bits_per_sample, 16);
    assert_eq!(info.data_len, 4);
    assert!(is_valid_wav_format(&b));
}

#[test]
fn encoder_output_reads_back_through_hound() {
    let samples: Vec<i16> = vec![0, 1, -1, 32767, -32768, 1234];
    let bytes = encode_pcm16_wav(&samples);
    let mut cur = std::io::Cursor::new(bytes);
    let reader = hound::WavReader::new(&mut cur).unwrap();
    let spec = reader.spec();
    assert_eq!(spec.channels, 1);
    assert_eq!(spec.sample_rate, 16000);
    assert_eq!(spec.bits_per_sample, 16);
    assert_eq!(spec.sample_format, hound::SampleFormat::Int);
    let got: Vec<i16> = reader.into_samples::<i16>().map(|s| s.unwrap()).collect();
    assert_eq!(got, samples);
}

#[test]
fn tool_arguments_are_the_fixed_conversion_set() {
    let args = whispering::normalize::external_tool_args(
        &String::from("in.audio"),
        &String::from("out.wav"),
    );
    let strs: Vec<&str> = args.iter().map(|s| s.as_str()).collect();
    assert_eq!(
        strs,
        vec!["-i", "in.audio", "-ar", "16000", "-ac", "1", "-c:a", "pcm_s16le", "-y", "out.wav"]
    );
}

#[test]
fn missing_tool_is_a_distinct_error() {
    let e = whispering::normalize::classify_tool_failure(true, String::from("spawn failed"));
    assert!(matches!(
        e,
        whispering::errors::TranscriptionError::FfmpegNotFoundError { .. }
    ));
    let e = whispering::normalize::classify_tool_failure(false, String::from("spawn failed"));
    match e {
        whispering::errors::TranscriptionError::AudioReadError { message } => {
            assert_eq!(message, "Failed to run ffmpeg: spawn failed")
        },
        _ => panic!("launch failures that are not absence are audio-read errors"),
    }
}

#[test]
fn normalize_errors_map_to_audio_read_errors() {
    let e = NormalizeError::MalformedContainer.to_transcription_error();
    match e {
        whispering::errors::TranscriptionError::AudioReadError { message } => {
            assert_eq!(message, "failed to parse WAV container")
        },
        _ => panic!("normalization failures surface as audio-read errors"),
    }
    let m = whispering::errors::TranscriptionError::GpuError {
        message: String::from("no device"),
    }
    .message();
    assert_eq!(m, "GPU error: no device");
}
