//! Tests of the progressive WAV writer and the capture session state
//! machine.

use whispering::recorder::RecorderState;
use whispering::wav_writer::WavWriter;

fn le32(b: &[u8], p: usize) -> u32 {
    u32::from_le_bytes([b[p], b[p + 1], b[p + 2], b[p + 3]])
}

fn f32_bytes(samples: &[f32]) -> Vec<u8> {
    let mut out = Vec::new();
    for s in samples {
        out.extend_from_slice(&s.to_le_bytes());
    }
    out
}

#[test]
fn finalize_writes_exact_sizes_and_duration() {
    let mut w = WavWriter::new(16000, 1, String::from("r.wav"), 0);
    // one second of audio, written in two bursts
    w.write_samples(&f32_bytes(&vec![0.25f32; 6000]), 0);
    w.write_samples(&f32_bytes(&vec![-0.5f32; 10000]), 10);
    w.finalize();
    let img = w.file_bytes();
    assert_eq!(img.len(), 44 + 4 * 16000);
    assert_eq!(le32(img, 40), 4 * 16000);
    assert_eq!(le32(img, 4), 36 + 4 * 16000);
    assert_eq!(le32(img, 4) as usize + 8, img.len());
    assert_eq!(w.duration_millis(), 1000);
    let (rate, ch, dur) = w.get_metadata();
    assert_eq!((rate, ch, dur), (16000, 1, 1000));
}

#[test]
fn finalize_is_idempotent() {
    let mut w = WavWriter::new(44100, 2, String::from("s.wav"), 0);
    w.write_samples(&f32_bytes(&vec![0.125f32; 441]), 0);
    w.finalize();
    let first = w.file_bytes().clone();
    w.finalize();
    let second = w.file_bytes().clone();
    assert_eq!(first, second);
}

#[test]
fn header_rewrite_waits_a_full_second() {
    let mut w = WavWriter::new(8000, 1, String::from("t.wav"), 0);
    w.write_samples(&f32_bytes(&[0.5f32, 0.5]), 999);
    // not yet: the placeholder sizes still stand
    assert_eq!(le32(w.file_bytes(), 40), 0xFFFFFFFF);
    assert_eq!(le32(w.file_bytes(), 4), 0xFFFFFFFF);
    w.write_samples(&f32_bytes(&[0.5f32]), 1000);
    // a second has passed: the header now declares the data so far
    assert_eq!(le32(w.file_bytes(), 40), 12);
    assert_eq!(le32(w.file_bytes(), 4), 48);
}

#[test]
fn writer_image_reads_back_through_hound() {
    let samples = [0.0f32, 0.5, -0.5, 1.0, -1.0, 0.25];
    let mut w = WavWriter::new(48000, 2, String::from("u.wav"), 0);
    w.write_samples(&f32_bytes(&samples), 0);
    w.finalize();
    let mut cur = std::io::Cursor::new(w.file_bytes().clone());
    let reader = hound::WavReader::new(&mut cur).unwrap();
    let spec = reader.spec();
    assert_eq!(spec.channels, 2);
    assert_eq!(spec.sample_rate, 48000);
    assert_eq!(spec.bits_per_sample, 32);
    assert_eq!(spec.sample_format, hound::SampleFormat::Float);
    let got: Vec<f32> = reader.into_samples::<f32>().map(|s| s.unwrap()).collect();
    assert_eq!(got, samples);
}

#[test]
fn stop_keeps_the_session_writer_as_initialized() {
    let mut rec = RecorderState::new();
    rec.init_session(22050, 2, &String::from("out"), String::from("keep"), 0);
    rec.start_recording().unwrap();
    rec.write_samples(&f32_bytes(&[0.1f32; 441]), 0);
    let info = rec.stop_recording();
    assert_eq!(info.sample_rate, 22050);
    assert_eq!(info.channels, 2);
    assert_eq!(info.duration_millis, 441 * 1000 / (22050 * 2));
    // the surviving writer still carries the session's identity: the
    // image a later close flushes declares the same configuration
    let (path, image) = rec.close_session().expect("session stays open across stop");
    assert_eq!(path, "out/keep.wav");
    let info2 = whispering::wav::parse_wav(&image).unwrap();
    assert_eq!(info2.sample_rate, 22050);
    assert_eq!(info2.channels, 2);
    assert_eq!(info2.data_len, 4 * 441);
}

#[test]
fn recorder_write_updates_the_header_once_a_second() {
    let mut rec = RecorderState::new();
    rec.init_session(8000, 1, &String::from("d"), String::from("tick"), 0);
    rec.start_recording().unwrap();
    rec.write_samples(&f32_bytes(&[0.5f32, 0.5]), 999);
    {
        let w = &rec.session.as_ref().unwrap().writer;
        // within the first second the placeholder sizes still stand
        assert_eq!(le32(w.file_bytes(), 40), 0xFFFFFFFF);
    }
    rec.write_samples(&f32_bytes(&[0.5f32]), 1000);
    {
        let w = &rec.session.as_ref().unwrap().writer;
        assert_eq!(le32(w.file_bytes(), 40), 12);
        assert_eq!(le32(w.file_bytes(), 4), 48);
    }
}

#[test]
fn session_records_only_while_armed() {
    let mut rec = RecorderState::new();
    assert!(rec.init_session(16000, 1, &String::from("out"), String::from("take1"), 0).is_none());
    // not armed yet: callback data is dropped
    rec.write_samples(&f32_bytes(&[0.1f32; 100]), 0);
    assert!(rec.start_recording().is_ok());
    rec.write_samples(&f32_bytes(&[0.2f32; 300]), 0);
    let info = rec.stop_recording();
    assert_eq!(info.sample_rate, 16000);
    assert_eq!(info.channels, 1);
    // 300 samples of the armed burst only
    assert_eq!(info.duration_millis, 300 * 1000 / 16000);
    assert_eq!(info.file_path.as_deref(), Some("out/take1.wav"));
}

#[test]
fn start_without_session_fails() {
    let mut rec = RecorderState::new();
    assert!(rec.start_recording().is_err());
    let info = rec.stop_recording();
    assert_eq!(info.sample_rate, 0);
    assert_eq!(info.channels, 0);
    assert_eq!(info.duration_millis, 0);
    assert!(info.file_path.is_none());
}

#[test]
fn cancel_clears_the_session_and_names_the_file() {
    let mut rec = RecorderState::new();
    rec.init_session(16000, 1, &String::from("dir"), String::from("r9"), 0);
    rec.start_recording().unwrap();
    rec.write_samples(&f32_bytes(&[0.3f32; 50]), 0);
    assert_eq!(rec.get_current_recording_id(), Some(String::from("r9")));
    let doomed = rec.cancel_recording();
    // the caller deletes this file, best-effort
    assert_eq!(doomed.as_deref(), Some("dir/r9.wav"));
    // no session state remains
    assert!(rec.get_current_recording_id().is_none());
    assert!(rec.start_recording().is_err());
    assert!(rec.cancel_recording().is_none());
}

#[test]
fn init_tears_down_the_previous_session() {
    let mut rec = RecorderState::new();
    rec.init_session(16000, 1, &String::from("d"), String::from("a"), 0);
    rec.start_recording().unwrap();
    rec.write_samples(&f32_bytes(&[0.5f32; 8]), 0);
    let remains = rec.init_session(48000, 2, &String::from("d"), String::from("b"), 5);
    let (path, image) = remains.expect("the first session's remains come back");
    assert_eq!(path, "d/a.wav");
    // the remains are finalized: sizes match the eight samples
    assert_eq!(le32(&image, 40), 32);
    assert_eq!(image.len(), 44 + 32);
    // and the new session is fresh
    let info = rec.stop_recording();
    assert_eq!(info.sample_rate, 48000);
    assert_eq!(info.channels, 2);
    assert_eq!(info.duration_millis, 0);
    assert_eq!(info.file_path.as_deref(), Some("d/b.wav"));
}

#[test]
fn close_session_returns_the_finalized_image() {
    let mut rec = RecorderState::new();
    rec.init_session(8000, 1, &String::from("x"), String::from("c"), 0);
    rec.start_recording().unwrap();
    rec.write_samples(&f32_bytes(&[1.0f32; 3]), 0);
    let (path, image) = rec.close_session().expect("a session was open");
    assert_eq!(path, "x/c.wav");
    assert_eq!(le32(&image, 40), 12);
    assert_eq!(le32(&image, 4), 48);
    assert!(rec.close_session().is_none());
}
