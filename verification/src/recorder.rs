//! The capture session state machine.
//!
//! A session wires a resolved device configuration to a progressive
//! WAV writer. The session is idle until initialized, records only
//! while the armed flag is set, and always tears down through the
//! same path: disarm, finalize the writer, clear the state. The audio
//! callback hands sample bytes to `write_samples`, which persists
//! them only while armed. Everything that touches the host (device
//! resolution, the stream thread, the file on disk) lives with the
//! caller, which persists the writer's byte image.

use vstd::prelude::*;
use vstd::string::*;
use crate::errors::RecorderError;
use crate::wav_writer::{WavWriter, HEADER_UPDATE_INTERVAL_MS, MAX_CAPTURE_SAMPLES};

verus! {

/// How often the stream-owning thread wakes to check for its stop
/// signal.
pub const STREAM_POLL_INTERVAL_MS: u64 = 100;

/// Metadata returned when a recording stops.
pub struct AudioRecording {
    pub sample_rate: u32,
    pub channels: u16,
    pub duration_millis: u64,
    pub file_path: Option<String>,
}

/// One initialized capture session: its writer and identity.
pub struct Session {
    pub writer: WavWriter,
    pub recording_id: String,
}

/// The recorder: at most one session, and the armed flag that gates
/// whether callback samples are persisted.
pub struct RecorderState {
    pub session: Option<Session>,
    pub armed: bool,
}

/// The output path of a recording: `<folder>/<recording_id>.wav`.
pub open spec fn spec_output_path(folder: Seq<char>, id: Seq<char>) -> Seq<char> {
    folder + "/"@ + id + ".wav"@
}

/// Build the output path `<folder>/<recording_id>.wav`.
pub fn make_output_path(folder: &String, id: &String) -> (r: String)
    ensures
        r@ == spec_output_path(folder@, id@),
{
    folder.clone().concat("/").concat(id.as_str()).concat(".wav")
}

impl RecorderState {
    /// The writer of an initialized session is well-formed.
    pub open spec fn wf(self) -> bool {
        match self.session {
            Option::Some(s) => s.writer.wf(),
            Option::None => true,
        }
    }

    /// An idle recorder: no session, not armed.
    pub fn new() -> (r: RecorderState)
        ensures
            r.wf(),
            r.session is None,
            !r.armed,
    {
        RecorderState { session: Option::None, armed: false }
    }

    /// Tear the session down: disarm, finalize the writer, clear the
    /// state. Returns the output path and the finalized byte image
    /// for the caller to flush, best-effort. Idempotent: with no
    /// session it only disarms.
    pub fn close_session(&mut self) -> (r: Option<(String, Vec<u8>)>)
        requires
            old(self).wf(),
        ensures
            final(self).wf(),
            final(self).session is None,
            !final(self).armed,
            match old(self).session {
                Option::None => r is None,
                Option::Some(s) => r matches Some((path, image)) && path@ == s.writer.file_path@
                    && image@ == s.writer.spec_header_with(
                    (36 + 4 * s.writer.samples_written) as u32,
                    (4 * s.writer.samples_written) as u32,
                ) + s.writer.data_bytes(),
            },
    {
        self.armed = false;
        let taken = self.session.take();
        match taken {
            Option::None => Option::None,
            Option::Some(s) => {
                let mut writer = s.writer;
                writer.finalize();
                let path = writer.get_file_path().clone();
                let image = writer.file_bytes().clone();
                proof {
                    assert(image@ =~= writer.spec_header_with(
                        writer.declared_riff,
                        writer.declared_data,
                    ) + writer.data_bytes());
                }
                Option::Some((path, image))
            },
        }
    }

    /// Initialize a session for an already-resolved configuration: a
    /// fresh writer at `<folder>/<recording_id>.wav`, disarmed. A
    /// prior session is torn down first, exactly as `close_session`
    /// does, and its remains are returned for the caller to flush.
    pub fn init_session(
        &mut self,
        sample_rate: u32,
        channels: u16,
        output_folder: &String,
        recording_id: String,
        now_ms: u64,
    ) -> (r: Option<(String, Vec<u8>)>)
        requires
            old(self).wf(),
            sample_rate >= 1,
            channels >= 1,
            channels <= 0x3FFF,
            sample_rate * channels <= 0x3FFFFFFF,
        ensures
            final(self).wf(),
            !final(self).armed,
            final(self).session matches Some(s) && {
                &&& s.recording_id@ == recording_id@
                &&& s.writer.sample_rate == sample_rate
                &&& s.writer.channels == channels
                &&& s.writer.samples_written == 0
                &&& s.writer.file_path@ == spec_output_path(output_folder@, recording_id@)
                &&& s.writer.last_header_update_ms == now_ms
            },
            match old(self).session {
                Option::None => r is None,
                Option::Some(s) => r matches Some((path, image)) && path@ == s.writer.file_path@
                    && image@ == s.writer.spec_header_with(
                    (36 + 4 * s.writer.samples_written) as u32,
                    (4 * s.writer.samples_written) as u32,
                ) + s.writer.data_bytes(),
            },
    {
        let remains = self.close_session();
        let path = make_output_path(output_folder, &recording_id);
        let writer = WavWriter::new(sample_rate, channels, path, now_ms);
        self.session = Option::Some(Session { writer, recording_id });
        remains
    }

    /// Arm the recorder. Fails when no session is initialized.
    pub fn start_recording(&mut self) -> (r: Result<(), RecorderError>)
        requires
            old(self).wf(),
        ensures
            final(self).wf(),
            final(self).session == old(self).session,
            match old(self).session {
                Option::None => r == Result::<(), RecorderError>::Err(RecorderError::NoSession)
                    && final(self).armed == old(self).armed,
                Option::Some(_) => r is Ok && final(self).armed,
            },
    {
        if self.session.is_some() {
            self.armed = true;
            Result::Ok(())
        } else {
            Result::Err(RecorderError::NoSession)
        }
    }

    /// Hand callback samples (already encoded as 32-bit float bytes)
    /// to the writer. Only an armed, initialized session persists
    /// anything; otherwise the recorder is left untouched.
    pub fn write_samples(&mut self, sample_bytes: &Vec<u8>, now_ms: u64)
        requires
            old(self).wf(),
            sample_bytes@.len() % 4 == 0,
            old(self).session matches Some(s) ==> {
                &&& s.writer.samples_written + sample_bytes@.len() / 4 <= MAX_CAPTURE_SAMPLES
                &&& s.writer.last_header_update_ms <= now_ms
            },
        ensures
            final(self).wf(),
            final(self).armed == old(self).armed,
            !old(self).armed ==> *final(self) == *old(self),
            old(self).armed ==> match old(self).session {
                Option::None => *final(self) == *old(self),
                Option::Some(s) => {
                    &&& final(self).session matches Some(s2)
                    &&& s2.recording_id == s.recording_id
                    &&& s2.writer.samples_written == s.writer.samples_written
                        + sample_bytes@.len() / 4
                    &&& s2.writer.data_bytes() == s.writer.data_bytes() + sample_bytes@
                    &&& s2.writer.sample_rate == s.writer.sample_rate
                    &&& s2.writer.channels == s.writer.channels
                    &&& s2.writer.file_path == s.writer.file_path
                    &&& now_ms - s.writer.last_header_update_ms >= HEADER_UPDATE_INTERVAL_MS
                        ==> {
                        &&& s2.writer.declared_data == 4 * s2.writer.samples_written
                        &&& s2.writer.declared_riff == 36 + 4 * s2.writer.samples_written
                        &&& s2.writer.last_header_update_ms == now_ms
                    }
                    &&& now_ms - s.writer.last_header_update_ms < HEADER_UPDATE_INTERVAL_MS
                        ==> {
                        &&& s2.writer.declared_data == s.writer.declared_data
                        &&& s2.writer.declared_riff == s.writer.declared_riff
                        &&& s2.writer.last_header_update_ms == s.writer.last_header_update_ms
                    }
                },
            },
    {
        if !self.armed {
            return ;
        }
        match &mut self.session {
            Option::Some(s) => {
                s.writer.write_samples(sample_bytes, now_ms);
            },
            Option::None => {},
        }
    }

    /// Stop recording: disarm, finalize the writer, and report what
    /// was captured. With no session the metadata is empty, as there
    /// is nothing to finalize. The session stays open; closing it is
    /// a separate step.
    pub fn stop_recording(&mut self) -> (r: AudioRecording)
        requires
            old(self).wf(),
        ensures
            final(self).wf(),
            !final(self).armed,
            match old(self).session {
                Option::None => {
                    &&& final(self).session is None
                    &&& r.sample_rate == 0
                    &&& r.channels == 0
                    &&& r.duration_millis == 0
                    &&& r.file_path is None
                },
                Option::Some(s) => {
                    &&& final(self).session matches Some(s2)
                    &&& s2.recording_id == s.recording_id
                    &&& s2.writer.sample_rate == s.writer.sample_rate
                    &&& s2.writer.channels == s.writer.channels
                    &&& s2.writer.file_path == s.writer.file_path
                    &&& s2.writer.samples_written == s.writer.samples_written
                    &&& s2.writer.data_bytes() == s.writer.data_bytes()
                    &&& s2.writer.declared_data == 4 * s.writer.samples_written
                    &&& s2.writer.declared_riff == 36 + 4 * s.writer.samples_written
                    &&& r.sample_rate == s.writer.sample_rate
                    &&& r.channels == s.writer.channels
                    &&& r.duration_millis == s.writer.spec_duration_ms()
                    &&& r.file_path matches Some(p) && p@ == s.writer.file_path@
                },
            },
    {
        self.armed = false;
        match &mut self.session {
            Option::Some(s) => {
                s.writer.finalize();
                let (rate, ch, dur) = s.writer.get_metadata();
                AudioRecording {
                    sample_rate: rate,
                    channels: ch,
                    duration_millis: dur,
                    file_path: Option::Some(s.writer.get_file_path().clone()),
                }
            },
            Option::None => AudioRecording {
                sample_rate: 0,
                channels: 0,
                duration_millis: 0,
                file_path: Option::None,
            },
        }
    }

    /// Cancel the recording: disarm, clear the session, and hand back
    /// the output path so the caller can delete the file, best-effort.
    pub fn cancel_recording(&mut self) -> (r: Option<String>)
        requires
            old(self).wf(),
        ensures
            final(self).wf(),
            final(self).session is None,
            !final(self).armed,
            match old(self).session {
                Option::None => r is None,
                Option::Some(s) => r matches Some(path) && path@ == s.writer.file_path@,
            },
    {
        self.armed = false;
        let taken = self.session.take();
        match taken {
            Option::None => Option::None,
            Option::Some(s) => Option::Some(s.writer.get_file_path().clone()),
        }
    }

    /// The identity of the recording in progress: only while armed.
    pub fn get_current_recording_id(&self) -> (r: Option<String>)
        ensures
            match (self.armed, &self.session) {
                (true, Option::Some(s)) => r matches Some(id) && id@ == s.recording_id@,
                _ => r is None,
            },
    {
        if self.armed {
            match &self.session {
                Option::Some(s) => Option::Some(s.recording_id.clone()),
                Option::None => Option::None,
            }
        } else {
            Option::None
        }
    }
}

} // verus!
