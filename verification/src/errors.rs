//! Error taxonomy: what each subsystem can report and when.

use vstd::prelude::*;
use vstd::string::*;

verus! {

/// Why in-process normalization cannot handle an input.
#[derive(Clone, Copy, Debug, PartialEq, Eq, Structural)]
pub enum NormalizeError {
    /// The bytes do not parse as a WAV container.
    MalformedContainer,
    /// The container parses but its sample encoding is not one the
    /// in-process path decodes.
    UnsupportedSampleFormat { format_code: u16, bits_per_sample: u16 },
    /// Resampling from this rate is outside the supported envelope:
    /// the ratio to 16 kHz would exceed 8 or fall below 1/8.
    SampleRateOutOfRange { sample_rate: u32 },
    /// The output would not fit the container's 32-bit size fields.
    TooLarge,
}

/// Errors surfaced by transcription-side audio handling.
#[derive(Debug)]
pub enum TranscriptionError {
    AudioReadError { message: String },
    FfmpegNotFoundError { message: String },
    GpuError { message: String },
    ModelLoadError { message: String },
    TranscriptionError { message: String },
}

impl TranscriptionError {
    /// The human-readable description of this error.
    pub fn message(&self) -> (r: String)
        ensures
            match self {
                TranscriptionError::AudioReadError { message } => r@ == "Audio read error: "@
                    + message@,
                TranscriptionError::FfmpegNotFoundError { message } => r@ == "FFmpeg not found: "@
                    + message@,
                TranscriptionError::GpuError { message } => r@ == "GPU error: "@ + message@,
                TranscriptionError::ModelLoadError { message } => r@ == "Model load error: "@
                    + message@,
                TranscriptionError::TranscriptionError { message } => r@
                    == "Transcription error: "@ + message@,
            },
    {
        match self {
            TranscriptionError::AudioReadError { message } => String::from_str(
                "Audio read error: ",
            ).concat(message.as_str()),
            TranscriptionError::FfmpegNotFoundError { message } => String::from_str(
                "FFmpeg not found: ",
            ).concat(message.as_str()),
            TranscriptionError::GpuError { message } => String::from_str("GPU error: ").concat(
                message.as_str(),
            ),
            TranscriptionError::ModelLoadError { message } => String::from_str(
                "Model load error: ",
            ).concat(message.as_str()),
            TranscriptionError::TranscriptionError { message } => String::from_str(
                "Transcription error: ",
            ).concat(message.as_str()),
        }
    }
}

impl NormalizeError {
    /// The matching transcription-side error: every in-process
    /// normalization failure surfaces as an audio-read error, with a
    /// description of the cause.
    pub fn to_transcription_error(&self) -> (r: TranscriptionError)
        ensures
            match r {
                TranscriptionError::AudioReadError { message } => match self {
                    NormalizeError::MalformedContainer => message@
                        == "failed to parse WAV container"@,
                    NormalizeError::UnsupportedSampleFormat { .. } => message@
                        == "unsupported sample format"@,
                    NormalizeError::SampleRateOutOfRange { .. } => message@
                        == "sample rate outside supported resampling range"@,
                    NormalizeError::TooLarge => message@ == "audio too large to re-encode"@,
                },
                _ => false,
            },
    {
        match self {
            NormalizeError::MalformedContainer => TranscriptionError::AudioReadError {
                message: String::from_str("failed to parse WAV container"),
            },
            NormalizeError::UnsupportedSampleFormat { .. } => TranscriptionError::AudioReadError {
                message: String::from_str("unsupported sample format"),
            },
            NormalizeError::SampleRateOutOfRange { .. } => TranscriptionError::AudioReadError {
                message: String::from_str("sample rate outside supported resampling range"),
            },
            NormalizeError::TooLarge => TranscriptionError::AudioReadError {
                message: String::from_str("audio too large to re-encode"),
            },
        }
    }
}

/// Errors of the whisper.cpp transcription path.
#[derive(Debug)]
pub enum WhisperCppError {
    AudioFormatNotSupported,
    AudioReadError { message: String },
    ModelLoadError { message: String },
    GpuError { message: String },
    TranscriptionError { message: String },
    StateCreationError { message: String },
    SegmentError { message: String },
}

impl WhisperCppError {
    /// The human-readable description of this error.
    pub fn message(&self) -> (r: String)
        ensures
            match self {
                WhisperCppError::AudioFormatNotSupported => r@
                    == "Audio format not supported. WhisperCpp requires WAV files."@,
                WhisperCppError::AudioReadError { message } => r@ == "Failed to read audio: "@
                    + message@,
                WhisperCppError::ModelLoadError { message } => r@ == "Failed to load model: "@
                    + message@,
                WhisperCppError::GpuError { message } => r@ == "GPU acceleration failed: "@
                    + message@,
                WhisperCppError::TranscriptionError { message } => r@ == "Transcription failed: "@
                    + message@,
                WhisperCppError::StateCreationError { message } => r@
                    == "Failed to create state: "@ + message@,
                WhisperCppError::SegmentError { message } => r@ == "Failed to get segments: "@
                    + message@,
            },
    {
        match self {
            WhisperCppError::AudioFormatNotSupported => String::from_str(
                "Audio format not supported. WhisperCpp requires WAV files.",
            ),
            WhisperCppError::AudioReadError { message } => String::from_str(
                "Failed to read audio: ",
            ).concat(message.as_str()),
            WhisperCppError::ModelLoadError { message } => String::from_str(
                "Failed to load model: ",
            ).concat(message.as_str()),
            WhisperCppError::GpuError { message } => String::from_str(
                "GPU acceleration failed: ",
            ).concat(message.as_str()),
            WhisperCppError::TranscriptionError { message } => String::from_str(
                "Transcription failed: ",
            ).concat(message.as_str()),
            WhisperCppError::StateCreationError { message } => String::from_str(
                "Failed to create state: ",
            ).concat(message.as_str()),
            WhisperCppError::SegmentError { message } => String::from_str(
                "Failed to get segments: ",
            ).concat(message.as_str()),
        }
    }
}

/// The one failure archive extraction reports.
#[derive(Debug)]
pub enum ArchiveExtractionError {
    ArchiveExtractionError { message: String },
}

impl ArchiveExtractionError {
    /// The human-readable description of this error.
    pub fn message(&self) -> (r: String)
        ensures
            match self {
                ArchiveExtractionError::ArchiveExtractionError { message } => r@
                    == "Archive extraction failed: "@ + message@,
            },
    {
        match self {
            ArchiveExtractionError::ArchiveExtractionError { message } => String::from_str(
                "Archive extraction failed: ",
            ).concat(message.as_str()),
        }
    }
}

/// Outcome of delivering an interrupt signal to a process.
#[derive(Debug)]
pub struct SignalResult {
    pub success: bool,
    pub message: String,
}

/// Why a capture operation failed.
#[derive(Clone, Copy, Debug, PartialEq, Eq, Structural)]
pub enum RecorderError {
    /// `start` was called with no initialized session.
    NoSession,
    /// The device reports no supported input configuration at all.
    NoSupportedConfiguration,
}

} // verus!
