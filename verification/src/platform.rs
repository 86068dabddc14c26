//! Platform-dependent reporting and the small decisions around
//! loading a whisper.cpp model.

use vstd::prelude::*;
use vstd::string::*;
use crate::errors::WhisperCppError;
use crate::command_line::is_space;

verus! {

/// Which platform the process runs on; the caller determines it at
/// build time.
#[derive(Clone, Copy, Debug, PartialEq, Eq, Structural)]
pub enum Platform {
    Windows,
    MacOs,
    Linux,
    Other,
}

/// What GPU backend a platform is expected to use.
#[derive(Debug)]
pub struct GpuInfo {
    pub platform: String,
    pub expected_backend: String,
    pub gpu_enabled_in_settings: bool,
}

/// The expected GPU backend for the platform, and whether GPU use is
/// enabled in settings.
pub fn get_gpu_info(platform: Platform, use_gpu: bool) -> (r: GpuInfo)
    ensures
        r.gpu_enabled_in_settings == use_gpu,
        match platform {
            Platform::Windows => r.platform@ == "Windows"@ && r.expected_backend@
                == "CUDA (NVIDIA GPU)"@,
            Platform::MacOs => r.platform@ == "macOS"@ && r.expected_backend@
                == "Metal/CoreML (Apple Silicon)"@,
            Platform::Linux => r.platform@ == "Linux"@ && r.expected_backend@
                == "CUDA (NVIDIA GPU)"@,
            Platform::Other => r.platform@ == "Unknown"@ && r.expected_backend@ == "CPU only"@,
        },
{
    match platform {
        Platform::Windows => GpuInfo {
            platform: String::from_str("Windows"),
            expected_backend: String::from_str("CUDA (NVIDIA GPU)"),
            gpu_enabled_in_settings: use_gpu,
        },
        Platform::MacOs => GpuInfo {
            platform: String::from_str("macOS"),
            expected_backend: String::from_str("Metal/CoreML (Apple Silicon)"),
            gpu_enabled_in_settings: use_gpu,
        },
        Platform::Linux => GpuInfo {
            platform: String::from_str("Linux"),
            expected_backend: String::from_str("CUDA (NVIDIA GPU)"),
            gpu_enabled_in_settings: use_gpu,
        },
        Platform::Other => GpuInfo {
            platform: String::from_str("Unknown"),
            expected_backend: String::from_str("CPU only"),
            gpu_enabled_in_settings: use_gpu,
        },
    }
}

/// Whether a failed first model-load attempt warrants a second try
/// on the CPU: only when the GPU was asked for in the first place.
pub fn retry_on_cpu(use_gpu: bool) -> (r: bool)
    ensures
        r == use_gpu,
{
    use_gpu
}

/// The error to report when loading a whisper.cpp model failed for
/// good: after a GPU attempt with CPU fallback both backends failed;
/// a plain CPU attempt reports the load error it hit.
pub fn whisper_load_error(use_gpu: bool, first_error: String) -> (r: WhisperCppError)
    ensures
        use_gpu ==> (r matches WhisperCppError::ModelLoadError { message } && message@
            == "Failed to load model (GPU and CPU both failed)"@),
        !use_gpu ==> (r matches WhisperCppError::ModelLoadError { message } && message@
            == first_error@),
{
    if use_gpu {
        WhisperCppError::ModelLoadError {
            message: String::from_str("Failed to load model (GPU and CPU both failed)"),
        }
    } else {
        WhisperCppError::ModelLoadError { message: first_error }
    }
}

/// The language to pass a transcription engine: a requested language
/// is honored unless it is empty or the automatic-detection marker.
pub fn effective_language(language: Option<String>) -> (r: Option<String>)
    ensures
        match language {
            Option::None => r is None,
            Option::Some(l) => {
                if l@.len() > 0 && l@ != "auto"@ {
                    r matches Some(x) && x@ == l@
                } else {
                    r is None
                }
            },
        },
{
    match language {
        Option::None => Option::None,
        Option::Some(l) => {
            let auto_marker = String::from_str("auto");
            if l.as_str().unicode_len() > 0 && !l.eq(&auto_marker) {
                Option::Some(l)
            } else {
                Option::None
            }
        },
    }
}

/// Whether a prompt holds anything besides whitespace, and so should
/// be handed to the engine.
pub fn prompt_has_content(prompt: &String) -> (r: bool)
    ensures
        r == exists|i: int| 0 <= i < prompt@.len() && !is_space(#[trigger] prompt@[i]),
{
    let s: &str = prompt.as_str();
    let n: usize = s.unicode_len();
    let mut i: usize = 0;
    while i < n
        invariant
            i <= n,
            n == s@.len(),
            s@ == prompt@,
            forall|j: int| 0 <= j < i ==> is_space(#[trigger] prompt@[j]),
        decreases n - i,
    {
        let c = s.get_char(i);
        let sp = c == '\u{0009}' || c == '\u{000A}' || c == '\u{000B}' || c == '\u{000C}' || c
            == '\u{000D}' || c == ' ' || c == '\u{0085}' || c == '\u{00A0}' || c == '\u{1680}' || (
        '\u{2000}' <= c && c <= '\u{200A}') || c == '\u{2028}' || c == '\u{2029}' || c == '\u{202F}'
            || c == '\u{205F}' || c == '\u{3000}';
        if !sp {
            return true;
        }
        i = i + 1;
    }
    false
}

/// On platforms other than Windows, the process environment needs no
/// repair before spawning external tools: this does nothing. (On
/// Windows the caller re-sets the inherited search path around
/// process creation.)
pub fn fix_windows_path() {
}

} // verus!
