//! Tests of command-string parsing, engine bookkeeping, and the
//! platform helpers.

use whispering::command_line::parse_command;
use whispering::model_manager::{EngineKind, LoadPlan, ModelManager};
use whispering::platform::{
    effective_language, fix_windows_path, get_gpu_info, prompt_has_content, retry_on_cpu,
    whisper_load_error, Platform,
};

fn parsed(cmd: &str) -> (String, Vec<String>) {
    parse_command(&String::from(cmd))
}

#[test]
fn plain_command_splits_on_whitespace() {
    let (prog, args) = parsed("ffmpeg -version");
    assert_eq!(prog, "ffmpeg");
    assert_eq!(args, vec!["-version"]);
    let (prog, args) = parsed("  ffmpeg   -i  a.wav   b.mp3  ");
    assert_eq!(prog, "ffmpeg");
    assert_eq!(args, vec!["-i", "a.wav", "b.mp3"]);
}

#[test]
fn quoted_arguments_keep_their_spaces() {
    let (prog, args) = parsed("ffmpeg -i \"my file.wav\" out.mp3");
    assert_eq!(prog, "ffmpeg");
    assert_eq!(args, vec!["-i", "my file.wav", "out.mp3"]);
}

#[test]
fn quotes_inside_a_token_stay() {
    // the quoted span glues to its neighbours; only the token's end
    // quotes are stripped, and these ends are not quotes
    let (prog, args) = parsed("a\"b c\"d x");
    assert_eq!(prog, "a\"b c\"d");
    assert_eq!(args, vec!["x"]);
}

#[test]
fn unclosed_quote_starts_no_token() {
    let (prog, args) = parsed("ab \"cd ef");
    assert_eq!(prog, "ab");
    assert_eq!(args, vec!["cd", "ef"]);
}

#[test]
fn empty_command_yields_empty_program() {
    let (prog, args) = parsed("");
    assert_eq!(prog, "");
    assert!(args.is_empty());
    let (prog, args) = parsed("   \t  ");
    assert_eq!(prog, "");
    assert!(args.is_empty());
}

#[test]
fn empty_quoted_token_is_an_empty_string() {
    let (prog, args) = parsed("\"\" x");
    assert_eq!(prog, "");
    assert_eq!(args, vec!["x"]);
}

#[test]
fn load_plans_follow_what_is_loaded() {
    let mut m = ModelManager::new(0);
    let path_a = String::from("/models/a.bin");
    let path_b = String::from("/models/b.bin");
    assert_eq!(m.plan_load(EngineKind::Whisper, &path_a), LoadPlan::LoadFresh);
    m.note_loaded(EngineKind::Whisper, path_a.clone(), 10);
    assert_eq!(m.plan_load(EngineKind::Whisper, &path_a), LoadPlan::Reuse);
    assert_eq!(m.plan_load(EngineKind::Whisper, &path_b), LoadPlan::UnloadThenLoad);
    assert_eq!(m.plan_load(EngineKind::Parakeet, &path_a), LoadPlan::UnloadThenLoad);
    m.note_unloaded();
    assert_eq!(m.plan_load(EngineKind::Parakeet, &path_a), LoadPlan::LoadFresh);
}

#[test]
fn idle_unload_fires_strictly_after_the_timeout() {
    let mut m = ModelManager::new(0);
    // with nothing loaded there is nothing to unload
    assert!(!m.should_unload_idle(1000000));
    m.note_loaded(EngineKind::Parakeet, String::from("p"), 0);
    assert!(!m.should_unload_idle(300000));
    assert!(m.should_unload_idle(300001));
    m.note_activity(300000);
    assert!(!m.should_unload_idle(600000));
    assert!(m.should_unload_idle(600001));
}

#[test]
fn gpu_info_names_the_expected_backend() {
    let info = get_gpu_info(Platform::Windows, true);
    assert_eq!(info.platform, "Windows");
    assert_eq!(info.expected_backend, "CUDA (NVIDIA GPU)");
    assert!(info.gpu_enabled_in_settings);
    let info = get_gpu_info(Platform::MacOs, false);
    assert_eq!(info.platform, "macOS");
    assert_eq!(info.expected_backend, "Metal/CoreML (Apple Silicon)");
    assert!(!info.gpu_enabled_in_settings);
    let info = get_gpu_info(Platform::Linux, true);
    assert_eq!(info.platform, "Linux");
    let info = get_gpu_info(Platform::Other, false);
    assert_eq!(info.expected_backend, "CPU only");
}

#[test]
fn gpu_failures_retry_on_cpu_once() {
    assert!(retry_on_cpu(true));
    assert!(!retry_on_cpu(false));
    match whisper_load_error(true, String::from("first")) {
        whispering::errors::WhisperCppError::ModelLoadError { message } => {
            assert_eq!(message, "Failed to load model (GPU and CPU both failed)")
        },
        _ => panic!("model-load failures report as such"),
    }
    match whisper_load_error(false, String::from("first")) {
        whispering::errors::WhisperCppError::ModelLoadError { message } => {
            assert_eq!(message, "first")
        },
        _ => panic!("model-load failures report as such"),
    }
}

#[test]
fn language_and_prompt_gates_follow_the_engine_rules() {
    assert_eq!(effective_language(None), None);
    assert_eq!(effective_language(Some(String::from(""))), None);
    assert_eq!(effective_language(Some(String::from("auto"))), None);
    assert_eq!(effective_language(Some(String::from("en"))), Some(String::from("en")));
    assert!(!prompt_has_content(&String::from("")));
    assert!(!prompt_has_content(&String::from("  \t\n ")));
    assert!(prompt_has_content(&String::from("  hello ")));
    // a no-op everywhere but Windows, kept for call-site parity
    fix_windows_path();
}

#[test]
fn error_messages_carry_their_prefixes() {
    let m = whispering::errors::WhisperCppError::AudioFormatNotSupported.message();
    assert_eq!(m, "Audio format not supported. WhisperCpp requires WAV files.");
    let m = whispering::errors::ArchiveExtractionError::ArchiveExtractionError {
        message: String::from("bad entry"),
    }
    .message();
    assert_eq!(m, "Archive extraction failed: bad entry");
    let s = whispering::errors::SignalResult { success: true, message: String::from("sent") };
    assert!(s.success);
    let out = whispering::command_line::CommandOutput {
        code: Some(0),
        signal: None,
        stdout: String::from("ok"),
        stderr: String::new(),
    };
    assert_eq!(out.code, Some(0));
}
