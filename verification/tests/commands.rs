use meetily_sherpa::commands::{
    cancel_download_outcome, download_progress_event, download_status, engine_outcome, engine_value,
    failure_error, folder_opener, has_models_answer, load_model_finish, load_model_start,
    models_directory_for, models_folder, not_initialized_error, DownloadFlow, DownloadPhase,
    EngineCall, EngineReply, Failure, InitPlan, Next, Notice, SherpaState, ValidateFlow,
    ValidatePhase,
};
use meetily_sherpa::models::{ModelInfo, ModelStatus, QuantizationType, TranscriptConfig};
use meetily_sherpa::paths::PathStyle;

const NOT_INIT: &str = "Sherpa engine not initialized";

fn model(name: &str, status: ModelStatus, quantization: QuantizationType) -> ModelInfo {
    ModelInfo { name: name.to_string(), status, quantization }
}

fn finished_with(next: Next<String>) -> Result<String, String> {
    match next {
        Next::Finish(r) => r,
        Next::Call(_) => panic!("expected the flow to finish"),
    }
}

#[test]
fn messages_read_as_before() {
    assert_eq!(not_initialized_error(), NOT_INIT);
    assert_eq!(failure_error(Failure::Init, "boom"), "Failed to initialize Sherpa engine: boom");
    assert_eq!(failure_error(Failure::Discover, "io"), "Failed to discover Sherpa models: io");
    assert_eq!(failure_error(Failure::Load, "bad"), "Failed to load Sherpa model: bad");
    assert_eq!(failure_error(Failure::Download, "net"), "Failed to download Sherpa model: net");
    assert_eq!(failure_error(Failure::Cancel, "none"), "Failed to cancel Sherpa download: none");
    assert_eq!(failure_error(Failure::Delete, "busy"), "Failed to delete Sherpa model: busy");
    assert_eq!(failure_error(Failure::Transcribe, "x"), "Sherpa transcription failed: x");
}

#[test]
fn state_init_is_idempotent() {
    let mut state: SherpaState<u32> = SherpaState::new();
    assert!(state.engine().is_none());
    state.set_models_directory("/data/models".to_string());
    match state.init_plan() {
        InitPlan::Create { models_dir } => assert_eq!(models_dir, Some("/data/models".to_string())),
        InitPlan::AlreadyInitialized => panic!("no engine yet"),
    }
    assert_eq!(state.finish_init(Ok(7)), Ok(()));
    assert_eq!(state.engine().map(|e| **e), Some(7));
    assert!(matches!(state.init_plan(), InitPlan::AlreadyInitialized));
    assert_eq!(state.finish_init(Ok(9)), Ok(()));
    assert_eq!(state.engine().map(|e| **e), Some(7));
    assert_eq!(state.get_models_directory(), Some("/data/models".to_string()));
}

#[test]
fn state_init_failure_leaves_no_engine() {
    let mut state: SherpaState<u32> = SherpaState::new();
    assert_eq!(
        state.finish_init(Err("no runtime".to_string())),
        Err("Failed to initialize Sherpa engine: no runtime".to_string())
    );
    assert!(state.engine().is_none());
    assert_eq!(state.get_models_directory(), None);
}

#[test]
fn commands_without_engine_fail_the_same_way() {
    assert_eq!(engine_value::<bool>(None), Err(NOT_INIT.to_string()));
    assert_eq!(engine_outcome::<String>(Failure::Delete, None), Err(NOT_INIT.to_string()));
    assert_eq!(engine_value(Some(Some("m".to_string()))), Ok(Some("m".to_string())));
    assert_eq!(
        engine_outcome::<String>(Failure::Delete, Some(Err("locked".to_string()))),
        Err("Failed to delete Sherpa model: locked".to_string())
    );
    assert_eq!(engine_outcome(Failure::Transcribe, Some(Ok("hi".to_string()))), Ok("hi".to_string()));
}

#[test]
fn has_models_without_engine_is_false() {
    assert_eq!(has_models_answer(None), Ok(false));
    assert_eq!(
        has_models_answer(Some(Err("io".to_string()))),
        Err("Failed to discover Sherpa models: io".to_string())
    );
    let ms = vec![model("a", ModelStatus::Missing, QuantizationType::Int8)];
    assert_eq!(has_models_answer(Some(Ok(ms))), Ok(false));
    let ms = vec![model("a", ModelStatus::Available, QuantizationType::Int8)];
    assert_eq!(has_models_answer(Some(Ok(ms))), Ok(true));
}

#[test]
fn models_folder_paths() {
    let u = PathStyle::Unix;
    assert_eq!(models_folder(u, Some("/data/models".to_string())), Ok("/data/models/sherpa-onnx".to_string()));
    assert_eq!(models_folder(u, Some("/data/models/".to_string())), Ok("/data/models/sherpa-onnx".to_string()));
    assert_eq!(models_folder(u, None), Err("Sherpa models directory not initialized".to_string()));
    assert_eq!(models_directory_for(u, "/home/u/.local/share/app"), "/home/u/.local/share/app/models");
}

#[test]
fn models_folder_paths_on_windows() {
    let w = PathStyle::Windows;
    assert_eq!(
        models_folder(w, Some("C:\\Users\\u\\AppData\\app\\models".to_string())),
        Ok("C:\\Users\\u\\AppData\\app\\models\\sherpa-onnx".to_string())
    );
    assert_eq!(
        models_directory_for(w, "C:\\Users\\u\\AppData\\app"),
        "C:\\Users\\u\\AppData\\app\\models"
    );
    assert_eq!(models_folder(w, Some("D:/data/".to_string())), Ok("D:/data/sherpa-onnx".to_string()));
}

#[test]
fn folder_opener_per_system() {
    assert_eq!(folder_opener("windows"), Some("explorer"));
    assert_eq!(folder_opener("macos"), Some("open"));
    assert_eq!(folder_opener("linux"), Some("xdg-open"));
    assert_eq!(folder_opener("freebsd"), None);
}

#[test]
fn download_progress_status_words() {
    assert_eq!(download_status(100), "completed");
    assert_eq!(download_status(99), "downloading");
    assert_eq!(download_status(0), "downloading");
    assert_eq!(download_progress_event(), "sherpa-model-download-progress");
}

#[test]
fn notice_event_names() {
    let m = || "m".to_string();
    assert_eq!(Notice::LoadingStarted { model: m() }.event_name(), Some("sherpa-model-loading-started"));
    assert_eq!(Notice::LoadingCompleted { model: m() }.event_name(), Some("sherpa-model-loading-completed"));
    assert_eq!(
        Notice::LoadingFailed { model: m(), error: m() }.event_name(),
        Some("sherpa-model-loading-failed")
    );
    assert_eq!(Notice::DownloadComplete { model: m() }.event_name(), Some("sherpa-model-download-complete"));
    assert_eq!(
        Notice::DownloadFailed { model: m(), error: m() }.event_name(),
        Some("sherpa-model-download-error")
    );
    assert_eq!(Notice::DownloadCancelled { model: m() }.event_name(), Some("sherpa-model-download-progress"));
    assert_eq!(Notice::RefreshTray.event_name(), None);
}

#[test]
fn validate_keeps_a_loaded_model() {
    let (mut flow, next) = ValidateFlow::start(true, true);
    assert!(matches!(next, Next::Call(EngineCall::IsModelLoaded)));
    let next = flow.resume(EngineReply::Loaded(true));
    assert!(matches!(next, Next::Call(EngineCall::CurrentModel)));
    let next = flow.resume(EngineReply::Current(Some("sense-voice-int8".to_string())));
    assert_eq!(finished_with(next), Ok("sense-voice-int8".to_string()));
    assert!(matches!(flow.phase, ValidatePhase::Finished));
}

#[test]
fn validate_without_engine_fails() {
    let (_flow, next) = ValidateFlow::start(false, false);
    assert_eq!(finished_with(next), Err(NOT_INIT.to_string()));
}

#[test]
fn validate_loads_configured_model() {
    let (mut flow, _) = ValidateFlow::start(true, true);
    let next = flow.resume(EngineReply::Loaded(false));
    assert!(matches!(next, Next::Call(EngineCall::TranscriptConfig)));
    let cfg = TranscriptConfig { provider: "sherpaOnnx".to_string(), model: "b".to_string() };
    let next = flow.resume(EngineReply::Config(Ok(Some(cfg))));
    assert!(matches!(next, Next::Call(EngineCall::DiscoverModels)));
    let ms = vec![
        model("a", ModelStatus::Available, QuantizationType::Int8),
        model("b", ModelStatus::Available, QuantizationType::Float32),
    ];
    match flow.resume(EngineReply::Discovered(Ok(ms))) {
        Next::Call(EngineCall::LoadModel(name)) => assert_eq!(name, "b"),
        _ => panic!("expected a load"),
    }
    let next = flow.resume(EngineReply::Done(Ok(())));
    assert_eq!(finished_with(next), Ok("b".to_string()));
}

#[test]
fn validate_without_config_discovers_and_prefers_int8() {
    let (mut flow, _) = ValidateFlow::start(true, false);
    let next = flow.resume(EngineReply::Loaded(true));
    assert!(matches!(next, Next::Call(EngineCall::CurrentModel)));
    let next = flow.resume(EngineReply::Current(None));
    assert!(matches!(next, Next::Call(EngineCall::DiscoverModels)));
    let ms = vec![
        model("fp", ModelStatus::Available, QuantizationType::Float32),
        model("q8", ModelStatus::Available, QuantizationType::Int8),
    ];
    match flow.resume(EngineReply::Discovered(Ok(ms))) {
        Next::Call(EngineCall::LoadModel(name)) => assert_eq!(name, "q8"),
        _ => panic!("expected a load"),
    }
    let next = flow.resume(EngineReply::Done(Err("corrupt".to_string())));
    assert_eq!(finished_with(next), Err("Failed to load Sherpa model q8: corrupt".to_string()));
}

#[test]
fn validate_reports_discovery_failure_and_no_models() {
    let (mut flow, _) = ValidateFlow::start(true, false);
    flow.resume(EngineReply::Loaded(false));
    let next = flow.resume(EngineReply::Discovered(Err("io".to_string())));
    assert_eq!(finished_with(next), Err("Failed to discover Sherpa models: io".to_string()));

    let (mut flow, _) = ValidateFlow::start(true, true);
    flow.resume(EngineReply::Loaded(false));
    flow.resume(EngineReply::Config(Err("api down".to_string())));
    let ms = vec![model("a", ModelStatus::Missing, QuantizationType::Int8)];
    let next = flow.resume(EngineReply::Discovered(Ok(ms)));
    assert_eq!(
        finished_with(next),
        Err("No Sherpa models are available. Please download a model to enable fast transcription.".to_string())
    );
}

#[test]
fn validate_accepts_only_the_awaited_reply() {
    let (flow, _) = ValidateFlow::start(true, true);
    assert!(flow.accepts(&EngineReply::Loaded(false)));
    assert!(!flow.accepts(&EngineReply::Current(None)));
}

#[test]
fn load_model_announces_start_and_outcome() {
    let name = "q8".to_string();
    let (notices, next) = load_model_start(true, &name);
    assert_eq!(notices.len(), 1);
    assert!(matches!(&notices[0], Notice::LoadingStarted { model } if model == "q8"));
    assert!(matches!(next, Next::Call(EngineCall::LoadModel(ref m)) if m == "q8"));

    let (notices, r) = load_model_finish(name.clone(), Ok(()));
    assert_eq!(r, Ok(()));
    assert!(matches!(&notices[0], Notice::LoadingCompleted { model } if model == "q8"));

    let (notices, r) = load_model_finish(name, Err("bad file".to_string()));
    assert_eq!(r, Err("Failed to load Sherpa model: bad file".to_string()));
    assert!(matches!(&notices[0], Notice::LoadingFailed { model, error }
        if model == "q8" && error == "Failed to load Sherpa model: bad file"));
}

#[test]
fn load_model_without_engine_fails() {
    let (notices, next) = load_model_start(false, &"q8".to_string());
    assert!(notices.is_empty());
    assert!(matches!(next, Next::Finish(Err(ref e)) if e == NOT_INIT));
}

#[test]
fn cancel_outcomes() {
    let (n, r) = cancel_download_outcome(Some(Ok(())), "q8".to_string());
    assert_eq!(r, Ok(()));
    assert!(matches!(&n[0], Notice::DownloadCancelled { model } if model == "q8"));
    let (n, r) = cancel_download_outcome(Some(Err("idle".to_string())), "q8".to_string());
    assert!(n.is_empty());
    assert_eq!(r, Err("Failed to cancel Sherpa download: idle".to_string()));
    let (_, r) = cancel_download_outcome(None, "q8".to_string());
    assert_eq!(r, Err(NOT_INIT.to_string()));
}

#[test]
fn download_discovers_then_downloads() {
    let (mut flow, next) = DownloadFlow::start(true, "q8".to_string(), false);
    assert!(matches!(next, Next::Call(EngineCall::DiscoverModels)));
    let (n, next) = flow.resume(EngineReply::Discovered(Err("ignored".to_string())));
    assert!(n.is_empty());
    assert!(matches!(next, Next::Call(EngineCall::DownloadModel(ref m)) if m == "q8"));
    let (n, next) = flow.resume(EngineReply::Done(Ok(())));
    assert!(matches!(next, Next::Finish(Ok(()))));
    assert_eq!(n.len(), 2);
    assert!(matches!(&n[0], Notice::DownloadComplete { model } if model == "q8"));
    assert!(matches!(&n[1], Notice::RefreshTray));
    assert!(matches!(flow.phase, DownloadPhase::Finished));
}

#[test]
fn download_failure_is_announced() {
    let (mut flow, _) = DownloadFlow::start(true, "q8".to_string(), false);
    flow.resume(EngineReply::Discovered(Ok(Vec::new())));
    let (n, next) = flow.resume(EngineReply::Done(Err("timeout".to_string())));
    assert!(matches!(next, Next::Finish(Err(ref e)) if e == "Failed to download Sherpa model: timeout"));
    assert!(matches!(&n[0], Notice::DownloadFailed { model, error } if model == "q8" && error == "timeout"));
}

#[test]
fn retry_resets_and_rediscovers_first() {
    let (mut flow, next) = DownloadFlow::start(true, "q8".to_string(), true);
    assert!(matches!(next, Next::Call(EngineCall::ResetForRetry(ref m)) if m == "q8"));
    let (_, next) = flow.resume(EngineReply::Done(Ok(())));
    assert!(matches!(next, Next::Call(EngineCall::DiscoverModels)));
    let (_, next) = flow.resume(EngineReply::Discovered(Ok(Vec::new())));
    assert!(matches!(next, Next::Call(EngineCall::DiscoverModels)));
    let (_, next) = flow.resume(EngineReply::Discovered(Ok(Vec::new())));
    assert!(matches!(next, Next::Call(EngineCall::DownloadModel(ref m)) if m == "q8"));
    let (_, next) = DownloadFlow::start(false, "q8".to_string(), true);
    assert!(matches!(next, Next::Finish(Err(ref e)) if e == NOT_INIT));
}

#[test]
fn folder_failure_messages() {
    assert_eq!(failure_error(Failure::CreateFolder, "denied"), "Failed to create directory: denied");
    assert_eq!(failure_error(Failure::OpenFolder, "no xdg"), "Failed to open folder: no xdg");
}
