//! The decisions behind the Sherpa commands that the user interface calls:
//! the shared engine slot, the messages each command fails with, the events
//! it announces, and the step machines of the commands that talk to the
//! engine more than once. The caller performs each engine call that a step
//! asks for and hands the answer back.
use vstd::prelude::*;
use vstd::string::*;

use crate::models::{
    ModelInfo, TranscriptConfig, chosen_model_name, configured_model, configured_model_name,
    fetched_config_view, has_available_model, any_available, no_models_message, opt_view,
    select_model,
};
use crate::paths::{join_path, joined, PathStyle};
use std::sync::Arc;

verus! {

/// The message of every command that needs the engine before it exists.
pub open spec fn not_initialized_message() -> Seq<char> {
    "Sherpa engine not initialized"@
}

/// The message of the folder command before the models directory is set.
pub open spec fn no_models_dir_message() -> Seq<char> {
    "Sherpa models directory not initialized"@
}

/// The kinds of engine failure a command reports, each with its own wording.
#[derive(Clone, Copy, Debug, PartialEq, Eq, Structural)]
pub enum Failure {
    Init,
    Discover,
    Load,
    Download,
    Cancel,
    Delete,
    Transcribe,
    CreateFolder,
    OpenFolder,
}

/// The words put before the engine's own error text.
pub open spec fn failure_prefix(kind: Failure) -> Seq<char> {
    match kind {
        Failure::Init => "Failed to initialize Sherpa engine: "@,
        Failure::Discover => "Failed to discover Sherpa models: "@,
        Failure::Load => "Failed to load Sherpa model: "@,
        Failure::Download => "Failed to download Sherpa model: "@,
        Failure::Cancel => "Failed to cancel Sherpa download: "@,
        Failure::Delete => "Failed to delete Sherpa model: "@,
        Failure::Transcribe => "Sherpa transcription failed: "@,
        Failure::CreateFolder => "Failed to create directory: "@,
        Failure::OpenFolder => "Failed to open folder: "@,
    }
}

/// The message of a failure of the given kind whose cause reads `detail`.
pub open spec fn failure_message(kind: Failure, detail: Seq<char>) -> Seq<char> {
    failure_prefix(kind) + detail
}

/// The message when the model that validation picked could not be loaded.
pub open spec fn pick_load_failed_message(model: Seq<char>, detail: Seq<char>) -> Seq<char> {
    "Failed to load Sherpa model "@ + model + ": "@ + detail
}

/// The message of every command that needs the engine before it exists.
pub fn not_initialized_error() -> (e: String)
    ensures
        e@ == not_initialized_message(),
{
    String::from_str("Sherpa engine not initialized")
}

/// The message of a failure of the given kind whose cause reads `detail`.
pub fn failure_error(kind: Failure, detail: &str) -> (e: String)
    ensures
        e@ == failure_message(kind, detail@),
{
    let prefix = match kind {
        Failure::Init => "Failed to initialize Sherpa engine: ",
        Failure::Discover => "Failed to discover Sherpa models: ",
        Failure::Load => "Failed to load Sherpa model: ",
        Failure::Download => "Failed to download Sherpa model: ",
        Failure::Cancel => "Failed to cancel Sherpa download: ",
        Failure::Delete => "Failed to delete Sherpa model: ",
        Failure::Transcribe => "Sherpa transcription failed: ",
        Failure::CreateFolder => "Failed to create directory: ",
        Failure::OpenFolder => "Failed to open folder: ",
    };
    String::from_str(prefix).concat(detail)
}

fn pick_load_failed_error(model: &str, detail: &str) -> (e: String)
    ensures
        e@ == pick_load_failed_message(model@, detail@),
{
    String::from_str("Failed to load Sherpa model ").concat(model).concat(": ").concat(detail)
}

/// The shared state behind the commands: the engine, once created, and the
/// directory its models live in, once the application has set it.
pub struct SherpaState<E> {
    engine: Option<Arc<E>>,
    models_dir: Option<String>,
}

/// What `sherpa_init` has to do.
pub enum InitPlan {
    /// An engine exists already; nothing is created.
    AlreadyInitialized,
    /// Create an engine over this models directory (none when it is not set).
    Create { models_dir: Option<String> },
}

impl<E> SherpaState<E> {
    /// The engine has been created.
    pub closed spec fn has_engine(&self) -> bool {
        self.engine is Some
    }

    /// The models directory, when set.
    pub closed spec fn models_dir_view(&self) -> Option<Seq<char>> {
        opt_view(self.models_dir)
    }

    /// The engine, when created.
    pub closed spec fn engine_view(&self) -> Option<Arc<E>> {
        self.engine
    }

    /// No engine and no models directory yet.
    pub fn new() -> (s: Self)
        ensures
            !s.has_engine(),
            s.models_dir_view() is None,
    {
        SherpaState { engine: None, models_dir: None }
    }

    /// Records the models directory; the engine is left as it is.
    pub fn set_models_directory(&mut self, dir: String)
        ensures
            final(self).models_dir_view() == Some(dir@),
            final(self).engine_view() == old(self).engine_view(),
    {
        self.models_dir = Some(dir);
    }

    /// The models directory, when the application has set it.
    pub fn get_models_directory(&self) -> (r: Option<String>)
        ensures
            opt_view(r) == self.models_dir_view(),
    {
        match &self.models_dir {
            Some(d) => Some(d.clone()),
            None => None,
        }
    }

    /// The engine, when it has been created.
    pub fn engine(&self) -> (r: Option<&Arc<E>>)
        ensures
            r is Some <==> self.has_engine(),
            r matches Some(e) ==> self.engine_view() == Some(*e),
    {
        self.engine.as_ref()
    }

    /// What `sherpa_init` has to do: nothing when the engine exists, else
    /// create one over the models directory.
    pub fn init_plan(&self) -> (p: InitPlan)
        ensures
            self.has_engine() <==> p is AlreadyInitialized,
            p matches InitPlan::Create { models_dir } ==> opt_view(models_dir)
                == self.models_dir_view(),
    {
        if self.engine.is_some() {
            InitPlan::AlreadyInitialized
        } else {
            InitPlan::Create { models_dir: self.get_models_directory() }
        }
    }

    /// Finishes `sherpa_init` with the outcome of creating the engine. An
    /// engine that exists already is kept, and the call succeeds.
    pub fn finish_init(&mut self, created: Result<E, String>) -> (r: Result<(), String>)
        ensures
            final(self).models_dir_view() == old(self).models_dir_view(),
            old(self).has_engine() ==> r is Ok && final(self).engine_view() == old(self).engine_view(),
            !old(self).has_engine() ==> match created {
                Ok(e) => r is Ok && (final(self).engine_view() matches Some(a) && *a == e),
                Err(d) => (r matches Err(m) && m@ == failure_message(Failure::Init, d@))
                    && !final(self).has_engine(),
            },
    {
        if self.engine.is_some() {
            return Ok(());
        }
        match created {
            Ok(e) => {
                self.engine = Some(Arc::new(e));
                Ok(())
            },
            Err(d) => Err(failure_error(Failure::Init, d.as_str())),
        }
    }
}

/// The answer of a command that only reads a value off the engine: the value,
/// or the "not initialized" failure when there is no engine (`None`).
pub fn engine_value<T>(reply: Option<T>) -> (r: Result<T, String>)
    ensures
        match reply {
            Some(v) => r == Ok::<T, String>(v),
            None => r matches Err(e) && e@ == not_initialized_message(),
        },
{
    match reply {
        Some(v) => Ok(v),
        None => Err(not_initialized_error()),
    }
}

/// The answer of a command that makes one engine call that may fail: its
/// value, its failure worded after `kind`, or the "not initialized" failure
/// when there is no engine (`None`).
pub fn engine_outcome<T>(kind: Failure, reply: Option<Result<T, String>>) -> (r: Result<T, String>)
    ensures
        match reply {
            Some(Ok(v)) => r == Ok::<T, String>(v),
            Some(Err(d)) => r matches Err(e) && e@ == failure_message(kind, d@),
            None => r matches Err(e) && e@ == not_initialized_message(),
        },
{
    match reply {
        Some(Ok(v)) => Ok(v),
        Some(Err(d)) => Err(failure_error(kind, d.as_str())),
        None => Err(not_initialized_error()),
    }
}

/// The answer of the "has available models" command: false without an
/// engine, the discovery failure when discovery fails, else whether some
/// discovered model is available.
pub fn has_models_answer(reply: Option<Result<Vec<ModelInfo>, String>>) -> (r: Result<bool, String>)
    ensures
        match reply {
            None => r == Ok::<bool, String>(false),
            Some(Err(d)) => r matches Err(e) && e@ == failure_message(Failure::Discover, d@),
            Some(Ok(ms)) => r == Ok::<bool, String>(any_available(ms@)),
        },
{
    match reply {
        None => Ok(false),
        Some(Err(d)) => Err(failure_error(Failure::Discover, d.as_str())),
        Some(Ok(ms)) => Ok(has_available_model(&ms)),
    }
}

/// The directory the "open models folder" command shows: the `sherpa-onnx`
/// directory inside the models directory, or the failure when that is not set.
pub fn models_folder(style: PathStyle, models_dir: Option<String>) -> (r: Result<String, String>)
    ensures
        match models_dir {
            Some(d) => r matches Ok(p) && p@ == joined(style, d@, "sherpa-onnx"@),
            None => r matches Err(e) && e@ == no_models_dir_message(),
        },
{
    match models_dir {
        Some(d) => Ok(join_path(style, d.as_str(), "sherpa-onnx")),
        None => Err(String::from_str("Sherpa models directory not initialized")),
    }
}

/// The directory models are kept in, inside the application's data directory.
pub fn models_directory_for(style: PathStyle, app_data_dir: &str) -> (r: String)
    ensures
        r@ == joined(style, app_data_dir@, "models"@),
{
    join_path(style, app_data_dir, "models")
}

/// The program that shows a folder on the given operating system (as
/// `std::env::consts::OS` names it); none where the command opens nothing.
pub fn folder_opener(os: &str) -> (r: Option<&'static str>)
    ensures
        os@ == "windows"@ ==> (r matches Some(p) && p@ == "explorer"@),
        os@ == "macos"@ ==> (r matches Some(p) && p@ == "open"@),
        os@ == "linux"@ ==> (r matches Some(p) && p@ == "xdg-open"@),
        os@ != "windows"@ && os@ != "macos"@ && os@ != "linux"@ ==> r is None,
{
    proof {
        reveal_strlit("windows");
        reveal_strlit("macos");
        reveal_strlit("linux");
        assert("windows"@[0] != "macos"@[0]);
        assert("windows"@[0] != "linux"@[0]);
        assert("macos"@[0] != "linux"@[0]);
    }
    let s = String::from_str(os);
    if s.eq(&String::from_str("windows")) {
        Some("explorer")
    } else if s.eq(&String::from_str("macos")) {
        Some("open")
    } else if s.eq(&String::from_str("linux")) {
        Some("xdg-open")
    } else {
        None
    }
}

/// Something the commands announce to the user interface.
pub enum Notice {
    LoadingStarted { model: String },
    LoadingCompleted { model: String },
    LoadingFailed { model: String, error: String },
    DownloadComplete { model: String },
    DownloadFailed { model: String, error: String },
    DownloadCancelled { model: String },
    /// The tray menu has to be rebuilt; no event is sent for it.
    RefreshTray,
}

/// The name of the event that carries a notice, when one is sent.
pub open spec fn notice_event_name(n: Notice) -> Option<Seq<char>> {
    match n {
        Notice::LoadingStarted { .. } => Some("sherpa-model-loading-started"@),
        Notice::LoadingCompleted { .. } => Some("sherpa-model-loading-completed"@),
        Notice::LoadingFailed { .. } => Some("sherpa-model-loading-failed"@),
        Notice::DownloadComplete { .. } => Some("sherpa-model-download-complete"@),
        Notice::DownloadFailed { .. } => Some("sherpa-model-download-error"@),
        Notice::DownloadCancelled { .. } => Some("sherpa-model-download-progress"@),
        Notice::RefreshTray => None,
    }
}

impl Notice {
    /// The name of the event that carries this notice, when one is sent.
    pub fn event_name(&self) -> (r: Option<&'static str>)
        ensures
            match r {
                Some(s) => notice_event_name(*self) == Some(s@),
                None => notice_event_name(*self) is None,
            },
    {
        match self {
            Notice::LoadingStarted { .. } => Some("sherpa-model-loading-started"),
            Notice::LoadingCompleted { .. } => Some("sherpa-model-loading-completed"),
            Notice::LoadingFailed { .. } => Some("sherpa-model-loading-failed"),
            Notice::DownloadComplete { .. } => Some("sherpa-model-download-complete"),
            Notice::DownloadFailed { .. } => Some("sherpa-model-download-error"),
            Notice::DownloadCancelled { .. } => Some("sherpa-model-download-progress"),
            Notice::RefreshTray => None,
        }
    }
}

/// The event carrying download progress.
pub fn download_progress_event() -> (r: &'static str)
    ensures
        r@ == "sherpa-model-download-progress"@,
{
    "sherpa-model-download-progress"
}

/// The status a progress event reports: complete at one hundred percent,
/// still downloading below.
pub fn download_status(percent: u8) -> (r: &'static str)
    ensures
        percent == 100 ==> r@ == "completed"@,
        percent != 100 ==> r@ == "downloading"@,
{
    if percent == 100 {
        "completed"
    } else {
        "downloading"
    }
}

/// An engine call a command asks its caller to make.
pub enum EngineCall {
    IsModelLoaded,
    CurrentModel,
    TranscriptConfig,
    DiscoverModels,
    LoadModel(String),
    DownloadModel(String),
    /// Drop the model from the active downloads and mark it missing.
    ResetForRetry(String),
}

/// The answer to an engine call.
pub enum EngineReply {
    Loaded(bool),
    Current(Option<String>),
    Config(Result<Option<TranscriptConfig>, String>),
    Discovered(Result<Vec<ModelInfo>, String>),
    Done(Result<(), String>),
}

/// What a command does next: make an engine call, or finish with a result.
pub enum Next<T> {
    Call(EngineCall),
    Finish(Result<T, String>),
}

/// Where model validation stands.
pub enum ValidatePhase {
    AwaitLoaded,
    AwaitCurrent,
    AwaitConfig,
    AwaitModels { configured: Option<String> },
    AwaitLoad { model: String },
    Finished,
}

/// Model validation: make sure a model is loaded and say which. A model the
/// engine has loaded already is kept; else the configured model (when
/// `with_config` and it is available) or the preferred available one is
/// loaded.
pub struct ValidateFlow {
    pub with_config: bool,
    pub phase: ValidatePhase,
}

/// The reply a phase waits for.
pub open spec fn validate_accepts(phase: ValidatePhase, reply: EngineReply) -> bool {
    match (phase, reply) {
        (ValidatePhase::AwaitLoaded, EngineReply::Loaded(_)) => true,
        (ValidatePhase::AwaitCurrent, EngineReply::Current(_)) => true,
        (ValidatePhase::AwaitConfig, EngineReply::Config(_)) => true,
        (ValidatePhase::AwaitModels { .. }, EngineReply::Discovered(_)) => true,
        (ValidatePhase::AwaitLoad { .. }, EngineReply::Done(_)) => true,
        _ => false,
    }
}

/// After finding no loaded model: fetch the configuration first when it is
/// used, else discover the models straight away.
pub open spec fn validate_no_loaded_model(with_config: bool, phase: ValidatePhase, next: Next<String>) -> bool {
    if with_config {
        phase == ValidatePhase::AwaitConfig && next == Next::<String>::Call(EngineCall::TranscriptConfig)
    } else {
        phase == (ValidatePhase::AwaitModels { configured: None }) && next == Next::<String>::Call(
            EngineCall::DiscoverModels,
        )
    }
}

impl ValidateFlow {
    /// Whether `reply` is the answer this flow waits for.
    pub fn accepts(&self, reply: &EngineReply) -> (r: bool)
        ensures
            r == validate_accepts(self.phase, *reply),
    {
        match (&self.phase, reply) {
            (ValidatePhase::AwaitLoaded, EngineReply::Loaded(_)) => true,
            (ValidatePhase::AwaitCurrent, EngineReply::Current(_)) => true,
            (ValidatePhase::AwaitConfig, EngineReply::Config(_)) => true,
            (ValidatePhase::AwaitModels { .. }, EngineReply::Discovered(_)) => true,
            (ValidatePhase::AwaitLoad { .. }, EngineReply::Done(_)) => true,
            _ => false,
        }
    }

    /// Starts validation: without an engine it fails at once, else it asks
    /// whether a model is loaded.
    pub fn start(engine_ready: bool, with_config: bool) -> (r: (ValidateFlow, Next<String>))
        ensures
            r.0.with_config == with_config,
            engine_ready ==> r.0.phase == ValidatePhase::AwaitLoaded && r.1 == Next::<String>::Call(
                EngineCall::IsModelLoaded,
            ),
            !engine_ready ==> r.0.phase == ValidatePhase::Finished && (r.1 matches Next::Finish(
                Err(e),
            ) && e@ == not_initialized_message()),
    {
        if engine_ready {
            (ValidateFlow { with_config, phase: ValidatePhase::AwaitLoaded }, Next::Call(EngineCall::IsModelLoaded))
        } else {
            (ValidateFlow { with_config, phase: ValidatePhase::Finished }, Next::Finish(Err(not_initialized_error())))
        }
    }

    fn after_no_loaded_model(&mut self) -> (next: Next<String>)
        ensures
            final(self).with_config == old(self).with_config,
            validate_no_loaded_model(final(self).with_config, final(self).phase, next),
    {
        if self.with_config {
            self.phase = ValidatePhase::AwaitConfig;
            Next::Call(EngineCall::TranscriptConfig)
        } else {
            self.phase = ValidatePhase::AwaitModels { configured: None };
            Next::Call(EngineCall::DiscoverModels)
        }
    }

    /// Takes the engine's answer to the last call and decides what follows.
    pub fn resume(&mut self, reply: EngineReply) -> (next: Next<String>)
        requires
            validate_accepts(old(self).phase, reply),
        ensures
            final(self).with_config == old(self).with_config,
            match (old(self).phase, reply) {
                (ValidatePhase::AwaitLoaded, EngineReply::Loaded(loaded)) => if loaded {
                    final(self).phase == ValidatePhase::AwaitCurrent && next == Next::<String>::Call(
                        EngineCall::CurrentModel,
                    )
                } else {
                    validate_no_loaded_model(old(self).with_config, final(self).phase, next)
                },
                (ValidatePhase::AwaitCurrent, EngineReply::Current(current)) => match current {
                    Some(m) => final(self).phase == ValidatePhase::Finished && (next matches Next::Finish(
                        Ok(n),
                    ) && n@ == m@),
                    None => validate_no_loaded_model(old(self).with_config, final(self).phase, next),
                },
                (ValidatePhase::AwaitConfig, EngineReply::Config(fetched)) => final(self).phase matches ValidatePhase::AwaitModels { configured } && opt_view(configured)
                    == configured_model_name(fetched_config_view(fetched)) && next
                    == Next::<String>::Call(EngineCall::DiscoverModels),
                (ValidatePhase::AwaitModels { configured }, EngineReply::Discovered(found)) => match found {
                    Err(d) => final(self).phase == ValidatePhase::Finished && (next matches Next::Finish(
                        Err(e),
                    ) && e@ == failure_message(Failure::Discover, d@)),
                    Ok(ms) => match chosen_model_name(ms@, opt_view(configured)) {
                        None => final(self).phase == ValidatePhase::Finished && (next matches Next::Finish(
                            Err(e),
                        ) && e@ == no_models_message()),
                        Some(n) => (final(self).phase matches ValidatePhase::AwaitLoad { model } && model@
                            == n) && (next matches Next::Call(EngineCall::LoadModel(x)) && x@ == n),
                    },
                },
                (ValidatePhase::AwaitLoad { model }, EngineReply::Done(outcome)) => final(self).phase
                    == ValidatePhase::Finished && match outcome {
                    Ok(_) => next matches Next::Finish(Ok(n)) && n@ == model@,
                    Err(d) => next matches Next::Finish(Err(e)) && e@ == pick_load_failed_message(
                        model@,
                        d@,
                    ),
                },
                _ => false,
            },
    {
        let mut phase = ValidatePhase::Finished;
        std::mem::swap(&mut phase, &mut self.phase);
        match (phase, reply) {
            (ValidatePhase::AwaitLoaded, EngineReply::Loaded(loaded)) => {
                if loaded {
                    self.phase = ValidatePhase::AwaitCurrent;
                    Next::Call(EngineCall::CurrentModel)
                } else {
                    self.after_no_loaded_model()
                }
            },
            (ValidatePhase::AwaitCurrent, EngineReply::Current(current)) => match current {
                Some(m) => Next::Finish(Ok(m)),
                None => self.after_no_loaded_model(),
            },
            (ValidatePhase::AwaitConfig, EngineReply::Config(fetched)) => {
                self.phase = ValidatePhase::AwaitModels { configured: configured_model(fetched) };
                Next::Call(EngineCall::DiscoverModels)
            },
            (ValidatePhase::AwaitModels { configured }, EngineReply::Discovered(found)) => match found {
                Err(d) => Next::Finish(Err(failure_error(Failure::Discover, d.as_str()))),
                Ok(ms) => match select_model(&ms, configured) {
                    Err(e) => Next::Finish(Err(e)),
                    Ok(name) => {
                        let call_name = name.clone();
                        self.phase = ValidatePhase::AwaitLoad { model: name };
                        Next::Call(EngineCall::LoadModel(call_name))
                    },
                },
            },
            (ValidatePhase::AwaitLoad { model }, EngineReply::Done(outcome)) => match outcome {
                Ok(_) => Next::Finish(Ok(model)),
                Err(d) => Next::Finish(Err(pick_load_failed_error(model.as_str(), d.as_str()))),
            },
            _ => Next::Finish(Err(not_initialized_error())),
        }
    }
}

/// Starts loading a model by name: without an engine it fails at once, else
/// it announces the start and asks the engine to load the model.
pub fn load_model_start(engine_ready: bool, model: &String) -> (r: (Vec<Notice>, Next<()>))
    ensures
        engine_ready ==> r.0@.len() == 1 && (r.0@[0] matches Notice::LoadingStarted { model: m }
            && m@ == model@) && (r.1 matches Next::Call(EngineCall::LoadModel(x)) && x@ == model@),
        !engine_ready ==> r.0@.len() == 0 && (r.1 matches Next::Finish(Err(e)) && e@
            == not_initialized_message()),
{
    if engine_ready {
        let mut notices: Vec<Notice> = Vec::new();
        notices.push(Notice::LoadingStarted { model: model.clone() });
        (notices, Next::Call(EngineCall::LoadModel(model.clone())))
    } else {
        (Vec::new(), Next::Finish(Err(not_initialized_error())))
    }
}

/// Finishes loading a model: announces success, or announces the failure
/// with the message the command fails with.
pub fn load_model_finish(model: String, outcome: Result<(), String>) -> (r: (Vec<Notice>, Result<(), String>))
    ensures
        r.0@.len() == 1,
        outcome is Ok ==> r.1 is Ok && (r.0@[0] matches Notice::LoadingCompleted { model: m }
            && m@ == model@),
        outcome matches Err(d) ==> (r.1 matches Err(e) && e@ == failure_message(Failure::Load, d@))
            && (r.0@[0] matches Notice::LoadingFailed { model: m, error: e } && m@ == model@ && e@
            == failure_message(Failure::Load, d@)),
{
    let mut notices: Vec<Notice> = Vec::new();
    match outcome {
        Ok(_) => {
            notices.push(Notice::LoadingCompleted { model });
            (notices, Ok(()))
        },
        Err(d) => {
            let message = failure_error(Failure::Load, d.as_str());
            notices.push(Notice::LoadingFailed { model, error: message.clone() });
            (notices, Err(message))
        },
    }
}

/// Finishes cancelling a download: announces the cancellation when the
/// engine cancelled it; fails without an engine (`None`) or when the engine
/// could not cancel.
pub fn cancel_download_outcome(reply: Option<Result<(), String>>, model: String) -> (r: (Vec<Notice>, Result<(), String>))
    ensures
        match reply {
            None => r.0@.len() == 0 && (r.1 matches Err(e) && e@ == not_initialized_message()),
            Some(Err(d)) => r.0@.len() == 0 && (r.1 matches Err(e) && e@ == failure_message(
                Failure::Cancel,
                d@,
            )),
            Some(Ok(_)) => r.1 is Ok && r.0@.len() == 1 && (r.0@[0] matches Notice::DownloadCancelled {
                model: m,
            } && m@ == model@),
        },
{
    match reply {
        None => (Vec::new(), Err(not_initialized_error())),
        Some(Err(d)) => (Vec::new(), Err(failure_error(Failure::Cancel, d.as_str()))),
        Some(Ok(_)) => {
            let mut notices: Vec<Notice> = Vec::new();
            notices.push(Notice::DownloadCancelled { model });
            (notices, Ok(()))
        },
    }
}

/// Where a model download stands.
pub enum DownloadPhase {
    AwaitReset,
    AwaitRetryDiscover,
    AwaitDiscover,
    AwaitDownload,
    Finished,
}

/// Downloading a model. A retry first drops the model from the active
/// downloads, marks it missing and rediscovers the models; every download
/// then rediscovers the models (a failure there is ignored) and downloads.
pub struct DownloadFlow {
    pub model: String,
    pub phase: DownloadPhase,
}

/// The reply a download phase waits for.
pub open spec fn download_accepts(phase: DownloadPhase, reply: EngineReply) -> bool {
    match (phase, reply) {
        (DownloadPhase::AwaitReset, EngineReply::Done(_)) => true,
        (DownloadPhase::AwaitRetryDiscover, EngineReply::Discovered(_)) => true,
        (DownloadPhase::AwaitDiscover, EngineReply::Discovered(_)) => true,
        (DownloadPhase::AwaitDownload, EngineReply::Done(_)) => true,
        _ => false,
    }
}

impl DownloadFlow {
    /// Whether `reply` is the answer this flow waits for.
    pub fn accepts(&self, reply: &EngineReply) -> (r: bool)
        ensures
            r == download_accepts(self.phase, *reply),
    {
        match (&self.phase, reply) {
            (DownloadPhase::AwaitReset, EngineReply::Done(_)) => true,
            (DownloadPhase::AwaitRetryDiscover, EngineReply::Discovered(_)) => true,
            (DownloadPhase::AwaitDiscover, EngineReply::Discovered(_)) => true,
            (DownloadPhase::AwaitDownload, EngineReply::Done(_)) => true,
            _ => false,
        }
    }

    /// Starts a download (a retry when `retry`): without an engine it fails
    /// at once; a retry first resets the model; a plain download first
    /// rediscovers the models.
    pub fn start(engine_ready: bool, model: String, retry: bool) -> (r: (DownloadFlow, Next<()>))
        ensures
            r.0.model@ == model@,
            !engine_ready ==> r.0.phase == DownloadPhase::Finished && (r.1 matches Next::Finish(
                Err(e),
            ) && e@ == not_initialized_message()),
            engine_ready && retry ==> r.0.phase == DownloadPhase::AwaitReset && (r.1 matches Next::Call(
                EngineCall::ResetForRetry(x),
            ) && x@ == model@),
            engine_ready && !retry ==> r.0.phase == DownloadPhase::AwaitDiscover && r.1
                == Next::<()>::Call(EngineCall::DiscoverModels),
    {
        if !engine_ready {
            (DownloadFlow { model, phase: DownloadPhase::Finished }, Next::Finish(Err(not_initialized_error())))
        } else if retry {
            let name = model.clone();
            (DownloadFlow { model, phase: DownloadPhase::AwaitReset }, Next::Call(EngineCall::ResetForRetry(name)))
        } else {
            (DownloadFlow { model, phase: DownloadPhase::AwaitDiscover }, Next::Call(EngineCall::DiscoverModels))
        }
    }

    /// Takes the engine's answer to the last call and decides what follows,
    /// with the notices to announce first.
    pub fn resume(&mut self, reply: EngineReply) -> (r: (Vec<Notice>, Next<()>))
        requires
            download_accepts(old(self).phase, reply),
        ensures
            final(self).model == old(self).model,
            match old(self).phase {
                DownloadPhase::AwaitReset => final(self).phase == DownloadPhase::AwaitRetryDiscover
                    && r.0@.len() == 0 && r.1 == Next::<()>::Call(EngineCall::DiscoverModels),
                DownloadPhase::AwaitRetryDiscover => final(self).phase == DownloadPhase::AwaitDiscover
                    && r.0@.len() == 0 && r.1 == Next::<()>::Call(EngineCall::DiscoverModels),
                DownloadPhase::AwaitDiscover => final(self).phase == DownloadPhase::AwaitDownload
                    && r.0@.len() == 0 && (r.1 matches Next::Call(EngineCall::DownloadModel(x)) && x@
                    == old(self).model@),
                DownloadPhase::AwaitDownload => final(self).phase == DownloadPhase::Finished && match reply {
                    EngineReply::Done(Ok(_)) => r.1 == Next::<()>::Finish(Ok(())) && r.0@.len() == 2
                        && (r.0@[0] matches Notice::DownloadComplete { model: m } && m@ == old(
                        self).model@) && r.0@[1] == Notice::RefreshTray,
                    EngineReply::Done(Err(d)) => (r.1 matches Next::Finish(Err(e)) && e@
                        == failure_message(Failure::Download, d@)) && r.0@.len() == 1 && (r.0@[0] matches Notice::DownloadFailed {
                        model: m,
                        error: e,
                    } && m@ == old(self).model@ && e@ == d@),
                    _ => false,
                },
                DownloadPhase::Finished => false,
            },
    {
        let mut phase = DownloadPhase::Finished;
        std::mem::swap(&mut phase, &mut self.phase);
        match phase {
            DownloadPhase::AwaitReset => {
                self.phase = DownloadPhase::AwaitRetryDiscover;
                (Vec::new(), Next::Call(EngineCall::DiscoverModels))
            },
            DownloadPhase::AwaitRetryDiscover => {
                self.phase = DownloadPhase::AwaitDiscover;
                (Vec::new(), Next::Call(EngineCall::DiscoverModels))
            },
            DownloadPhase::AwaitDiscover => {
                self.phase = DownloadPhase::AwaitDownload;
                (Vec::new(), Next::Call(EngineCall::DownloadModel(self.model.clone())))
            },
            _ => {
                let mut notices: Vec<Notice> = Vec::new();
                match reply {
                    EngineReply::Done(Ok(_)) => {
                        notices.push(Notice::DownloadComplete { model: self.model.clone() });
                        notices.push(Notice::RefreshTray);
                        (notices, Next::Finish(Ok(())))
                    },
                    EngineReply::Done(Err(d)) => {
                        let message = failure_error(Failure::Download, d.as_str());
                        notices.push(Notice::DownloadFailed { model: self.model.clone(), error: d });
                        (notices, Next::Finish(Err(message)))
                    },
                    _ => (notices, Next::Finish(Err(not_initialized_error()))),
                }
            },
        }
    }
}

} // verus!
