//! The Sherpa-ONNX transcription provider: a handle on the shared engine and
//! the shape of what a transcription gives back.
use vstd::prelude::*;

use crate::text::{trim_seq, trim_text};
use std::sync::Arc;

verus! {

/// The transcription provider backed by the Sherpa-ONNX engine `E`.
pub struct SherpaProvider<E> {
    engine: Arc<E>,
}

/// The text of a finished transcription. This engine gives no confidence
/// score, so none is carried.
pub struct TranscriptResult {
    pub text: String,
    pub is_partial: bool,
}

/// Why a transcription failed.
#[derive(Debug)]
pub enum TranscriptionError {
    /// The engine failed; the text is its message.
    EngineFailed(String),
}

impl<E> SherpaProvider<E> {
    /// The engine this provider transcribes with.
    pub closed spec fn engine_view(&self) -> Arc<E> {
        self.engine
    }

    /// A provider over the given engine.
    pub fn new(engine: Arc<E>) -> (p: Self)
        ensures
            p.engine_view() == engine,
    {
        SherpaProvider { engine }
    }

    /// The engine this provider transcribes with.
    pub fn engine(&self) -> (r: &Arc<E>)
        ensures
            *r == self.engine_view(),
    {
        &self.engine
    }

    /// The name this provider reports itself under.
    pub fn provider_name(&self) -> (name: &'static str)
        ensures
            name@ == "SherpaOnnx"@,
    {
        "SherpaOnnx"
    }

    /// What a transcription gives back, from what the engine answered: the
    /// engine's text with surrounding whitespace trimmed, final rather than
    /// partial; or the engine's failure.
    pub fn transcript_from(outcome: Result<String, String>) -> (r: Result<TranscriptResult, TranscriptionError>)
        ensures
            match outcome {
                Ok(t) => r matches Ok(res) && res.text@ == trim_seq(t@) && !res.is_partial,
                Err(e) => r matches Err(TranscriptionError::EngineFailed(m)) && m@ == e@,
            },
    {
        match outcome {
            Ok(t) => Ok(TranscriptResult { text: trim_text(t.as_str()), is_partial: false }),
            Err(e) => Err(TranscriptionError::EngineFailed(e)),
        }
    }
}

} // verus!
