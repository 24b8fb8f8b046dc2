use meetily_sherpa::models::{
    configured_model, has_available_model, preferred_model_index, reset_for_retry, select_model,
    ModelInfo, ModelStatus, QuantizationType, TranscriptConfig,
};
use meetily_sherpa::text::trim_text;

fn model(name: &str, status: ModelStatus, quantization: QuantizationType) -> ModelInfo {
    ModelInfo { name: name.to_string(), status, quantization }
}

fn catalog() -> Vec<ModelInfo> {
    vec![
        model("sense-voice-fp32", ModelStatus::Available, QuantizationType::Float32),
        model("whisper-int8", ModelStatus::Missing, QuantizationType::Int8),
        model("sense-voice-int8", ModelStatus::Available, QuantizationType::Int8),
        model("paraformer-int8", ModelStatus::Available, QuantizationType::Int8),
    ]
}

const NO_MODELS: &str =
    "No Sherpa models are available. Please download a model to enable fast transcription.";

#[test]
fn trim_removes_ascii_whitespace() {
    assert_eq!(trim_text("  hello world \n\t"), "hello world");
}

#[test]
fn trim_removes_unicode_whitespace() {
    assert_eq!(trim_text("\u{3000}\u{a0}text\u{2028}\u{85}"), "text");
}

#[test]
fn trim_of_blank_is_empty() {
    assert_eq!(trim_text(" \r\n\u{2003} "), "");
    assert_eq!(trim_text(""), "");
}

#[test]
fn trim_keeps_inner_whitespace_and_other_text() {
    assert_eq!(trim_text("a  b"), "a  b");
    assert_eq!(trim_text("x\u{200b}"), "x\u{200b}");
}

#[test]
fn trim_twice_is_trim_once() {
    let once = trim_text("  \t spaced out \n");
    assert_eq!(trim_text(&once), once);
}

#[test]
fn configured_available_model_is_chosen() {
    let r = select_model(&catalog(), Some("sense-voice-fp32".to_string()));
    assert_eq!(r, Ok("sense-voice-fp32".to_string()));
}

#[test]
fn configured_missing_model_falls_back_to_first_int8() {
    let r = select_model(&catalog(), Some("whisper-int8".to_string()));
    assert_eq!(r, Ok("sense-voice-int8".to_string()));
    let r = select_model(&catalog(), Some("unknown".to_string()));
    assert_eq!(r, Ok("sense-voice-int8".to_string()));
}

#[test]
fn without_configuration_first_int8_is_chosen() {
    assert_eq!(select_model(&catalog(), None), Ok("sense-voice-int8".to_string()));
    assert_eq!(preferred_model_index(&catalog()), Some(2));
}

#[test]
fn without_int8_first_available_is_chosen() {
    let ms = vec![
        model("a", ModelStatus::Missing, QuantizationType::Float32),
        model("b", ModelStatus::Available, QuantizationType::Float32),
        model("c", ModelStatus::Available, QuantizationType::Float32),
    ];
    assert_eq!(select_model(&ms, None), Ok("b".to_string()));
    assert_eq!(preferred_model_index(&ms), Some(1));
}

#[test]
fn no_available_model_fails_selection() {
    let ms = vec![model("a", ModelStatus::Missing, QuantizationType::Int8)];
    assert_eq!(select_model(&ms, None), Err(NO_MODELS.to_string()));
    assert_eq!(select_model(&Vec::new(), Some("a".to_string())), Err(NO_MODELS.to_string()));
    assert!(!has_available_model(&ms));
    assert_eq!(preferred_model_index(&ms), None);
}

#[test]
fn has_available_model_agrees_with_selection() {
    assert!(has_available_model(&catalog()));
    assert!(select_model(&catalog(), None).is_ok());
}

#[test]
fn configuration_for_this_provider_names_the_model() {
    let cfg = TranscriptConfig { provider: "sherpaOnnx".to_string(), model: "sense-voice-int8".to_string() };
    assert_eq!(configured_model(Ok(Some(cfg))), Some("sense-voice-int8".to_string()));
}

#[test]
fn configuration_for_other_provider_or_empty_model_is_ignored() {
    let other = TranscriptConfig { provider: "localWhisper".to_string(), model: "large-v3".to_string() };
    assert_eq!(configured_model(Ok(Some(other))), None);
    let empty = TranscriptConfig { provider: "sherpaOnnx".to_string(), model: String::new() };
    assert_eq!(configured_model(Ok(Some(empty))), None);
    assert_eq!(configured_model(Ok(None)), None);
    assert_eq!(configured_model(Err("offline".to_string())), None);
}

#[test]
fn retry_reset_forgets_download_and_marks_missing() {
    let mut active = vec!["a".to_string(), "m".to_string(), "b".to_string()];
    let mut ms = vec![
        model("m", ModelStatus::Available, QuantizationType::Int8),
        model("n", ModelStatus::Available, QuantizationType::Float32),
    ];
    reset_for_retry(&mut active, &mut ms, &"m".to_string());
    assert_eq!(active, vec!["a".to_string(), "b".to_string()]);
    assert_eq!(ms[0].status, ModelStatus::Missing);
    assert_eq!(ms[0].quantization, QuantizationType::Int8);
    assert_eq!(ms[1].status, ModelStatus::Available);
}

#[test]
fn retry_reset_of_unknown_model_changes_nothing() {
    let mut active = vec!["a".to_string()];
    let mut ms = vec![model("n", ModelStatus::Available, QuantizationType::Float32)];
    reset_for_retry(&mut active, &mut ms, &"zzz".to_string());
    assert_eq!(active, vec!["a".to_string()]);
    assert_eq!(ms[0].status, ModelStatus::Available);
}
