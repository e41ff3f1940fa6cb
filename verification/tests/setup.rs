use gemini_live::types::{Model, SetupConfig};
use gemini_live::wire::{build_realtime_input, build_setup};
use serde_json::Value;

const TEMPERATURE: f32 = 0.8;

fn goal_schema() -> Value {
    let mut schema = serde_json::Map::new();
    schema.insert("type".to_string(), Value::from("object"));
    schema.insert("required".to_string(), Value::from(vec!["disposition"]));
    Value::from(schema)
}

fn cfg(model: Model, resume_handle: Option<String>) -> SetupConfig {
    SetupConfig {
        model,
        voice: "Autonoe".into(),
        language: if model.is_native() { None } else { Some("en-US".into()) },
        system_instruction: "Be nice.".into(),
        temperature: Value::from(TEMPERATURE),
        goal_schema: goal_schema(),
        resume_handle,
    }
}

#[test]
fn half_cascade_setup_shape() {
    let s = build_setup(&cfg(Model::HalfCascade, None));
    let setup = &s["setup"];
    assert_eq!(setup["model"], "models/gemini-3.1-flash-live-preview");
    assert_eq!(setup["generationConfig"]["responseModalities"][0], "AUDIO");
    assert_eq!(setup["generationConfig"]["temperature"], TEMPERATURE as f64);
    assert_eq!(
        setup["generationConfig"]["speechConfig"]["voiceConfig"]["prebuiltVoiceConfig"]["voiceName"],
        "Autonoe"
    );
    assert_eq!(setup["generationConfig"]["speechConfig"]["languageCode"], "en-US");
    // Exactly one tool: end_call, parameters == goal_schema.
    let decl = &setup["tools"][0]["functionDeclarations"][0];
    assert_eq!(decl["name"], "end_call");
    assert_eq!(decl["parameters"]["required"][0], "disposition");
    assert!(decl["behavior"].is_null(), "NON_BLOCKING is native-only");
    // Activity detection of the half-cascade model.
    let aad = &setup["realtimeInputConfig"]["automaticActivityDetection"];
    assert_eq!(aad["startOfSpeechSensitivity"], "START_SENSITIVITY_LOW");
    assert_eq!(aad["prefixPaddingMs"], 1000);
    assert!(aad["silenceDurationMs"].is_null());
    // Transcription both ways on.
    assert!(setup["inputAudioTranscription"].is_object());
    assert!(setup["outputAudioTranscription"].is_object());
    // No native-only fields.
    assert!(setup["enableAffectiveDialog"].is_null());
    assert!(setup["generationConfig"]["enableAffectiveDialog"].is_null());
    assert!(setup["generationConfig"]["thinkingConfig"].is_null());
    assert!(setup["proactivity"].is_null());
    // Top-level wrapper key is snake_case `setup`.
    assert!(s.get("setup").is_some());
}

#[test]
fn native_audio_setup_shape() {
    let s = build_setup(&cfg(Model::NativeAudio, Some("H1".into())));
    let setup = &s["setup"];
    assert_eq!(setup["model"], "models/gemini-2.5-flash-native-audio-latest");
    // No languageCode on native.
    assert!(setup["generationConfig"]["speechConfig"]["languageCode"].is_null());
    // proactivity is a top-level setup field.
    assert!(setup["proactivity"]["proactiveAudio"] == true);
    // enableAffectiveDialog nests under generationConfig, not directly under setup.
    assert!(setup["enableAffectiveDialog"].is_null());
    assert_eq!(setup["generationConfig"]["enableAffectiveDialog"], true);
    // Reasoning disabled on native (lower latency).
    assert_eq!(setup["generationConfig"]["thinkingConfig"]["thinkingBudget"], 0);
    // NON_BLOCKING behavior on end_call.
    assert_eq!(setup["tools"][0]["functionDeclarations"][0]["behavior"], "NON_BLOCKING");
    // Native activity detection.
    let aad = &setup["realtimeInputConfig"]["automaticActivityDetection"];
    assert_eq!(aad["startOfSpeechSensitivity"], "START_SENSITIVITY_HIGH");
    assert_eq!(aad["prefixPaddingMs"], 300);
    assert_eq!(aad["silenceDurationMs"], 100);
    // Resumption handle carried.
    assert_eq!(setup["sessionResumption"]["handle"], "H1");
    // Top-level wrapper key is snake_case `setup`.
    assert!(s.get("setup").is_some());
}

#[test]
fn resume_handle_none_serializes_null() {
    let s = build_setup(&cfg(Model::HalfCascade, None));
    assert!(s["setup"]["sessionResumption"]["handle"].is_null());
}

#[test]
fn setup_has_exactly_the_documented_members() {
    let half = build_setup(&cfg(Model::HalfCascade, None));
    let keys: Vec<&str> =
        half["setup"].as_object().unwrap().keys().map(|key| key.as_str()).collect();
    assert_eq!(
        keys,
        vec![
            "generationConfig",
            "inputAudioTranscription",
            "model",
            "outputAudioTranscription",
            "realtimeInputConfig",
            "sessionResumption",
            "systemInstruction",
            "tools",
        ]
    );
    let native = build_setup(&cfg(Model::NativeAudio, None));
    assert_eq!(native["setup"].as_object().unwrap().len(), keys.len() + 1);
    assert_eq!(half.as_object().unwrap().len(), 1);
    assert_eq!(half["setup"]["tools"].as_array().unwrap().len(), 1);
    assert_eq!(
        half["setup"]["tools"][0]["functionDeclarations"].as_array().unwrap().len(),
        1
    );
    assert_eq!(half["setup"]["systemInstruction"]["parts"][0]["text"], "Be nice.");
}

#[test]
fn end_call_is_described_in_one_sentence() {
    let s = build_setup(&cfg(Model::NativeAudio, None));
    assert_eq!(
        s["setup"]["tools"][0]["functionDeclarations"][0]["description"],
        "Call this exactly once, at the end of the conversation, with the collected information \
         and a final disposition."
    );
    assert_eq!(s["setup"]["tools"][0]["functionDeclarations"][0]["parameters"], goal_schema());
}

#[test]
fn language_is_left_out_where_none_is_named() {
    let mut without = cfg(Model::HalfCascade, None);
    without.language = None;
    let s = build_setup(&without);
    assert!(s["setup"]["generationConfig"]["speechConfig"].get("languageCode").is_none());
    // A native model gets none, even where one is named.
    let mut native = cfg(Model::NativeAudio, None);
    native.language = Some("en-US".into());
    let s = build_setup(&native);
    assert!(s["setup"]["generationConfig"]["speechConfig"].get("languageCode").is_none());
}

#[test]
fn handle_changes_nothing_else() {
    let mut with = build_setup(&cfg(Model::NativeAudio, Some("H1".into())));
    let mut without = build_setup(&cfg(Model::NativeAudio, None));
    assert_ne!(with, without);
    with["setup"].as_object_mut().unwrap().remove("sessionResumption");
    without["setup"].as_object_mut().unwrap().remove("sessionResumption");
    assert_eq!(with, without);
}

#[test]
fn temperature_that_is_no_number_is_null() {
    let mut odd = cfg(Model::HalfCascade, None);
    odd.temperature = Value::from(f32::NAN);
    let s = build_setup(&odd);
    assert!(s["setup"]["generationConfig"]["temperature"].is_null());
    assert!(s["setup"]["generationConfig"].get("temperature").is_some());
}

#[test]
fn setup_copy_takes_the_given_handle() {
    let first = cfg(Model::HalfCascade, Some("old".into()));
    let second = first.with_resume_handle(Some("new".into()));
    assert_eq!(second.resume_handle.as_deref(), Some("new"));
    assert_eq!(second.voice, first.voice);
    assert_eq!(second.language, first.language);
    assert_eq!(second.system_instruction, first.system_instruction);
    assert_eq!(second.temperature, first.temperature);
    assert_eq!(second.goal_schema, first.goal_schema);
    assert!(!second.is_native());
}

#[test]
fn audio_frames_have_their_exact_text() {
    assert_eq!(
        build_realtime_input(&[]),
        r#"{"realtime_input":{"audio":{"data":"","mimeType":"audio/pcm;rate=16000"}}}"#
    );
    // -2 is FE FF in little-endian two's complement, 32767 is FF 7F, -32768 is 00 80.
    assert_eq!(
        build_realtime_input(&[-2, 32767, -32768]),
        r#"{"realtime_input":{"audio":{"data":"/v//fwCA","mimeType":"audio/pcm;rate=16000"}}}"#
    );
}
