//! The messages that the session sends, as JSON documents.
use crate::base64;
use crate::json;
use crate::json::Json;
use crate::types::{Model, SetupConfig, SetupView};
use serde_json::Value;
use vstd::prelude::*;

verus! {

/// What the service is told of the tool that ends a call.
pub const END_CALL_DESCRIPTION: &'static str = "Call this exactly once, at the end of the conversation, with the collected information and a final disposition.";

/// The voice, and for the half-cascade model the language where the caller names one.
pub open spec fn speech_config(cfg: SetupView) -> Json {
    let voice = Json::single(
        "voiceConfig"@,
        Json::single("prebuiltVoiceConfig"@, Json::single("voiceName"@, Json::Text(cfg.voice))),
    );
    match (cfg.model, cfg.language) {
        (Model::HalfCascade, Some(language)) => voice.with_member(
            "languageCode"@,
            Json::Text(language),
        ),
        _ => voice,
    }
}

/// The declaration of the one tool: its parameters are the goal schema, and a native model does
/// not wait for its response.
pub open spec fn end_call_declaration(cfg: SetupView) -> Json {
    let declaration = Json::empty_object().with_member(
        "name"@,
        Json::Text("end_call"@),
    ).with_member("description"@, Json::Text(END_CALL_DESCRIPTION@)).with_member(
        "parameters"@,
        cfg.goal_schema,
    );
    match cfg.model {
        Model::HalfCascade => declaration,
        Model::NativeAudio => declaration.with_member("behavior"@, Json::Text("NON_BLOCKING"@)),
    }
}

/// How the service tells speech from silence.
pub open spec fn activity_detection(model: Model) -> Json {
    match model {
        Model::HalfCascade => Json::empty_object().with_member(
            "startOfSpeechSensitivity"@,
            Json::Text("START_SENSITIVITY_LOW"@),
        ).with_member("prefixPaddingMs"@, Json::Integer(1000)),
        Model::NativeAudio => Json::empty_object().with_member(
            "startOfSpeechSensitivity"@,
            Json::Text("START_SENSITIVITY_HIGH"@),
        ).with_member("prefixPaddingMs"@, Json::Integer(300)).with_member(
            "silenceDurationMs"@,
            Json::Integer(100),
        ),
    }
}

/// How the service generates. The extras of a native model nest here.
pub open spec fn generation_config(cfg: SetupView) -> Json {
    let common = Json::empty_object().with_member(
        "responseModalities"@,
        Json::Array(seq![Json::Text("AUDIO"@)]),
    ).with_member("temperature"@, cfg.temperature).with_member("speechConfig"@, speech_config(cfg));
    match cfg.model {
        Model::HalfCascade => common,
        Model::NativeAudio => common.with_member(
            "thinkingConfig"@,
            Json::single("thinkingBudget"@, Json::Integer(0)),
        ).with_member("enableAffectiveDialog"@, Json::Bool(true)),
    }
}

/// The handle to resume, null where there is none.
pub open spec fn handle_document(handle: Option<Seq<char>>) -> Json {
    match handle {
        Some(handle) => Json::Text(handle),
        None => Json::Null,
    }
}

/// The body of the first message of a connection.
pub open spec fn setup_body(cfg: SetupView) -> Json {
    let common = Json::empty_object().with_member(
        "model"@,
        Json::Text("models/"@ + cfg.model.spec_model_id()),
    ).with_member("generationConfig"@, generation_config(cfg)).with_member(
        "systemInstruction"@,
        Json::single(
            "parts"@,
            Json::Array(seq![Json::single("text"@, Json::Text(cfg.system_instruction))]),
        ),
    ).with_member(
        "tools"@,
        Json::Array(
            seq![
                Json::single(
                    "functionDeclarations"@,
                    Json::Array(seq![end_call_declaration(cfg)]),
                ),
            ],
        ),
    ).with_member(
        "realtimeInputConfig"@,
        Json::single("automaticActivityDetection"@, activity_detection(cfg.model)),
    ).with_member(
        "sessionResumption"@,
        Json::single("handle"@, handle_document(cfg.resume_handle)),
    ).with_member("inputAudioTranscription"@, Json::empty_object()).with_member(
        "outputAudioTranscription"@,
        Json::empty_object(),
    );
    match cfg.model {
        Model::HalfCascade => common,
        Model::NativeAudio => common.with_member(
            "proactivity"@,
            Json::single("proactiveAudio"@, Json::Bool(true)),
        ),
    }
}

/// The first message of a connection.
pub open spec fn setup_message(cfg: SetupView) -> Json {
    Json::single("setup"@, setup_body(cfg))
}

fn build_speech_config(cfg: &SetupConfig) -> (value: Value)
    ensures
        json::document(value) == speech_config(cfg@),
{
    let mut speech = json::new_map();
    let voice_name = json::single("voiceName", json::text(cfg.voice.as_str()));
    json::set(&mut speech, "voiceConfig", json::single("prebuiltVoiceConfig", voice_name));
    if !cfg.is_native() {
        if let Some(language) = &cfg.language {
            json::set(&mut speech, "languageCode", json::text(language.as_str()));
        }
    }
    json::object(speech)
}

fn build_end_call(cfg: &SetupConfig) -> (value: Value)
    ensures
        json::document(value) == end_call_declaration(cfg@),
{
    let mut end_call = json::new_map();
    json::set(&mut end_call, "name", json::text("end_call"));
    json::set(&mut end_call, "description", json::text(END_CALL_DESCRIPTION));
    json::set(&mut end_call, "parameters", cfg.goal_schema.clone());
    if cfg.is_native() {
        json::set(&mut end_call, "behavior", json::text("NON_BLOCKING"));
    }
    json::object(end_call)
}

fn build_activity_detection(model: Model) -> (value: Value)
    ensures
        json::document(value) == activity_detection(model),
{
    let mut detection = json::new_map();
    if model.is_native() {
        json::set(
            &mut detection,
            "startOfSpeechSensitivity",
            json::text("START_SENSITIVITY_HIGH"),
        );
        json::set(&mut detection, "prefixPaddingMs", json::integer(300));
        json::set(&mut detection, "silenceDurationMs", json::integer(100));
    } else {
        json::set(&mut detection, "startOfSpeechSensitivity", json::text("START_SENSITIVITY_LOW"));
        json::set(&mut detection, "prefixPaddingMs", json::integer(1000));
    }
    json::object(detection)
}

fn build_generation_config(cfg: &SetupConfig) -> (value: Value)
    ensures
        json::document(value) == generation_config(cfg@),
{
    let mut generation = json::new_map();
    json::set(&mut generation, "responseModalities", json::array_of_one(json::text("AUDIO")));
    json::set(&mut generation, "temperature", cfg.temperature.clone());
    json::set(&mut generation, "speechConfig", build_speech_config(cfg));
    if cfg.is_native() {
        json::set(
            &mut generation,
            "thinkingConfig",
            json::single("thinkingBudget", json::integer(0)),
        );
        json::set(&mut generation, "enableAffectiveDialog", json::boolean(true));
    }
    json::object(generation)
}

/// Builds the first `setup` message of a session. Every value comes from `cfg`; prompts are
/// assembled by the caller.
///
/// `enableAffectiveDialog` and `thinkingConfig` nest under `generationConfig`, and `proactivity`
/// stands directly under `setup`: the service closes a connection that places them elsewhere.
pub fn build_setup(cfg: &SetupConfig) -> (message: Value)
    ensures
        json::document(message) == setup_message(cfg@),
{
    let mut setup = json::new_map();
    let model = "models/".to_owned().concat(cfg.model.model_id());
    json::set(&mut setup, "model", json::text(model.as_str()));
    json::set(&mut setup, "generationConfig", build_generation_config(cfg));
    let instruction = json::single("text", json::text(cfg.system_instruction.as_str()));
    json::set(
        &mut setup,
        "systemInstruction",
        json::single("parts", json::array_of_one(instruction)),
    );
    let declarations = json::array_of_one(build_end_call(cfg));
    json::set(
        &mut setup,
        "tools",
        json::array_of_one(json::single("functionDeclarations", declarations)),
    );
    json::set(
        &mut setup,
        "realtimeInputConfig",
        json::single("automaticActivityDetection", build_activity_detection(cfg.model)),
    );
    json::set(
        &mut setup,
        "sessionResumption",
        json::single("handle", json::optional_text(cfg.resume_handle.clone())),
    );
    json::set(&mut setup, "inputAudioTranscription", json::object(json::new_map()));
    json::set(&mut setup, "outputAudioTranscription", json::object(json::new_map()));
    if cfg.is_native() {
        json::set(
            &mut setup,
            "proactivity",
            json::single("proactiveAudio", json::boolean(true)),
        );
    }
    json::single("setup", json::object(setup))
}

/// The byte at `index` of PCM16 audio: each sample takes two bytes in two's complement, the low
/// one first.
pub open spec fn pcm_byte(samples: Seq<i16>, index: int) -> u8 {
    let sample = samples[index / 2] as int;
    if index % 2 == 0 {
        (sample % 256) as u8
    } else {
        ((sample / 256) % 256) as u8
    }
}

/// PCM16 audio as little-endian bytes.
pub open spec fn pcm_bytes(samples: Seq<i16>) -> Seq<u8> {
    Seq::new(2 * samples.len(), |index: int| pcm_byte(samples, index))
}

/// The message that carries uplink audio at 16 kHz.
pub open spec fn realtime_input_message(samples: Seq<i16>) -> Json {
    Json::single(
        "realtime_input"@,
        Json::single(
            "audio"@,
            Json::empty_object().with_member(
                "data"@,
                Json::Text(base64::encoded(pcm_bytes(samples))),
            ).with_member("mimeType"@, Json::Text("audio/pcm;rate=16000"@)),
        ),
    )
}

fn encode_pcm(samples: &[i16]) -> (bytes: Vec<u8>)
    ensures
        bytes@ == pcm_bytes(samples@),
{
    let mut bytes: Vec<u8> = Vec::new();
    for at in 0..samples.len()
        invariant
            bytes@.len() == 2 * at,
            at <= samples.len(),
            forall|index: int| 0 <= index < 2 * at ==> bytes@[index] == pcm_byte(samples@, index),
    {
        let sample: i32 = samples[at] as i32;
        let bits: u32 = if sample < 0 {
            (sample + 65536) as u32
        } else {
            sample as u32
        };
        bytes.push((bits % 256) as u8);
        bytes.push((bits / 256) as u8);
    }
    assert(bytes@ =~= pcm_bytes(samples@));
    bytes
}

/// Builds the text of one uplink audio frame (PCM16 at 16 kHz).
pub fn build_realtime_input(pcm16_16k: &[i16]) -> (message: String)
    ensures
        message@ == json::compact_text(realtime_input_message(pcm16_16k@)),
{
    let bytes = encode_pcm(pcm16_16k);
    let data = base64::encode(bytes.as_slice());
    let mut audio = json::new_map();
    json::set(&mut audio, "data", json::text(data.as_str()));
    json::set(&mut audio, "mimeType", json::text("audio/pcm;rate=16000"));
    let message = json::single("realtime_input", json::single("audio", json::object(audio)));
    json::print(&message)
}

} // verus!
