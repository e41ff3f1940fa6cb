//! What holds of every setup message.
use crate::json::Json;
use crate::types::{Model, SetupView};
use crate::wire;
use vstd::prelude::*;

verus! {

proof fn lemma_setup_keys_differ()
    ensures
        "model"@.len() == 5,
        "tools"@.len() == 5,
        "model"@[0] != "tools"@[0],
        "generationConfig"@.len() == 16,
        "systemInstruction"@.len() == 17,
        "sessionResumption"@.len() == 17,
        "systemInstruction"@[1] != "sessionResumption"@[1],
        "realtimeInputConfig"@.len() == 19,
        "inputAudioTranscription"@.len() == 23,
        "outputAudioTranscription"@.len() == 24,
        "proactivity"@.len() == 11,
        "enableAffectiveDialog"@.len() == 21,
        "thinkingConfig"@.len() == 14,
        "responseModalities"@.len() == 18,
        "temperature"@.len() == 11,
        "speechConfig"@.len() == 12,
        "voiceConfig"@.len() == 11,
        "languageCode"@.len() == 12,
        "name"@.len() == 4,
        "description"@.len() == 11,
        "parameters"@.len() == 10,
        "behavior"@.len() == 8,
        "startOfSpeechSensitivity"@.len() == 24,
        "prefixPaddingMs"@.len() == 15,
        "silenceDurationMs"@.len() == 17,
{
    reveal_strlit("model");
    reveal_strlit("tools");
    reveal_strlit("generationConfig");
    reveal_strlit("systemInstruction");
    reveal_strlit("sessionResumption");
    reveal_strlit("realtimeInputConfig");
    reveal_strlit("inputAudioTranscription");
    reveal_strlit("outputAudioTranscription");
    reveal_strlit("proactivity");
    reveal_strlit("enableAffectiveDialog");
    reveal_strlit("thinkingConfig");
    reveal_strlit("responseModalities");
    reveal_strlit("temperature");
    reveal_strlit("speechConfig");
    reveal_strlit("voiceConfig");
    reveal_strlit("languageCode");
    reveal_strlit("name");
    reveal_strlit("description");
    reveal_strlit("parameters");
    reveal_strlit("behavior");
    reveal_strlit("startOfSpeechSensitivity");
    reveal_strlit("prefixPaddingMs");
    reveal_strlit("silenceDurationMs");
}

/// The setup carries the handle to resume, and null where there is none.
pub proof fn law_handle_is_carried(cfg: SetupView)
    ensures
        wire::setup_body(cfg).member("sessionResumption"@) == Some(
            Json::single("handle"@, wire::handle_document(cfg.resume_handle)),
        ),
        Json::single("handle"@, wire::handle_document(cfg.resume_handle)).member("handle"@) == Some(
            match cfg.resume_handle {
                Some(handle) => Json::Text(handle),
                None => Json::Null,
            },
        ),
{
    lemma_setup_keys_differ();
}

/// Two setups that differ in the handle to resume differ in nothing else.
pub proof fn law_handle_changes_nothing_else(
    cfg: SetupView,
    handle: Option<Seq<char>>,
    key: Seq<char>,
)
    requires
        key != "sessionResumption"@,
    ensures
        wire::setup_body(SetupView { resume_handle: handle, ..cfg }).member(key) == wire::setup_body(cfg).member(
            key,
        ),
{
    lemma_setup_keys_differ();
}

/// For a native model, affective dialog is on and thinking off, both under `generationConfig`
/// and not beside it, and proactive audio is on, directly under `setup`.
pub proof fn law_native_extras_are_in_place(cfg: SetupView)
    requires
        cfg.model is NativeAudio,
    ensures
        wire::setup_body(cfg).member("generationConfig"@) == Some(wire::generation_config(cfg)),
        wire::generation_config(cfg).member("enableAffectiveDialog"@) == Some(Json::Bool(true)),
        wire::generation_config(cfg).member("thinkingConfig"@) == Some(
            Json::single("thinkingBudget"@, Json::Integer(0)),
        ),
        wire::generation_config(cfg).member("proactivity"@) is None,
        wire::setup_body(cfg).member("enableAffectiveDialog"@) is None,
        wire::setup_body(cfg).member("thinkingConfig"@) is None,
        wire::setup_body(cfg).member("proactivity"@) == Some(
            Json::single("proactiveAudio"@, Json::Bool(true)),
        ),
{
    lemma_setup_keys_differ();
    reveal_strlit("proactivity");
    reveal_strlit("temperature");
    assert("proactivity"@[0] != "temperature"@[0]);
}

/// For the half-cascade model none of the native extras is there, at either place.
pub proof fn law_half_cascade_has_no_native_extras(cfg: SetupView)
    requires
        cfg.model is HalfCascade,
    ensures
        wire::setup_body(cfg).member("generationConfig"@) == Some(wire::generation_config(cfg)),
        wire::generation_config(cfg).member("enableAffectiveDialog"@) is None,
        wire::generation_config(cfg).member("thinkingConfig"@) is None,
        wire::setup_body(cfg).member("enableAffectiveDialog"@) is None,
        wire::setup_body(cfg).member("thinkingConfig"@) is None,
        wire::setup_body(cfg).member("proactivity"@) is None,
{
    lemma_setup_keys_differ();
}

/// The language goes to the half-cascade model where the caller names one, and never to a native
/// model.
pub proof fn law_language_is_for_half_cascade(cfg: SetupView)
    ensures
        wire::generation_config(cfg).member("speechConfig"@) == Some(wire::speech_config(cfg)),
        wire::speech_config(cfg).member("languageCode"@) == match (cfg.model, cfg.language) {
            (Model::HalfCascade, Some(language)) => Some(Json::Text(language)),
            _ => None,
        },
{
    lemma_setup_keys_differ();
}

/// There is exactly one tool, `end_call`. Its parameters are the goal schema, and it is
/// non-blocking for a native model alone.
pub proof fn law_end_call_is_the_only_tool(cfg: SetupView)
    ensures
        wire::setup_body(cfg).member("tools"@) == Some(
            Json::Array(
                seq![
                    Json::single(
                        "functionDeclarations"@,
                        Json::Array(seq![wire::end_call_declaration(cfg)]),
                    ),
                ],
            ),
        ),
        wire::end_call_declaration(cfg).member("name"@) == Some(Json::Text("end_call"@)),
        wire::end_call_declaration(cfg).member("parameters"@) == Some(cfg.goal_schema),
        wire::end_call_declaration(cfg).member("behavior"@) == match cfg.model {
            Model::HalfCascade => None,
            Model::NativeAudio => Some(Json::Text("NON_BLOCKING"@)),
        },
{
    lemma_setup_keys_differ();
}

/// Both sides of the conversation are transcribed, whatever the model.
pub proof fn law_both_sides_are_transcribed(cfg: SetupView)
    ensures
        wire::setup_body(cfg).member("inputAudioTranscription"@) == Some(Json::empty_object()),
        wire::setup_body(cfg).member("outputAudioTranscription"@) == Some(Json::empty_object()),
{
    lemma_setup_keys_differ();
}

/// The half-cascade model leaves the length of a silence to the service; a native model gets one.
pub proof fn law_silence_is_set_for_native_models(cfg: SetupView)
    ensures
        wire::setup_body(cfg).member("realtimeInputConfig"@) == Some(
            Json::single("automaticActivityDetection"@, wire::activity_detection(cfg.model)),
        ),
        wire::activity_detection(cfg.model).member("silenceDurationMs"@) == match cfg.model {
            Model::HalfCascade => None,
            Model::NativeAudio => Some(Json::Integer(100)),
        },
{
    lemma_setup_keys_differ();
}

/// The message is the setup and nothing else.
pub proof fn law_message_is_the_setup(cfg: SetupView, key: Seq<char>)
    ensures
        wire::setup_message(cfg).member("setup"@) == Some(wire::setup_body(cfg)),
        key != "setup"@ ==> wire::setup_message(cfg).member(key) is None,
{
}

/// What the caller says goes to either model: the model's name, the voice, the temperature and
/// the system instruction, and the answer is to be spoken.
pub proof fn law_callers_choices_are_sent(cfg: SetupView)
    ensures
        wire::setup_body(cfg).member("model"@) == Some(
            Json::Text(
                match cfg.model {
                    Model::HalfCascade => "models/"@ + "gemini-3.1-flash-live-preview"@,
                    Model::NativeAudio => "models/"@ + "gemini-2.5-flash-native-audio-latest"@,
                },
            ),
        ),
        ({
            &&& wire::setup_body(cfg).member("generationConfig"@) matches Some(generation)
            &&& generation.member("temperature"@) == Some(cfg.temperature)
            &&& generation.member("responseModalities"@) == Some(
                Json::Array(seq![Json::Text("AUDIO"@)]),
            )
            &&& generation.member("speechConfig"@) matches Some(speech)
            &&& speech.member("voiceConfig"@) matches Some(voice)
            &&& voice.member("prebuiltVoiceConfig"@) matches Some(prebuilt)
            &&& prebuilt.member("voiceName"@) == Some(Json::Text(cfg.voice))
        }),
        ({
            &&& wire::setup_body(cfg).member("systemInstruction"@) matches Some(instruction)
            &&& instruction.member("parts"@) matches Some(Json::Array(parts))
            &&& parts.len() == 1
            &&& parts[0].member("text"@) == Some(Json::Text(cfg.system_instruction))
        }),
{
    lemma_setup_keys_differ();
    reveal_strlit("voiceConfig");
    reveal_strlit("languageCode");
}

/// How speech is told from silence, for each model.
pub proof fn law_activity_detection_settings(cfg: SetupView)
    ensures
        ({
            &&& wire::setup_body(cfg).member("realtimeInputConfig"@) matches Some(input)
            &&& input.member("automaticActivityDetection"@) matches Some(detection)
            &&& detection.member("startOfSpeechSensitivity"@) == Some(
                Json::Text(
                    match cfg.model {
                        Model::HalfCascade => "START_SENSITIVITY_LOW"@,
                        Model::NativeAudio => "START_SENSITIVITY_HIGH"@,
                    },
                ),
            )
            &&& detection.member("prefixPaddingMs"@) == Some(
                Json::Integer(
                    match cfg.model {
                        Model::HalfCascade => 1000,
                        Model::NativeAudio => 300,
                    },
                ),
            )
            &&& detection.member("silenceDurationMs"@) == match cfg.model {
                Model::HalfCascade => None,
                Model::NativeAudio => Some(Json::Integer(100)),
            }
        }),
{
    lemma_setup_keys_differ();
}

/// The one tool, as the service reads it, whatever the model.
pub proof fn law_tool_as_it_is_read(cfg: SetupView)
    ensures
        ({
            &&& wire::setup_body(cfg).member("tools"@) matches Some(Json::Array(tools))
            &&& tools.len() == 1
            &&& tools[0].member("functionDeclarations"@) matches Some(Json::Array(declarations))
            &&& declarations.len() == 1
            &&& declarations[0].member("name"@) == Some(Json::Text("end_call"@))
            &&& declarations[0].member("description"@) == Some(
                Json::Text(
                    "Call this exactly once, at the end of the conversation, with the collected information and a final disposition."@,
                ),
            )
            &&& declarations[0].member("parameters"@) == Some(cfg.goal_schema)
            &&& declarations[0].member("behavior"@) == match cfg.model {
                Model::HalfCascade => None,
                Model::NativeAudio => Some(Json::Text("NON_BLOCKING"@)),
            }
        }),
{
    lemma_setup_keys_differ();
}

/// The setup has these members and no others; `proactivity` for a native model alone.
pub proof fn law_setup_has_no_other_members(cfg: SetupView, key: Seq<char>)
    requires
        wire::setup_body(cfg).member(key) is Some,
    ensures
        key == "model"@ || key == "generationConfig"@ || key == "systemInstruction"@ || key
            == "tools"@ || key == "realtimeInputConfig"@ || key == "sessionResumption"@ || key
            == "inputAudioTranscription"@ || key == "outputAudioTranscription"@ || (key
            == "proactivity"@ && cfg.model is NativeAudio),
{
}

/// The parts of the setup have these members and no others.
pub proof fn law_parts_have_no_other_members(cfg: SetupView, key: Seq<char>)
    ensures
        wire::generation_config(cfg).member(key) is Some ==> key == "responseModalities"@ || key
            == "temperature"@ || key == "speechConfig"@ || (cfg.model is NativeAudio && (key
            == "thinkingConfig"@ || key == "enableAffectiveDialog"@)),
        wire::speech_config(cfg).member(key) is Some ==> key == "voiceConfig"@ || (key
            == "languageCode"@ && cfg.model is HalfCascade && cfg.language is Some),
        wire::end_call_declaration(cfg).member(key) is Some ==> key == "name"@ || key
            == "description"@ || key == "parameters"@ || (key == "behavior"@
            && cfg.model is NativeAudio),
        wire::activity_detection(cfg.model).member(key) is Some ==> key
            == "startOfSpeechSensitivity"@ || key == "prefixPaddingMs"@ || (key
            == "silenceDurationMs"@ && cfg.model is NativeAudio),
        wire::setup_body(cfg).member("generationConfig"@) == Some(wire::generation_config(cfg)),
        wire::generation_config(cfg).member("speechConfig"@) == Some(wire::speech_config(cfg)),
{
    lemma_setup_keys_differ();
}

/// The objects of the setup that hold a single member hold no other.
pub proof fn law_wrappers_hold_one_member(cfg: SetupView, key: Seq<char>)
    ensures
        wire::setup_body(cfg).member("systemInstruction"@)->0.member(key) is Some ==> key
            == "parts"@,
        wire::setup_body(cfg).member("systemInstruction"@)->0.member(
            "parts"@,
        )->0->Array_0[0].member(key) is Some ==> key == "text"@,
        wire::setup_body(cfg).member("tools"@)->0->Array_0[0].member(key) is Some ==> key
            == "functionDeclarations"@,
        wire::setup_body(cfg).member("realtimeInputConfig"@)->0.member(key) is Some ==> key
            == "automaticActivityDetection"@,
        wire::setup_body(cfg).member("sessionResumption"@)->0.member(key) is Some ==> key
            == "handle"@,
        wire::speech_config(cfg).member("voiceConfig"@)->0.member(key) is Some ==> key
            == "prebuiltVoiceConfig"@,
        wire::speech_config(cfg).member("voiceConfig"@)->0.member(
            "prebuiltVoiceConfig"@,
        )->0.member(key) is Some ==> key == "voiceName"@,
        cfg.model is NativeAudio ==> (wire::setup_body(cfg).member("proactivity"@)->0.member(
            key,
        ) is Some ==> key == "proactiveAudio"@),
        cfg.model is NativeAudio ==> (wire::generation_config(cfg).member(
            "thinkingConfig"@,
        )->0.member(key) is Some ==> key == "thinkingBudget"@),
{
    lemma_setup_keys_differ();
}

/// Nothing of the caller's configuration is lost: two configurations with the same message are
/// the same, but perhaps for a language that a native model does not take.
pub proof fn law_setup_loses_nothing(one: SetupView, other: SetupView)
    requires
        wire::setup_message(one) == wire::setup_message(other),
    ensures
        one.model == other.model,
        one.voice == other.voice,
        one.system_instruction == other.system_instruction,
        one.temperature == other.temperature,
        one.goal_schema == other.goal_schema,
        one.resume_handle == other.resume_handle,
        one.model is HalfCascade ==> one.language == other.language,
{
    law_message_is_the_setup(one, "setup"@);
    law_message_is_the_setup(other, "setup"@);
    law_callers_choices_are_sent(one);
    law_callers_choices_are_sent(other);
    law_tool_as_it_is_read(one);
    law_tool_as_it_is_read(other);
    law_handle_is_carried(one);
    law_handle_is_carried(other);
    law_language_is_for_half_cascade(one);
    law_language_is_for_half_cascade(other);
    law_parts_have_no_other_members(one, "speechConfig"@);
    law_parts_have_no_other_members(other, "speechConfig"@);
    law_activity_detection_settings(one);
    law_activity_detection_settings(other);
}

/// Two setups of the same caller for the two models agree in all that does not depend on the
/// model.
pub proof fn law_model_changes_only_its_own(cfg: SetupView, key: Seq<char>)
    requires
        key == "systemInstruction"@ || key == "sessionResumption"@ || key
            == "inputAudioTranscription"@ || key == "outputAudioTranscription"@,
    ensures
        wire::setup_body(SetupView { model: Model::HalfCascade, ..cfg }).member(key)
            == wire::setup_body(SetupView { model: Model::NativeAudio, ..cfg }).member(key),
        wire::setup_body(cfg).member(key) is Some,
{
    lemma_setup_keys_differ();
}

} // verus!
