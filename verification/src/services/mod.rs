//! The services that a session talks to: speech recognition, a language model and
//! speech synthesis.
pub mod mock;
pub mod openai;
pub mod pi_http;
pub mod pi_rpc;
pub mod volcengine;
pub mod volcengine_asr;

use crate::audio::silero_vad::{vad_configured, vad_provider, SileroVadConfig};
use crate::env::{means_off, ConfigError, Env};
use crate::protocol::AudioFrame;
use crate::speaker_id::{speaker_configured, speaker_provider, speaker_wanted, SpeakerIdConfig};
use openai::{openai_configured, OpenAiLlmConfig, Temperature};
use pi_http::{pi_http_configured, PiHttpLlmConfig};
use volcengine::{
    encoding_of, encoding_setting, tts_api_key, tts_configured, tts_wanted, VolcengineTtsConfig,
};
use volcengine_asr::{asr_configured, asr_credentials, asr_wanted, VolcengineAsrConfig};
use vstd::prelude::*;

verus! {

/// Who a language model session is for.
#[derive(Clone, Debug)]
pub struct LlmSessionMeta {
    pub session_id: String,
    pub device_id: Option<String>,
    pub client_id: Option<String>,
    pub agent_id: Option<String>,
    pub speaker_name: Option<String>,
}

/// What speech synthesis brings.
#[derive(Debug)]
pub enum TtsEvent {
    SentenceStart(String),
    Audio(AudioFrame),
}

/// What an event of speech synthesis holds.
pub enum TtsView {
    SentenceStart(Seq<char>),
    Audio { timestamp: u32, payload: Seq<u8> },
}

impl TtsEvent {
    pub open spec fn view(self) -> TtsView {
        match self {
            TtsEvent::SentenceStart(text) => TtsView::SentenceStart(text@),
            TtsEvent::Audio(frame) => TtsView::Audio {
                timestamp: frame.timestamp,
                payload: frame.bytes(),
            },
        }
    }
}

/// What some events of speech synthesis hold.
pub open spec fn tts_views(events: Seq<TtsEvent>) -> Seq<TtsView> {
    events.map_values(|e: TtsEvent| e@)
}

/// A message of a websocket to a service.
#[derive(Debug)]
pub enum WsFrame {
    Binary(bytes::Bytes),
    Text(String),
    /// A ping, a pong or a raw frame.
    Control,
    /// The peer closes, with what it says about it.
    Close(String),
}

/// The language model that answers.
#[derive(Debug)]
pub enum LlmChoice {
    PiHttp(PiHttpLlmConfig),
    OpenAi(OpenAiLlmConfig),
    Mock,
}

/// The services that the settings ask for. Where one is missing, a mock stands in
/// for it; voice activity and speaker identification are then off.
#[derive(Debug)]
pub struct ServicePlan {
    pub tts: Option<VolcengineTtsConfig>,
    pub asr: Option<VolcengineAsrConfig>,
    pub vad: Option<SileroVadConfig>,
    pub speaker_id: Option<SpeakerIdConfig>,
    pub llm: LlmChoice,
}

/// The part of the settings that keeps the services from being set up.
#[derive(Debug, Clone, Copy, PartialEq, Eq, Structural)]
pub enum ServicePart {
    Tts,
    Asr,
    Vad,
    SpeakerId,
    Llm,
}

/// The settings for speech synthesis can be used.
pub open spec fn tts_usable(env: Env) -> bool {
    tts_wanted(env) ==> {
        &&& env.nonempty("VOLCENGINE_TTS_VOICE_TYPE"@) is Some
        &&& tts_api_key(env) is Some
        &&& encoding_of(encoding_setting(env)) is Some
    }
}

/// The settings for speech recognition can be used.
pub open spec fn asr_usable(env: Env) -> bool {
    asr_wanted(env) ==> asr_credentials(env)
}

/// The settings for voice activity can be used.
pub open spec fn vad_usable(env: Env) -> bool {
    means_off(vad_provider(env)) || vad_provider(env) == "silero"@
}

/// The settings for speaker identification can be used.
pub open spec fn speaker_usable(env: Env) -> bool {
    means_off(speaker_provider(env)) || speaker_wanted(env)
}

impl ServicePlan {
    /// The services that the settings ask for, or the first part of the settings
    /// that cannot be used, in the order of the fields. The pi server comes before
    /// an OpenAI-compatible service.
    pub fn from_env(env: &Env, temperature: Option<Temperature>) -> (r: Result<
        Self,
        (ServicePart, ConfigError),
    >)
        ensures
            match r {
                Ok(plan) => {
                    &&& tts_configured(*env, Ok(plan.tts))
                    &&& asr_configured(*env, Ok(plan.asr))
                    &&& vad_configured(*env, Ok(plan.vad))
                    &&& speaker_configured(*env, Ok(plan.speaker_id))
                    &&& match plan.llm {
                        LlmChoice::PiHttp(c) => pi_http_configured(*env, Ok(Some(c))),
                        LlmChoice::OpenAi(c) => pi_http_configured(*env, Ok(None))
                            && openai_configured(*env, temperature, Ok(Some(c))),
                        LlmChoice::Mock => pi_http_configured(*env, Ok(None)) && openai_configured(
                            *env,
                            temperature,
                            Ok(None),
                        ),
                    }
                },
                Err((part, e)) => {
                    &&& match part {
                        ServicePart::Tts => tts_configured(*env, Err(e)),
                        ServicePart::Asr => asr_configured(*env, Err(e)),
                        ServicePart::Vad => vad_configured(*env, Err(e)),
                        ServicePart::SpeakerId => speaker_configured(*env, Err(e)),
                        ServicePart::Llm => pi_http_configured(*env, Err(e)) || (
                        pi_http_configured(*env, Ok(None)) && openai_configured(
                            *env,
                            temperature,
                            Err(e),
                        )),
                    }
                    &&& part != ServicePart::Tts ==> tts_usable(*env)
                    &&& part != ServicePart::Tts && part != ServicePart::Asr ==> asr_usable(*env)
                    &&& part == ServicePart::SpeakerId || part == ServicePart::Llm ==> vad_usable(
                        *env,
                    )
                    &&& part == ServicePart::Llm ==> speaker_usable(*env)
                },
            },
    {
        let tts = match VolcengineTtsConfig::from_env(env) {
            Ok(c) => c,
            Err(e) => return Err((ServicePart::Tts, e)),
        };
        let asr = match VolcengineAsrConfig::from_env(env) {
            Ok(c) => c,
            Err(e) => return Err((ServicePart::Asr, e)),
        };
        let vad = match SileroVadConfig::from_env(env) {
            Ok(c) => c,
            Err(e) => return Err((ServicePart::Vad, e)),
        };
        let speaker_id = match SpeakerIdConfig::from_env(env) {
            Ok(c) => c,
            Err(e) => return Err((ServicePart::SpeakerId, e)),
        };
        let llm = match PiHttpLlmConfig::from_env(env) {
            Ok(Some(c)) => LlmChoice::PiHttp(c),
            Ok(None) => match OpenAiLlmConfig::from_env(env, temperature) {
                Ok(Some(c)) => LlmChoice::OpenAi(c),
                Ok(None) => LlmChoice::Mock,
                Err(e) => return Err((ServicePart::Llm, e)),
            },
            Err(e) => return Err((ServicePart::Llm, e)),
        };
        Ok(ServicePlan { tts, asr, vad, speaker_id, llm })
    }
}

/// The settings of a service can be used exactly where they do not end in an error.
pub proof fn law_usable_settings(
    env: Env,
    tts: Result<Option<VolcengineTtsConfig>, ConfigError>,
    asr: Result<Option<VolcengineAsrConfig>, ConfigError>,
    vad: Result<Option<SileroVadConfig>, ConfigError>,
    speaker: Result<Option<SpeakerIdConfig>, ConfigError>,
)
    ensures
        tts_configured(env, tts) ==> tts_usable(env) == (tts is Ok),
        asr_configured(env, asr) ==> asr_usable(env) == (asr is Ok),
        vad_configured(env, vad) ==> vad_usable(env) == (vad is Ok),
        speaker_configured(env, speaker) ==> speaker_usable(env) == (speaker is Ok),
{
}

} // verus!
