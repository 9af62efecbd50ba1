use xiaozhi_server::config::{
    bind_address, needs_onnx_runtime, speaker_id_enabled_from_env, vad_enabled_from_env, Config,
};
use xiaozhi_server::env::Env;
use xiaozhi_server::http::{health, is_authorized, ota};
use xiaozhi_server::services::mock::{MockAsr, MockLlmFactory, MockTts};
use xiaozhi_server::services::{LlmChoice, ServicePart, ServicePlan, TtsEvent};

fn env(pairs: &[(&str, &str)]) -> Env {
    Env {
        vars: pairs
            .iter()
            .map(|(a, b)| (a.to_string(), b.to_string()))
            .collect(),
    }
}

#[test]
fn mocks_answer_with_fixed_texts() {
    let mut stream = MockAsr.start_stream();
    stream.push_pcm(&[1, 2]);
    stream.push_pcm(&[]);
    assert_eq!(stream.frames, 2);
    assert_eq!(stream.finish(), "你好小智");
    assert_eq!(
        MockLlmFactory.create_session().chat("早"),
        vec![
            "你好，",
            "我是 Rust 版小智服务端。",
            "我已经收到你的消息：早。",
            "这是一个 mock 回复。"
        ]
    );
}

#[test]
fn the_mock_speaks_silence() {
    let mut speech = MockTts::default().start();
    assert!(speech.on_chunk("").is_empty());
    let events = speech.on_chunk("你好");
    assert_eq!(events.len(), 7);
    assert!(matches!(&events[0], TtsEvent::SentenceStart(t) if t == "你好"));
    match &events[6] {
        TtsEvent::Audio(frame) => {
            assert_eq!(frame.timestamp, 300);
            assert_eq!(&frame.payload[..], &[0xF8, 0xFF, 0xFE]);
        }
        other => panic!("{other:?}"),
    }
    let events = speech.on_chunk("再见");
    assert_eq!(events.len(), 6);
    assert!(matches!(&events[0], TtsEvent::Audio(f) if f.timestamp == 360));
}

#[test]
fn services_fall_back_to_mocks() {
    let plan = ServicePlan::from_env(&env(&[]), None).unwrap();
    assert!(plan.tts.is_none());
    assert!(plan.asr.is_none());
    assert!(plan.vad.is_some());
    assert!(plan.speaker_id.is_none());
    assert!(matches!(plan.llm, LlmChoice::Mock));
    let plan = ServicePlan::from_env(&env(&[("LLM_PROVIDER", "pi")]), None).unwrap();
    assert!(matches!(plan.llm, LlmChoice::PiHttp(_)));
    let plan = ServicePlan::from_env(
        &env(&[("LLM_PROVIDER", "openai"), ("OPENAI_API_KEY", "k")]),
        None,
    )
    .unwrap();
    assert!(matches!(plan.llm, LlmChoice::OpenAi(c) if c.api_key == "k"));
}

#[test]
fn the_first_service_that_cannot_be_used_is_named() {
    let part = |pairs: &[(&str, &str)]| ServicePlan::from_env(&env(pairs), None).unwrap_err().0;
    let all = [
        ("LLM_PROVIDER", "openai"),
        ("SPEAKER_PROVIDER", "x"),
        ("XIAOZHI_VAD_PROVIDER", "x"),
        ("XIAOZHI_ASR_PROVIDER", "volc"),
        ("XIAOZHI_TTS_PROVIDER", "volc"),
    ];
    assert_eq!(part(&all), ServicePart::Tts);
    assert_eq!(part(&all[..4]), ServicePart::Asr);
    assert_eq!(part(&all[..3]), ServicePart::Vad);
    assert_eq!(part(&all[..2]), ServicePart::SpeakerId);
    assert_eq!(part(&all[..1]), ServicePart::Llm);
}

#[test]
fn server_settings_have_defaults() {
    assert_eq!(bind_address(&env(&[])), "0.0.0.0:8080");
    let config = Config::from_env(&env(&[]), 8080);
    assert_eq!(config.public_ws_url, "ws://127.0.0.1:8080/ws");
    assert_eq!(config.token, "dev-token");
    let settings = env(&[
        ("XIAOZHI_BIND", "1.2.3.4:5"),
        ("XIAOZHI_PUBLIC_WS_URL", "wss://x"),
        ("XIAOZHI_TOKEN", ""),
    ]);
    let config = Config::from_env(&settings, 5);
    assert_eq!(config.bind, "1.2.3.4:5");
    assert_eq!(config.public_ws_url, "wss://x");
    assert_eq!(config.token, "");
}

#[test]
fn the_runtime_is_loaded_only_if_it_is_used() {
    assert!(vad_enabled_from_env(&env(&[])));
    assert!(!speaker_id_enabled_from_env(&env(&[])));
    assert!(needs_onnx_runtime(&env(&[])));
    let off = env(&[("XIAOZHI_VAD_PROVIDER", "None")]);
    assert!(!needs_onnx_runtime(&off));
    let speaker = env(&[
        ("XIAOZHI_VAD_PROVIDER", "0"),
        ("SPEAKER_PROVIDER", "speaker"),
    ]);
    assert!(needs_onnx_runtime(&speaker));
}

#[test]
fn tokens_let_devices_in() {
    let config = Config::from_env(&env(&[("XIAOZHI_TOKEN", "t")]), 1);
    assert!(is_authorized(&config, None));
    assert!(is_authorized(&config, Some(" t ")));
    assert!(is_authorized(&config, Some("Bearer t")));
    assert!(!is_authorized(&config, Some("bearer t")));
    assert!(!is_authorized(&config, Some("Bearer  t")));
    assert!(!is_authorized(&config, Some("")));
    let open = Config::from_env(&env(&[("XIAOZHI_TOKEN", "")]), 1);
    assert!(is_authorized(&open, Some("anything")));
}

#[test]
fn endpoints_answer_with_json() {
    assert_eq!(health().text(), r#"{"status":"ok"}"#);
    let config = Config::from_env(&env(&[]), 8080);
    let expected: serde_json::Value = serde_json::from_str(
        r#"{"firmware":{"version":"0.0.0","force":0},
        "websocket":{"url":"ws://127.0.0.1:8080/ws","token":"dev-token","version":1},
        "server_time":{"timestamp":123,"timezone_offset":480}}"#,
    )
    .unwrap();
    assert_eq!(ota(&config, 123).to_value(), expected);
}
