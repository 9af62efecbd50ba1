use bytes::Bytes;
use std::io::Read;
use xiaozhi_server::env::Env;
use xiaozhi_server::json::Json;
use xiaozhi_server::services::volcengine_asr::{
    audio_message, connect_headers, connect_request, extract_text, gzip, init_message,
    init_message_for, init_request, payload_value, wait_initial_response, AsrError, AsrMessage, AsrResponse,
    AsrResults, VolcengineAsr, VolcengineAsrConfig, VolcengineAsrStream,
};
use xiaozhi_server::services::WsFrame;

fn env(pairs: &[(&str, &str)]) -> Env {
    Env {
        vars: pairs
            .iter()
            .map(|(a, b)| (a.to_string(), b.to_string()))
            .collect(),
    }
}

fn config() -> VolcengineAsrConfig {
    VolcengineAsrConfig::from_env(&env(&[
        ("XIAOZHI_ASR_PROVIDER", "doubao"),
        ("VOLCENGINE_API_KEY", "k"),
    ]))
    .unwrap()
    .unwrap()
}

fn gunzip(data: &[u8]) -> Vec<u8> {
    let mut out = Vec::new();
    flate2::read::GzDecoder::new(data)
        .read_to_end(&mut out)
        .unwrap();
    out
}

fn response(kind_and_flags: u8, form: u8, before: &[u8], payload: &[u8]) -> Bytes {
    let mut out = vec![0x11, kind_and_flags, form, 0];
    out.extend_from_slice(before);
    out.extend_from_slice(&(payload.len() as u32).to_be_bytes());
    out.extend_from_slice(payload);
    Bytes::from(out)
}

fn result(text: &str, last: bool) -> WsFrame {
    let payload = Json::object()
        .with("result", Json::object().with("text", Json::str(text)))
        .text();
    let flags = if last { 0x92 } else { 0x90 };
    WsFrame::Binary(response(flags, 0x11, &[], &gzip(payload.as_bytes()).unwrap()))
}

#[test]
fn extracts_object_result_text() {
    let payload =
        Json::object().with("result", Json::object().with("text", Json::str("你好")));
    assert_eq!(extract_text(&payload).as_deref(), Some("你好"));
}

#[test]
fn asr_message_header_uses_gzip_audio_without_json_serialization() {
    let msg = AsrMessage::audio(Bytes::from_static(b"abc"), true).encode();
    assert_eq!(msg[0], 0x11);
    assert_eq!(msg[1], 0x22);
    assert_eq!(msg[2], 0x01);
    assert_eq!(&msg[4..8], 3u32.to_be_bytes().as_slice());
}

#[test]
fn results_may_be_lists() {
    let text = |json: &str| extract_text(&Json::parse(json.as_bytes()).unwrap());
    assert_eq!(
        text(r#"{"result":[{"text":"a"},{"text":"b"},{"text":""},{"x":1}]}"#).as_deref(),
        Some("b")
    );
    assert_eq!(text(r#"{"result":[{"text":""}]}"#), None);
    assert_eq!(text(r#"{"result":{"text":5}}"#), None);
    assert_eq!(text(r#"{"other":1}"#), None);
    assert_eq!(text(r#"{"result":{"text":""}}"#).as_deref(), Some(""));
}

#[test]
fn data_is_compressed() {
    let data = vec![7u8; 1000];
    let packed = gzip(&data).unwrap();
    assert!(packed.len() < 100);
    assert_eq!(gunzip(&packed), data);
    assert_eq!(gzip(&data).unwrap(), packed);
    let message = audio_message(&Bytes::from(data.clone()), false).unwrap();
    assert_eq!(&message[..4], &[0x11, 0x20, 0x01, 0]);
    assert_eq!(gunzip(&message[8..]), data);
}

#[test]
fn recognitions_start_with_a_request() {
    let config = config();
    let message = init_message_for(&config, "uid").unwrap();
    assert_eq!(&message[..4], &[0x11, 0x10, 0x11, 0]);
    let expected: serde_json::Value = serde_json::from_str(
        r#"{"user":{"uid":"uid"},"audio":{"format":"pcm","rate":16000,"bits":16,"channel":1,
        "language":"zh-CN"},"request":{"model_name":"bigmodel","enable_itn":true,
        "enable_punc":true,"enable_ddc":false,"result_type":"single","show_utterances":false}}"#,
    )
    .unwrap();
    let sent: serde_json::Value = serde_json::from_slice(&gunzip(&message[8..])).unwrap();
    assert_eq!(sent, expected);
    assert_eq!(init_request(&config, "uid").to_value(), expected);
    let other = init_message(&config).unwrap();
    let sent: serde_json::Value = serde_json::from_slice(&gunzip(&other[8..])).unwrap();
    assert_eq!(sent["user"]["uid"].as_str().unwrap().len(), 36);
}

#[test]
fn asr_connections_are_asked_for_with_headers() {
    let mut config = config();
    let names = |headers: &Vec<(String, String)>| {
        headers.iter().map(|h| h.0.clone()).collect::<Vec<_>>()
    };
    let headers = connect_headers(&config, "id");
    assert_eq!(
        names(&headers),
        vec![
            "X-Api-Key",
            "X-Api-Resource-Id",
            "X-Api-Connect-Id",
            "X-Api-Request-Id",
            "X-Api-Sequence"
        ]
    );
    assert_eq!(headers[0].1, "k");
    assert_eq!(headers[2].1, "id");
    assert_eq!(headers[3].1, "id");
    assert_eq!(headers[4].1, "-1");
    config.api_key = None;
    config.app_id = Some("app".to_string());
    let headers = connect_request(&config);
    assert_eq!(headers[0], ("X-Api-App-Key".to_string(), "app".to_string()));
    assert_eq!(headers[1], ("X-Api-Access-Key".to_string(), String::new()));
    assert_eq!(headers[3].1.len(), 36);
    assert_eq!(headers[3].1, headers[4].1);
}

#[test]
fn responses_are_read() {
    let json = response(0x90, 0x10, &[], b"{\"code\":1000}");
    let r = AsrResponse::decode(json).unwrap();
    assert_eq!(r.message_type, 9);
    assert!(!r.is_last_package);
    assert_eq!(r.payload.get_u64("code"), Some(1000));
    let text = response(0x97, 0x00, &[0, 0, 0, 1, 0, 0, 0, 2], b"ok\xff");
    let r = AsrResponse::decode(text).unwrap();
    assert!(r.is_last_package);
    assert_eq!(r.payload, Json::str("ok\u{fffd}"));
    let r = AsrResponse::decode(response(0x90, 0x00, &[], b"")).unwrap();
    assert_eq!(r.payload, Json::Null);
    let r = AsrResponse::decode(Bytes::from_static(&[0x11, 0xb2, 0, 0])).unwrap();
    assert_eq!(r.message_type, 0xb);
    assert!(r.is_last_package);
    assert_eq!(r.payload, Json::Null);
    let r = AsrResponse::decode(response(0xf0, 0x10, &[0, 0, 1, 0], b"{}")).unwrap();
    assert_eq!(r.error_code, 256);
    let long = Bytes::from_static(&[0x12, 0x90, 0, 0, 1, 2, 3, 4, 0, 0, 0, 1, b'x']);
    assert_eq!(AsrResponse::decode(long).unwrap().payload, Json::str("x"));
}

#[test]
fn broken_responses_are_refused() {
    let err = |data: &[u8]| format!("{:?}", AsrResponse::decode(Bytes::copy_from_slice(data)).unwrap_err());
    assert_eq!(err(&[0x11]), "TooShort { len: 1 }");
    assert_eq!(err(&[0x10, 0x90, 0, 0]), "InvalidHeaderSize { size: 0 }");
    assert_eq!(err(&[0x12, 0x90, 0, 0]), "HeaderTruncated");
    assert_eq!(err(&[0x11, 0xf0, 0, 0, 0]), "ErrorTruncated");
    assert_eq!(err(&[0x11, 0x91, 0, 0, 0]), "MissingSequence");
    assert_eq!(err(&[0x11, 0x94, 0, 0, 0]), "MissingEvent");
    assert_eq!(err(&[0x11, 0x90, 0, 0, 0]), "MissingPayloadSize");
    assert_eq!(
        err(&[0x11, 0x90, 0, 0, 0, 0, 0, 2, 1]),
        "PayloadTruncated { declared: 2, available: 1 }"
    );
    assert_eq!(err(&[0x11, 0x90, 0x01, 0, 0, 0, 0, 1, 1]), "Gunzip");
    assert_eq!(err(&[0x11, 0x90, 0x10, 0, 0, 0, 0, 1, b'{']), "NotJson");
}

#[test]
fn the_first_response_is_checked() {
    let check = |data: Bytes| wait_initial_response(Some(WsFrame::Binary(data)));
    assert!(check(response(0x90, 0x10, &[], b"{\"code\":20000000}")).unwrap());
    assert!(check(response(0x90, 0x10, &[], b"{\"code\":1000}")).unwrap());
    assert!(check(response(0x90, 0x10, &[], b"{\"code\":\"x\"}")).unwrap());
    assert!(matches!(
        check(response(0x90, 0x10, &[], b"{\"code\":45}")),
        Err(AsrError::Refused { payload }) if payload.get_u64("code") == Some(45)
    ));
    assert!(matches!(
        check(response(0xf0, 0x10, &[0, 0, 0, 9], b"{}")),
        Err(AsrError::Service { code: 9, .. })
    ));
    assert!(!wait_initial_response(Some(WsFrame::Control)).unwrap());
    assert!(matches!(wait_initial_response(None), Err(AsrError::EndedEarly)));
    assert!(matches!(
        wait_initial_response(Some(WsFrame::Close("c".to_string()))),
        Err(AsrError::Closed(_))
    ));
}

#[test]
fn the_latest_text_is_final() {
    let mut results = AsrResults::new();
    assert!(!results.on_frame(Some(result("你", false))).unwrap());
    assert!(!results.on_frame(Some(result("你好", false))).unwrap());
    assert!(!results.on_frame(Some(WsFrame::Control)).unwrap());
    assert!(results.on_frame(Some(result("", true))).unwrap());
    assert_eq!(results.latest_text, "你好");
    assert!(results.on_frame(None).unwrap());
    assert!(matches!(
        results.on_frame(Some(WsFrame::Binary(response(0xf0, 0x10, &[0, 0, 0, 9], b"{}")))),
        Err(AsrError::Service { code: 9, .. })
    ));
    assert!(matches!(
        results.on_frame(Some(WsFrame::Text("ab".to_string()))),
        Err(AsrError::TooShort { len: 2 })
    ));
}

#[test]
fn audio_goes_out_in_runs() {
    let mut config = config();
    config.chunk_ms = 60;
    let mut stream = VolcengineAsrStream::new(&config);
    assert_eq!(stream.chunk_bytes, 1920);
    let samples: Vec<i16> = (0..1500).collect();
    let mut sent = Vec::new();
    for piece in samples.chunks(700) {
        stream.push_pcm(piece);
        while let Some(chunk) = stream.next_chunk() {
            assert_eq!(chunk.len(), 1920);
            sent.extend_from_slice(&chunk);
        }
    }
    sent.extend_from_slice(&stream.finish().unwrap());
    let expected: Vec<u8> = samples.iter().flat_map(|s| s.to_le_bytes()).collect();
    assert_eq!(sent, expected);
    assert!(stream.finish().is_none());
    stream.push_pcm(&[1; 5000]);
    assert!(stream.next_chunk().is_none());
    let mut stream = VolcengineAsrStream::new(&config);
    stream.abort();
    assert!(stream.finish().is_none());
}

#[test]
fn runs_of_audio_have_a_length() {
    let mut config = config();
    let stream = VolcengineAsrStream::try_new(&config).unwrap();
    assert_eq!((stream.chunk_bytes, stream.finished), (5760, false));
    config.chunk_ms = 0;
    assert!(VolcengineAsrStream::try_new(&config).is_none());
}

#[test]
fn payloads_are_json_or_text() {
    assert_eq!(payload_value(b"[1]", 1).unwrap(), Json::array(vec![Json::UInt(1)]));
    assert!(matches!(payload_value(b"", 1), Err(AsrError::NotJson)));
    assert_eq!(payload_value(b"", 0).unwrap(), Json::Null);
    assert_eq!(payload_value("好".as_bytes(), 0).unwrap(), Json::str("好"));
}

#[test]
fn asr_settings_are_read() {
    assert!(VolcengineAsrConfig::from_env(&env(&[])).unwrap().is_none());
    let err = VolcengineAsrConfig::from_env(&env(&[
        ("XIAOZHI_ASR_PROVIDER", "volc"),
        ("VOLCENGINE_APP_ID", "a"),
    ]))
    .unwrap_err();
    assert!(err.message.starts_with("missing Volcengine ASR credentials"));
    let config = VolcengineAsrConfig::from_env(&env(&[
        ("XIAOZHI_ASR_PROVIDER", "VOLC"),
        ("VOLCENGINE_APP_ID", "a"),
        ("VOLCENGINE_ACCESS_TOKEN", "t"),
        ("VOLCENGINE_ASR_CHUNK_MS", "5000"),
        ("VOLCENGINE_ASR_ENABLE_DDC", "ON"),
        ("VOLCENGINE_ASR_ENABLE_ITN", "0"),
        ("VOLCENGINE_ASR_ENABLE_PUNC", "maybe"),
    ]))
    .unwrap()
    .unwrap();
    assert_eq!(config.access_key.as_deref(), Some("t"));
    assert_eq!(config.chunk_ms, 400);
    assert!(config.enable_ddc);
    assert!(!config.enable_itn);
    assert!(config.enable_punc);
    assert_eq!(config.resource_id, "volc.bigasr.sauc.duration");
    assert_eq!(VolcengineAsr::new(config).config.language, "zh-CN");
    let low = VolcengineAsrConfig::from_env(&env(&[
        ("XIAOZHI_ASR_PROVIDER", "volc"),
        ("VOLCENGINE_API_KEY", "k"),
        ("VOLCENGINE_ASR_CHUNK_MS", "1"),
    ]));
    assert_eq!(low.unwrap().unwrap().chunk_ms, 60);
}
