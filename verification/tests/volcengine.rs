use bytes::Bytes;
use xiaozhi_server::env::Env;
use xiaozhi_server::json::Json;
use xiaozhi_server::services::volcengine::{
    connect_headers, connect_request, decode_ws_message, finish_session, request_template,
    start_connection, start_session, text_requests, wait_for_event, EventType, MsgType, Phase,
    Synthesis, SynthesisAction, TextField, TtsError, TtsReader, VolcError, VolcMessage,
    VolcengineAudioEncoding, VolcengineTts, VolcengineTtsConfig,
};
use xiaozhi_server::services::{TtsEvent, WsFrame};

fn env(pairs: &[(&str, &str)]) -> Env {
    Env {
        vars: pairs
            .iter()
            .map(|(a, b)| (a.to_string(), b.to_string()))
            .collect(),
    }
}

fn config(encoding: VolcengineAudioEncoding) -> VolcengineTtsConfig {
    VolcengineTtsConfig {
        api_key: "key".to_string(),
        resource_id: "res".to_string(),
        voice_type: "voice".to_string(),
        endpoint: "wss://x".to_string(),
        encoding,
    }
}

fn message(msg_type: u8, flag: u8, rest: &[u8]) -> Bytes {
    let mut out = vec![0x11, (msg_type << 4) | flag, 0x10, 0];
    out.extend_from_slice(rest);
    Bytes::from(out)
}

fn with_event(msg_type: u8, event: i32, id: Option<&str>, payload: &[u8]) -> Bytes {
    let mut rest = event.to_be_bytes().to_vec();
    if let Some(id) = id {
        rest.extend_from_slice(&(id.len() as u32).to_be_bytes());
        rest.extend_from_slice(id.as_bytes());
    }
    rest.extend_from_slice(&(payload.len() as u32).to_be_bytes());
    rest.extend_from_slice(payload);
    message(msg_type, 4, &rest)
}

fn audio(payload: &[u8]) -> Bytes {
    let mut rest = (payload.len() as u32).to_be_bytes().to_vec();
    rest.extend_from_slice(payload);
    message(0b1011, 0, &rest)
}

fn stamps(events: &[TtsEvent]) -> Vec<u32> {
    events
        .iter()
        .map(|e| match e {
            TtsEvent::Audio(frame) => frame.timestamp,
            TtsEvent::SentenceStart(_) => u32::MAX,
        })
        .collect()
}

#[test]
fn requests_read_back_as_they_were_written() {
    let m = VolcMessage::full_client(
        EventType::TaskRequest,
        Some("会话".to_string()),
        Bytes::from_static(b"{\"a\":1}"),
    );
    let bytes = m.encode();
    assert_eq!(&bytes[..8], &[0x11, 0x14, 0x10, 0, 0, 0, 0, 200]);
    let back = VolcMessage::decode(bytes).unwrap();
    assert_eq!(back.msg_type, MsgType::FullClientRequest);
    assert_eq!(back.event, EventType::TaskRequest);
    assert_eq!(back.session_id.as_deref(), Some("会话"));
    assert_eq!(&back.payload[..], b"{\"a\":1}");
    assert_eq!(back.error_code, 0);

    let back = VolcMessage::decode(start_connection().encode()).unwrap();
    assert_eq!(back.event, EventType::StartConnection);
    assert_eq!(back.session_id, None);
    assert_eq!(&back.payload[..], b"{}");

    let unnamed = VolcMessage::full_client(EventType::StartSession, None, Bytes::new());
    let back = VolcMessage::decode(unnamed.encode()).unwrap();
    assert_eq!(back.session_id.as_deref(), Some(""));
}

#[test]
fn every_code_is_found_again() {
    for event in [
        EventType::StartConnection,
        EventType::FinishConnection,
        EventType::ConnectionStarted,
        EventType::ConnectionFailed,
        EventType::ConnectionFinished,
        EventType::StartSession,
        EventType::FinishSession,
        EventType::SessionStarted,
        EventType::SessionFinished,
        EventType::SessionFailed,
        EventType::TaskRequest,
        EventType::TtsSentenceStart,
        EventType::Unnamed,
    ] {
        assert_eq!(EventType::of_code(event.code()), event);
    }
    assert_eq!(EventType::of_code(7), EventType::Unnamed);
    assert_eq!(EventType::TtsSentenceStart.code(), 350);
    for kind in [
        MsgType::FullClientRequest,
        MsgType::AudioOnlyServer,
        MsgType::FullServerResponse,
        MsgType::Error,
        MsgType::Unknown,
    ] {
        assert_eq!(MsgType::of_code(kind.code()), kind);
    }
}

#[test]
fn broken_messages_are_refused() {
    let err = |data: Bytes| VolcMessage::decode(data).unwrap_err();
    assert_eq!(err(Bytes::from_static(&[1, 2, 3])), VolcError::TooShort { len: 3 });
    assert_eq!(
        err(Bytes::from_static(&[0x12, 0x90, 0, 0, 1])),
        VolcError::HeaderTruncated
    );
    assert_eq!(err(message(0b1111, 0, &[1])), VolcError::MissingErrorCode);
    assert_eq!(err(message(0b1001, 1, &[1])), VolcError::MissingSequence);
    assert_eq!(err(message(0b1001, 4, &[1])), VolcError::MissingEvent);
    assert_eq!(
        err(message(0b1001, 4, &[0, 0, 0, 150, 0])),
        VolcError::TextMissingLength {
            field: TextField::SessionId
        }
    );
    assert_eq!(
        err(message(0b1001, 4, &[0, 0, 0, 50, 0, 0, 0, 9, 1])),
        VolcError::TextTruncated {
            field: TextField::ConnectId,
            declared: 9,
            available: 1
        }
    );
    assert_eq!(
        err(message(0b1001, 4, &[0, 0, 0, 150, 0, 0, 0, 1, 0xff])),
        VolcError::TextNotUtf8 {
            field: TextField::SessionId
        }
    );
    assert_eq!(err(message(0b1011, 0, &[1])), VolcError::MissingPayloadSize);
    assert_eq!(
        err(message(0b1011, 0, &[0, 0, 0, 5, 1])),
        VolcError::PayloadTruncated {
            declared: 5,
            available: 1
        }
    );
}

#[test]
fn headers_may_be_longer_or_shorter() {
    let long = Bytes::from_static(&[0x12, 0xb0, 0, 0, 9, 9, 9, 9, 0, 0, 0, 1, 7]);
    assert_eq!(&VolcMessage::decode(long).unwrap().payload[..], &[7]);
    let short = Bytes::from_static(&[0x10, 0xb0, 0, 0, 0, 0, 0, 1, 7]);
    assert_eq!(&VolcMessage::decode(short).unwrap().payload[..], &[7]);
    let sequenced = Bytes::from_static(&[0x11, 0xb3, 0, 0, 0, 0, 0, 9, 0, 0, 0, 1, 7]);
    assert_eq!(&VolcMessage::decode(sequenced).unwrap().payload[..], &[7]);
    let error = message(0b1111, 0, &[0, 0, 1, 0, 0, 0, 0, 1, b'x']);
    let error = VolcMessage::decode(error).unwrap();
    assert_eq!(error.error_code, 256);
    assert_eq!(error.msg_type, MsgType::Error);
}

#[test]
fn connections_are_asked_for_with_headers() {
    let config = config(VolcengineAudioEncoding::OggOpus);
    let headers = connect_headers(&config, "id");
    let expected = [
        ("X-Api-Key", "key"),
        ("X-Api-Resource-Id", "res"),
        ("X-Api-Connect-Id", "id"),
        ("X-Control-Require-Usage-Tokens-Return", "*"),
    ];
    for (header, (name, value)) in headers.iter().zip(expected) {
        assert_eq!(header.0, name);
        assert_eq!(header.1, value);
    }
    let first = connect_request(&config);
    let second = connect_request(&config);
    assert_eq!(first[2].1.len(), 36);
    assert_ne!(first[2].1, second[2].1);
}

#[test]
fn sessions_are_started_with_parameters() {
    let config = config(VolcengineAudioEncoding::RawOpus);
    let params = r#"{"audio_params":{"format":"opus","sample_rate":24000},"speaker":"voice"}"#;
    assert_eq!(request_template(&config).text(), params);
    let m = start_session(&config, "sid");
    assert_eq!(m.session_id.as_deref(), Some("sid"));
    assert_eq!(
        &m.payload[..],
        format!(r#"{{"event":100,"req_params":{params}}}"#).as_bytes()
    );
    let m = finish_session("sid");
    assert_eq!(m.event, EventType::FinishSession);
    assert_eq!(&m.payload[..], b"{}");
}

#[test]
fn each_character_is_a_request() {
    let config = config(VolcengineAudioEncoding::OggOpus);
    assert!(text_requests(&config, "sid", " \n").is_empty());
    let messages = text_requests(&config, "sid", "你 x");
    assert_eq!(messages.len(), 3);
    let json = Json::parse(&messages[0].payload).unwrap();
    assert_eq!(json.get_u64("event"), Some(200));
    let params = json.get("req_params").unwrap();
    assert_eq!(params.get_str("text"), Some("你"));
    assert_eq!(params.get_str("speaker"), Some("voice"));
    assert_eq!(
        params.get("audio_params").unwrap().get_str("format"),
        Some("ogg_opus")
    );
    let json = Json::parse(&messages[1].payload).unwrap();
    assert_eq!(json.get("req_params").unwrap().get_str("text"), Some(" "));
}

#[test]
fn events_are_waited_for() {
    let wait = |frame| {
        wait_for_event(
            frame,
            MsgType::FullServerResponse,
            EventType::SessionStarted,
        )
    };
    assert!(matches!(wait(None), Err(TtsError::EndedEarly)));
    assert!(wait(Some(WsFrame::Control)).unwrap().is_none());
    assert!(matches!(
        wait(Some(WsFrame::Close("bye".to_string()))),
        Err(TtsError::Closed(text)) if text == "bye"
    ));
    let started = with_event(0b1001, 150, Some("sid"), b"{}");
    assert!(wait(Some(WsFrame::Binary(started))).unwrap().is_some());
    let other = with_event(0b1001, 152, Some("sid"), b"{}");
    assert!(wait(Some(WsFrame::Binary(other))).unwrap().is_none());
    let error = message(0b1111, 0, &[0, 0, 0, 7, 0, 0, 0, 2, b'n', 0xff]);
    assert!(matches!(
        wait(Some(WsFrame::Binary(error))),
        Err(TtsError::Service { code: 7, text }) if text == "n\u{fffd}"
    ));
    assert!(matches!(
        decode_ws_message(WsFrame::Text("abc".to_string())),
        Err(TtsError::Message(VolcError::TooShort { len: 3 }))
    ));
}

#[test]
fn raw_audio_is_stamped() {
    let mut reader = TtsReader::new(VolcengineAudioEncoding::RawOpus);
    let mut all = Vec::new();
    for _ in 0..3 {
        let step = reader
            .on_frame(Some(WsFrame::Binary(audio(b"opus"))))
            .unwrap();
        assert!(!step.finished);
        all.extend(step.events);
    }
    assert_eq!(stamps(&all), vec![0, 60, 120]);
}

fn page(packet: &[u8]) -> Vec<u8> {
    let mut out = b"OggS".to_vec();
    out.extend_from_slice(&[0; 22]);
    out.push(1);
    out.push(packet.len() as u8);
    out.extend_from_slice(packet);
    out
}

#[test]
fn ogg_audio_may_be_cut_anywhere() {
    let mut whole = Vec::new();
    for packet in [&b"OpusHead"[..], b"OpusTags", b"one", b"two"] {
        whole.extend(page(packet));
    }
    for cut in 0..=whole.len() {
        let mut reader = TtsReader::new(VolcengineAudioEncoding::OggOpus);
        let mut all = Vec::new();
        for piece in [&whole[..cut], &whole[cut..]] {
            let step = reader.on_frame(Some(WsFrame::Binary(audio(piece)))).unwrap();
            all.extend(step.events);
        }
        assert_eq!(stamps(&all), vec![0, 60], "cut at {cut}");
    }
}

#[test]
fn sessions_end_or_fail() {
    let mut reader = TtsReader::new(VolcengineAudioEncoding::OggOpus);
    let step = reader
        .on_frame(Some(WsFrame::Binary(with_event(0b1001, 350, Some("s"), b"x"))))
        .unwrap();
    assert!(matches!(&step.events[..], [TtsEvent::SentenceStart(t)] if t.is_empty()));
    assert!(reader.on_frame(Some(WsFrame::Control)).unwrap().events.is_empty());
    let step = reader
        .on_frame(Some(WsFrame::Binary(with_event(0b1001, 152, Some("s"), b"{}"))))
        .unwrap();
    assert!(step.finished);
    assert!(matches!(
        reader.on_frame(Some(WsFrame::Binary(with_event(0b1001, 153, Some("s"), b"why")))),
        Err(TtsError::SessionFailed(text)) if text == "why"
    ));
    assert!(matches!(reader.on_frame(None), Err(TtsError::EndedEarly)));
}

#[test]
fn a_synthesis_goes_through_its_phases() {
    let (mut synthesis, first) =
        Synthesis::with_session_id(config(VolcengineAudioEncoding::RawOpus), "sid".to_string());
    assert_eq!(
        VolcMessage::decode(first).unwrap().event,
        EventType::StartConnection
    );
    assert_eq!(synthesis.timeout_secs(), 15);
    assert!(matches!(
        synthesis.on_frame(Some(WsFrame::Control)),
        Ok(SynthesisAction::Wait)
    ));
    let started = with_event(0b1001, 50, Some("conn"), b"{}");
    match synthesis.on_frame(Some(WsFrame::Binary(started))).unwrap() {
        SynthesisAction::Send(bytes) => {
            let m = VolcMessage::decode(bytes).unwrap();
            assert_eq!(m.event, EventType::StartSession);
            assert_eq!(m.session_id.as_deref(), Some("sid"));
        }
        other => panic!("{other:?}"),
    }
    assert_eq!(synthesis.phase, Phase::Starting);
    let started = with_event(0b1001, 150, Some("sid"), b"{}");
    assert!(matches!(
        synthesis.on_frame(Some(WsFrame::Binary(started))),
        Ok(SynthesisAction::StartWriter)
    ));
    assert_eq!(synthesis.timeout_secs(), 60);
    assert!(matches!(
        synthesis.on_frame(Some(WsFrame::Binary(audio(b"opus")))),
        Ok(SynthesisAction::Events(events)) if events.len() == 1
    ));
    let finished = with_event(0b1001, 152, Some("sid"), b"{}");
    assert!(matches!(
        synthesis.on_frame(Some(WsFrame::Binary(finished))),
        Ok(SynthesisAction::Finish(events)) if events.is_empty()
    ));
    assert_eq!(synthesis.phase, Phase::Finished);
    let (other, _) = Synthesis::new(config(VolcengineAudioEncoding::OggOpus));
    assert_eq!(other.session_id.len(), 36);
}

#[test]
fn tts_settings_are_read() {
    assert!(VolcengineTtsConfig::from_env(&env(&[])).unwrap().is_none());
    let err = |pairs: &[(&str, &str)]| VolcengineTtsConfig::from_env(&env(pairs)).unwrap_err().message;
    assert_eq!(
        err(&[("XIAOZHI_TTS_PROVIDER", "Volc")]),
        "missing required env VOLCENGINE_TTS_VOICE_TYPE"
    );
    assert_eq!(
        err(&[("XIAOZHI_TTS_PROVIDER", "volcengine"), ("VOLCENGINE_TTS_VOICE_TYPE", "v")]),
        "missing required env; expected one of VOLCENGINE_TTS_API_KEY, VOLCENGINE_API_KEY"
    );
    assert_eq!(
        err(&[
            ("XIAOZHI_TTS_PROVIDER", "volcengine"),
            ("VOLCENGINE_TTS_VOICE_TYPE", "v"),
            ("VOLCENGINE_API_KEY", "k"),
            ("VOLCENGINE_TTS_ENCODING", "mp3"),
        ]),
        "unsupported VOLCENGINE_TTS_ENCODING=mp3; expected ogg_opus or raw_opus"
    );
    let config = VolcengineTtsConfig::from_env(&env(&[
        ("XIAOZHI_TTS_PROVIDER", "volc"),
        ("VOLCENGINE_TTS_VOICE_TYPE", "v"),
        ("VOLCENGINE_API_KEY", "k"),
        ("VOLCENGINE_TTS_ENCODING", "raw-opus"),
    ]))
    .unwrap()
    .unwrap();
    assert_eq!(config.resource_id, "seed-tts-2.0");
    assert_eq!(
        config.endpoint,
        "wss://openspeech.bytedance.com/api/v3/tts/bidirection"
    );
    assert_eq!(config.encoding, VolcengineAudioEncoding::RawOpus);
    assert_eq!(VolcengineTts::new(config).config.api_key, "k");
}
