use bytes::Bytes;
use xiaozhi_server::json::Json;
use xiaozhi_server::protocol::{
    audio_params, decode_audio_frame, encode_audio_frame, hello, llm_emotion, stt, tts_sentence_start,
    tts_start, tts_stop, AudioFrame, BinaryProtocolVersion, IncomingJson, ProtocolError,
};

fn parsed(text: &str) -> serde_json::Value {
    serde_json::from_str(text).unwrap()
}

#[test]
fn parses_incoming_json_with_extra_fields() {
    let json = Json::parse(
        r#"{"session_id":"s","type":"listen","state":"start","mode":"auto"}"#.as_bytes(),
    )
    .unwrap();
    let msg = IncomingJson {
        session_id: json.get_str("session_id").map(str::to_string),
        typ: json.get_str("type").unwrap().to_string(),
        version: json.get_u64("version"),
        extra: json,
    };
    assert_eq!(msg.typ, "listen");
    assert_eq!(msg.state(), Some("start"));
    assert_eq!(msg.mode(), Some("auto"));
}

#[test]
fn binary_v2_roundtrip() {
    let frame = AudioFrame {
        timestamp: 42,
        payload: Bytes::from_static(b"opus"),
    };
    let encoded = encode_audio_frame(BinaryProtocolVersion::V2, &frame);
    let decoded = decode_audio_frame(BinaryProtocolVersion::V2, &encoded)
        .unwrap()
        .unwrap();
    assert_eq!(decoded.timestamp, 42);
    assert_eq!(&decoded.payload[..], b"opus");
}

#[test]
fn binary_v3_roundtrip() {
    let frame = AudioFrame {
        timestamp: 0,
        payload: Bytes::from_static(b"opus"),
    };
    let encoded = encode_audio_frame(BinaryProtocolVersion::V3, &frame);
    let decoded = decode_audio_frame(BinaryProtocolVersion::V3, &encoded)
        .unwrap()
        .unwrap();
    assert_eq!(&decoded.payload[..], b"opus");
}

#[test]
fn binary_v1_carries_the_payload_alone() {
    let frame = AudioFrame {
        timestamp: 42,
        payload: Bytes::from_static(b"opus"),
    };
    let encoded = encode_audio_frame(BinaryProtocolVersion::V1, &frame);
    assert_eq!(&encoded[..], b"opus");
    let decoded = decode_audio_frame(BinaryProtocolVersion::V1, &encoded)
        .unwrap()
        .unwrap();
    assert_eq!(decoded.timestamp, 0);
    assert_eq!(&decoded.payload[..], b"opus");
}

#[test]
fn frames_have_their_wire_form() {
    let frame = AudioFrame {
        timestamp: 0x01020304,
        payload: Bytes::from_static(b"ab"),
    };
    assert_eq!(
        &encode_audio_frame(BinaryProtocolVersion::V2, &frame)[..],
        &[0, 2, 0, 0, 0, 0, 0, 0, 1, 2, 3, 4, 0, 0, 0, 2, b'a', b'b']
    );
    assert_eq!(
        &encode_audio_frame(BinaryProtocolVersion::V3, &frame)[..],
        &[0, 0, 0, 2, b'a', b'b']
    );
    let long = AudioFrame {
        timestamp: 0,
        payload: Bytes::from(vec![0u8; 0x1_0001]),
    };
    assert_eq!(
        &encode_audio_frame(BinaryProtocolVersion::V3, &long)[..4],
        &[0, 0, 0, 1]
    );
}

#[test]
fn bad_frames_are_refused() {
    let v2 = BinaryProtocolVersion::V2;
    let v3 = BinaryProtocolVersion::V3;
    let err = decode_audio_frame(v2, &[0; 15]).unwrap_err();
    assert_eq!(err, ProtocolError::ShortFrame { version: 2, len: 15 });
    assert_eq!(
        err.message(),
        "binary frame too short for protocol v2: 15 bytes"
    );
    assert_eq!(
        decode_audio_frame(v3, &[0; 3]).unwrap_err(),
        ProtocolError::ShortFrame { version: 3, len: 3 }
    );
    let err = decode_audio_frame(v3, &[0, 0, 0, 9, 1]).unwrap_err();
    assert_eq!(
        err,
        ProtocolError::InvalidPayloadSize {
            declared: 9,
            available: 1
        }
    );
    assert_eq!(
        err.message(),
        "declared payload size 9 exceeds frame length 1"
    );
    let mut data = vec![0u8; 16];
    data[15] = 1;
    assert_eq!(
        decode_audio_frame(v2, &data).unwrap_err(),
        ProtocolError::InvalidPayloadSize {
            declared: 1,
            available: 0
        }
    );
    data[3] = 1;
    assert!(decode_audio_frame(v2, &data).unwrap().is_none());
    assert!(decode_audio_frame(v3, &[1, 0, 0, 9]).unwrap().is_none());
}

#[test]
fn versions_come_from_headers_and_hello() {
    let from_header = BinaryProtocolVersion::from_header;
    assert_eq!(from_header(Some("2")), BinaryProtocolVersion::V2);
    assert_eq!(from_header(Some("+3")), BinaryProtocolVersion::V3);
    assert_eq!(from_header(Some("1")), BinaryProtocolVersion::V1);
    assert_eq!(from_header(Some(" 2")), BinaryProtocolVersion::V1);
    assert_eq!(from_header(Some("258")), BinaryProtocolVersion::V1);
    assert_eq!(from_header(None), BinaryProtocolVersion::V1);
    let v3 = BinaryProtocolVersion::V3;
    assert_eq!(
        BinaryProtocolVersion::from_hello(Some(2), v3),
        BinaryProtocolVersion::V2
    );
    assert_eq!(
        BinaryProtocolVersion::from_hello(Some(1), v3),
        BinaryProtocolVersion::V1
    );
    assert_eq!(BinaryProtocolVersion::from_hello(Some(4), v3), v3);
    assert_eq!(BinaryProtocolVersion::from_hello(None, v3), v3);
}

#[test]
fn messages_have_their_members() {
    let params = audio_params();
    assert_eq!(params.format, "opus");
    assert_eq!(params.sample_rate, 24_000);
    assert_eq!(
        hello("s").to_value(),
        parsed(
            r#"{"type":"hello","transport":"websocket","session_id":"s","audio_params":
            {"format":"opus","sample_rate":24000,"channels":1,"frame_duration":60}}"#
        )
    );
    assert_eq!(
        stt("s", "你好").to_value(),
        parsed(r#"{"session_id":"s","type":"stt","text":"你好"}"#)
    );
    assert_eq!(
        llm_emotion("s", "happy", "😊").to_value(),
        parsed(r#"{"session_id":"s","type":"llm","emotion":"happy","text":"😊"}"#)
    );
    assert_eq!(
        tts_start("s").to_value(),
        parsed(r#"{"session_id":"s","type":"tts","state":"start"}"#)
    );
    assert_eq!(
        tts_sentence_start("s", "t").to_value(),
        parsed(r#"{"session_id":"s","type":"tts","state":"sentence_start","text":"t"}"#)
    );
    assert_eq!(
        tts_stop("s").to_value(),
        parsed(r#"{"session_id":"s","type":"tts","state":"stop"}"#)
    );
}
