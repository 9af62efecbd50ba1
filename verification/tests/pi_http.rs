use std::time::Duration;
use xiaozhi_server::env::Env;
use xiaozhi_server::json::Json;
use xiaozhi_server::services::pi_http::{
    chat_body, delta_text, parse_pi_server_event, reason_text, take_line, ChatStep, PiChat, PiHttpError, PiHttpLlmConfig,
    PiServerEvent, SseParser,
};

fn env(pairs: &[(&str, &str)]) -> Env {
    Env {
        vars: pairs
            .iter()
            .map(|(a, b)| (a.to_string(), b.to_string()))
            .collect(),
    }
}

fn drain(chat: &mut PiChat) -> (Vec<String>, String) {
    let mut texts = Vec::new();
    loop {
        match chat.step() {
            ChatStep::Delta(text) => texts.push(text),
            other => return (texts, format!("{other:?}")),
        }
    }
}

#[test]
fn parses_text_delta_event() {
    assert_eq!(
        parse_pi_server_event("text_delta", r#"{"delta":"你好"}"#).unwrap(),
        PiServerEvent::TextDelta("你好".to_string())
    );
}

#[test]
fn parses_error_message() {
    assert_eq!(
        parse_pi_server_event("error", r#"{"message":"superseded"}"#).unwrap(),
        PiServerEvent::Error("superseded".to_string())
    );
}

#[test]
fn parses_sse_frames() {
    let mut parser = SseParser::default();
    assert!(parser.push_line(b"event: text_delta").unwrap().is_none());
    assert!(parser
        .push_line(br#"data: {"delta":"Hi"}"#)
        .unwrap()
        .is_none());
    assert_eq!(
        parser.push_line(b"").unwrap(),
        Some(PiServerEvent::TextDelta("Hi".to_string()))
    );
}

#[test]
fn takes_crlf_lines() {
    let mut buffer = b"event: agent_end\r\ndata: {}\r\n\r\n".to_vec();
    assert_eq!(take_line(&mut buffer).unwrap(), b"event: agent_end");
    assert_eq!(take_line(&mut buffer).unwrap(), b"data: {}");
    assert_eq!(take_line(&mut buffer).unwrap(), b"");
    assert!(buffer.is_empty());
}

#[test]
fn lines_end_at_any_break() {
    let mut buffer = b"a\rb\nc".to_vec();
    assert_eq!(take_line(&mut buffer).unwrap(), b"a");
    assert_eq!(take_line(&mut buffer).unwrap(), b"b");
    assert_eq!(take_line(&mut buffer), None);
    assert_eq!(buffer, b"c");
}

#[test]
fn events_have_reasons_and_defaults() {
    let error = |data: &str| parse_pi_server_event("error", data).unwrap();
    assert_eq!(
        error(r#"{"error":"busy"}"#),
        PiServerEvent::Error("busy".to_string())
    );
    assert_eq!(
        error(r#"{"message":5,"error":"busy"}"#),
        PiServerEvent::Error(r#"{"message":5,"error":"busy"}"#.to_string())
    );
    assert_eq!(error("plain"), PiServerEvent::Error("plain".to_string()));
    assert_eq!(
        parse_pi_server_event("text_delta", "{}"),
        Ok(PiServerEvent::TextDelta(String::new()))
    );
    assert_eq!(
        parse_pi_server_event("text_delta", "{"),
        Err(PiHttpError::NotJson)
    );
    assert_eq!(
        parse_pi_server_event("agent_end", ""),
        Ok(PiServerEvent::AgentEnd)
    );
    assert_eq!(
        parse_pi_server_event("thinking_delta", "{"),
        Ok(PiServerEvent::Ignored)
    );
}

#[test]
fn lines_are_gathered_by_field() {
    let mut parser = SseParser::default();
    assert_eq!(parser.push_line(b""), Ok(None));
    assert_eq!(parser.push_line(b": comment"), Ok(None));
    assert_eq!(parser.push_line(b"id: 7"), Ok(None));
    assert_eq!(parser.push_line(b"event:error"), Ok(None));
    assert_eq!(parser.push_line(b"data: a"), Ok(None));
    assert_eq!(parser.push_line(b"data:  b"), Ok(None));
    assert_eq!(parser.push_line(b"data"), Ok(None));
    assert_eq!(
        parser.finish(),
        Ok(Some(PiServerEvent::Error("a\n b\n".to_string())))
    );
    assert_eq!(parser.finish(), Ok(None));
    assert_eq!(
        parser.push_line(b"event: \xff"),
        Err(PiHttpError::NotUtf8)
    );
    assert_eq!(parser.push_line(b"data: x"), Ok(None));
    assert_eq!(parser.finish(), Ok(Some(PiServerEvent::Ignored)));
}

const ANSWER: &str = "event: text_delta\r\ndata: {\"delta\":\"你\"}\r\n\r\nevent: thinking_delta\r\n\
                      data: x\r\n\r\nevent: text_delta\r\ndata: {\"delta\":\"好\"}\r\n\r\nevent: \
                      agent_end\r\ndata: {}\r\n\r\n";

#[test]
fn an_answer_is_complete_when_the_agent_ends() {
    let mut chat = PiChat::new();
    chat.push(ANSWER.as_bytes());
    let (texts, end) = drain(&mut chat);
    assert_eq!(texts, vec!["你", "好"]);
    assert_eq!(end, "Complete");
    assert!(chat.saw_agent_end);
}

#[test]
fn pieces_of_an_answer_give_the_texts_of_the_whole() {
    let bytes = ANSWER.as_bytes();
    for cut in 0..=bytes.len() {
        if cut > 0 && cut < bytes.len() && bytes[cut - 1] == b'\r' && bytes[cut] == b'\n' {
            continue;
        }
        let mut chat = PiChat::new();
        chat.push(&bytes[..cut]);
        let (mut texts, end) = drain(&mut chat);
        if end == "NeedMore" {
            chat.push(&bytes[cut..]);
            let (more, end) = drain(&mut chat);
            texts.extend(more);
            assert_eq!(end, "Complete", "cut at {cut}");
        }
        assert_eq!(texts, vec!["你", "好"], "cut at {cut}");
    }
}

#[test]
fn an_answer_may_end_without_a_break() {
    let mut chat = PiChat::new();
    chat.push(b"event: agent_end");
    assert_eq!(drain(&mut chat).1, "NeedMore");
    chat.end_of_stream();
    assert_eq!(drain(&mut chat).1, "Complete");

    let mut chat = PiChat::new();
    chat.push(b"event: text_delta\ndata: {\"delta\":\"x\"}");
    assert_eq!(drain(&mut chat).1, "NeedMore");
    chat.end_of_stream();
    let (texts, end) = drain(&mut chat);
    assert_eq!(texts, vec!["x"]);
    assert_eq!(end, "Failed(EndedEarly)");
}

#[test]
fn an_answer_may_fail() {
    let mut chat = PiChat::new();
    chat.push(b"event: error\ndata: {\"message\":\"busy\"}\n\n");
    assert_eq!(drain(&mut chat).1, "Failed(Server(\"busy\"))");
    let mut chat = PiChat::new();
    chat.push(b"event: text_delta\ndata: {\n\n");
    assert_eq!(drain(&mut chat).1, "Failed(NotJson)");
    let mut chat = PiChat::new();
    chat.push(b"data: \xff\n");
    assert_eq!(drain(&mut chat).1, "Failed(NotUtf8)");
}

#[test]
fn pi_http_settings_are_read() {
    assert!(PiHttpLlmConfig::from_env(&env(&[])).unwrap().is_none());
    let config = PiHttpLlmConfig::from_env(&env(&[("LLM_PROVIDER", "PI-HTTP")]))
        .unwrap()
        .unwrap();
    assert_eq!(config.chat_url(), "http://127.0.0.1:8081/chat");
    assert_eq!(config.agent_id, "zhuzhu");
    assert_eq!(config.stream_idle_timeout, Duration::from_millis(300_000));
    let config = PiHttpLlmConfig::from_env(&env(&[
        ("LLM_PROVIDER", "pi"),
        ("PI_SERVER_BASE_URL", "http://h//"),
        ("PI_SERVER_IDLE_TIMEOUT_MS", "5"),
    ]))
    .unwrap()
    .unwrap();
    assert_eq!(config.chat_url(), "http://h/chat");
    assert_eq!(config.stream_idle_timeout, Duration::from_millis(5));
    let err = PiHttpLlmConfig::from_env(&env(&[
        ("LLM_PROVIDER", "pi"),
        ("XIAOZHI_PI_AGENT_ID", "  "),
    ]))
    .unwrap_err();
    assert_eq!(err.message, "pi-server agent id must not be empty");
    assert_eq!(chat_body("hi").text(), r#"{"prompt":"hi"}"#);
}

#[test]
fn members_give_the_text_and_the_reason() {
    let with = |key: &str, value: Json| Json::object().with(key, value);
    assert_eq!(delta_text(&with("delta", Json::str("好"))), "好");
    assert_eq!(delta_text(&with("delta", Json::UInt(1))), "");
    assert_eq!(delta_text(&Json::Null), "");

    let both = with("message", Json::str("m")).with("error", Json::str("e"));
    assert_eq!(reason_text(&both).as_deref(), Some("m"));
    assert_eq!(reason_text(&with("error", Json::str("e"))).as_deref(), Some("e"));
    let odd = with("message", Json::Null).with("error", Json::str("e"));
    assert_eq!(reason_text(&odd), None);
    assert_eq!(reason_text(&Json::object()), None);
}
