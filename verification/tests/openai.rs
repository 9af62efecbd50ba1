use xiaozhi_server::env::Env;
use xiaozhi_server::json::{Json, Real};
use xiaozhi_server::services::openai::{
    apply_thinking_config, chat_body, effective_thinking_style, extract_delta_content,
    parse_sse_line, temperature_setting, ChatStream, OpenAiLlmConfig, SseError, Temperature,
    ThinkingStyle,
};

fn test_config(
    model: &str,
    base_url: &str,
    disable_thinking: bool,
    thinking_style: ThinkingStyle,
) -> OpenAiLlmConfig {
    OpenAiLlmConfig {
        api_key: "key".to_string(),
        model: model.to_string(),
        base_url: base_url.to_string(),
        system_prompt: None,
        temperature: None,
        max_tokens: None,
        disable_thinking,
        thinking_style,
    }
}

fn test_body(config: &OpenAiLlmConfig) -> Json {
    Json::object()
        .with("model", Json::str(&config.model))
        .with("messages", Json::array(vec![]))
        .with("stream", Json::Bool(true))
}

fn disabled() -> Json {
    Json::object().with("type", Json::str("disabled"))
}

fn env(pairs: &[(&str, &str)]) -> Env {
    Env {
        vars: pairs
            .iter()
            .map(|(a, b)| (a.to_string(), b.to_string()))
            .collect(),
    }
}

fn line(text: &str) -> String {
    let value = Json::object().with(
        "choices",
        Json::array(vec![
            Json::object().with("delta", Json::object().with("content", Json::str(text)))
        ]),
    );
    format!("data: {}\n", value.text())
}

fn drain(stream: &mut ChatStream) -> Vec<String> {
    let mut out = Vec::new();
    while let Some(text) = stream.next().unwrap() {
        out.push(text);
    }
    out
}

#[test]
fn parses_openai_content_delta() {
    let line = r#"data: {"choices":[{"index":0,"delta":{"content":"你好"},"finish_reason":null}]}"#;
    assert_eq!(
        parse_sse_line(line.as_bytes()).unwrap().as_deref(),
        Some("你好")
    );
}

#[test]
fn ignores_done_marker() {
    assert_eq!(parse_sse_line(b"data: [DONE]").unwrap(), None);
}

#[test]
fn builds_chat_completions_url() {
    let config = test_config(
        "model",
        "https://example.com/v1/",
        false,
        ThinkingStyle::Off,
    );
    assert_eq!(
        config.chat_completions_url(),
        "https://example.com/v1/chat/completions"
    );
}

#[test]
fn disables_deepseek_thinking() {
    let config = test_config(
        "deepseek-v4-flash",
        "https://api.deepseek.com",
        true,
        ThinkingStyle::Auto,
    );
    let body = apply_thinking_config(test_body(&config), &config);
    assert_eq!(body.get("thinking"), Some(&disabled()));
    assert!(body.get("enable_thinking").is_none());
}

#[test]
fn disables_enable_thinking_style() {
    let config = test_config(
        "qwen-plus",
        "https://dashscope.aliyuncs.com/compatible-mode/v1",
        true,
        ThinkingStyle::Auto,
    );
    let body = apply_thinking_config(test_body(&config), &config);
    assert_eq!(body.get("enable_thinking"), Some(&Json::Bool(false)));
    assert!(body.get("thinking").is_none());
}

#[test]
fn disables_unknown_provider_with_both_styles() {
    let config = test_config(
        "some-model",
        "https://example.com/v1",
        true,
        ThinkingStyle::Auto,
    );
    let body = apply_thinking_config(test_body(&config), &config);
    assert_eq!(body.get("thinking"), Some(&disabled()));
    assert_eq!(body.get("enable_thinking"), Some(&Json::Bool(false)));
}

#[test]
fn thinking_is_left_alone_unless_disabled() {
    let config = test_config("deepseek", "x", false, ThinkingStyle::Both);
    let body = apply_thinking_config(test_body(&config), &config);
    assert_eq!(body, test_body(&config));
    let config = test_config("deepseek", "x", true, ThinkingStyle::Off);
    let body = apply_thinking_config(test_body(&config), &config);
    assert_eq!(body, test_body(&config));
    assert_eq!(apply_thinking_config(Json::str("x"), &config), Json::str("x"));
}

#[test]
fn a_missing_request_becomes_an_object() {
    let config = test_config("m", "x", true, ThinkingStyle::Both);
    assert_eq!(
        apply_thinking_config(Json::Null, &config).text(),
        r#"{"enable_thinking":false,"thinking":{"type":"disabled"}}"#
    );
}

#[test]
fn styles_follow_the_service_and_the_model() {
    let style = |model: &str, url: &str| {
        effective_thinking_style(&test_config(model, url, true, ThinkingStyle::Auto))
    };
    assert_eq!(style("DeepSeek-R1", "u"), ThinkingStyle::DeepSeek);
    assert_eq!(style("m", "https://x.ALIBABA.com"), ThinkingStyle::EnableThinking);
    assert_eq!(style("m", "https://x.aliyun.com"), ThinkingStyle::EnableThinking);
    assert_eq!(style("m", "u"), ThinkingStyle::Both);
    assert_eq!(
        effective_thinking_style(&test_config("deepseek", "u", true, ThinkingStyle::Off)),
        ThinkingStyle::Off
    );
}

#[test]
fn a_complete_url_is_kept() {
    let config = test_config(
        "m",
        "https://example.com/v1/chat/completions//",
        true,
        ThinkingStyle::Auto,
    );
    assert_eq!(
        config.chat_completions_url(),
        "https://example.com/v1/chat/completions"
    );
}

#[test]
fn requests_hold_what_is_configured() {
    let mut config = test_config("m", "u", true, ThinkingStyle::Both);
    config.system_prompt = Some("be kind".to_string());
    config.max_tokens = Some(99);
    config.temperature = Some(Temperature::Finite(
        Real::new(serde_json::Number::from_f64(0.25).unwrap()).unwrap(),
    ));
    let expected: serde_json::Value = serde_json::from_str(
        r#"{"model":"m","messages":[{"role":"system","content":"be kind"},
        {"role":"user","content":"hi"}],"stream":true,"temperature":0.25,"max_tokens":99,
        "thinking":{"type":"disabled"},"enable_thinking":false}"#,
    )
    .unwrap();
    assert_eq!(chat_body(&config, "hi").to_value(), expected);

    config.system_prompt = Some(String::new());
    config.temperature = Some(Temperature::NotFinite);
    config.max_tokens = None;
    config.disable_thinking = false;
    let expected: serde_json::Value = serde_json::from_str(
        r#"{"model":"m","messages":[{"role":"user","content":"hi"}],"stream":true,
        "temperature":null}"#,
    )
    .unwrap();
    assert_eq!(chat_body(&config, "hi").to_value(), expected);
}

#[test]
fn contents_may_come_in_parts() {
    let value = Json::parse(
        r#"{"choices":[{"x":1},{"delta":{}},{"delta":{"content":[]}},
        {"delta":{"content":["a",{"text":"b"},{"other":"c"},7]}},{"delta":{"content":"z"}}]}"#
            .as_bytes(),
    )
    .unwrap();
    assert_eq!(extract_delta_content(&value).as_deref(), Some("ab"));
    assert_eq!(extract_delta_content(&Json::Null), None);
    let value = Json::parse(br#"{"choices":[{"delta":{"content":""}}]}"#).unwrap();
    assert_eq!(extract_delta_content(&value).as_deref(), Some(""));
}

#[test]
fn other_lines_bring_no_text() {
    assert_eq!(parse_sse_line(b""), Ok(None));
    assert_eq!(parse_sse_line(b": ping"), Ok(None));
    assert_eq!(parse_sse_line(b"event: x"), Ok(None));
    assert_eq!(parse_sse_line(b" \tdata:[DONE]"), Ok(None));
    assert_eq!(parse_sse_line(b"data: {"), Err(SseError));
}

#[test]
fn an_answer_may_be_cut_anywhere() {
    let whole = format!("{}\n: note\n{}{}data: [DONE]\n", line("你"), line(""), line("好"));
    let mut stream = ChatStream::new();
    stream.push(whole.as_bytes());
    let expected = drain(&mut stream);
    assert_eq!(expected, vec!["你", "好"]);
    for cut in 0..=whole.len() {
        let mut stream = ChatStream::new();
        stream.push(&whole.as_bytes()[..cut]);
        let mut texts = drain(&mut stream);
        stream.push(&whole.as_bytes()[cut..]);
        texts.extend(drain(&mut stream));
        assert_eq!(texts, expected, "cut at {cut}");
    }
}

#[test]
fn the_last_line_needs_no_end() {
    let mut stream = ChatStream::new();
    stream.push(line("end").trim_end().as_bytes());
    assert_eq!(stream.next(), Ok(None));
    assert_eq!(stream.finish(), Ok(Some("end".to_string())));
    assert_eq!(stream.finish(), Ok(None));
    stream.push(b"data: {");
    assert_eq!(stream.finish(), Err(SseError));
    stream.push(b"data: {\n");
    assert_eq!(stream.next(), Err(SseError));
}

#[test]
fn openai_settings_are_read() {
    assert!(OpenAiLlmConfig::from_env(&env(&[]), None).unwrap().is_none());
    let err =
        OpenAiLlmConfig::from_env(&env(&[("LLM_PROVIDER", "OpenAI")]), None).unwrap_err();
    assert_eq!(
        err.message,
        "missing required env; expected one of XIAOZHI_LLM_API_KEY, OPENAI_API_KEY"
    );
    let settings = env(&[
        ("XIAOZHI_LLM_PROVIDER", "openai-compatible"),
        ("XIAOZHI_LLM_API_KEY", ""),
        ("OPENAI_API_KEY", "k"),
        ("OPENAI_API_BASE", "b"),
        ("OPENAI_MAX_TOKENS", "12"),
        ("OPENAI_TEMPERATURE", "0.5"),
        ("OPENAI_DISABLE_THINKING", "No"),
        ("OPENAI_THINKING_STYLE", "Qwen"),
    ]);
    assert_eq!(temperature_setting(&settings).as_deref(), Some("0.5"));
    let config = OpenAiLlmConfig::from_env(&settings, None).unwrap().unwrap();
    assert_eq!(config.api_key, "k");
    assert_eq!(config.base_url, "b");
    assert_eq!(config.model, "gpt-4o-mini");
    assert_eq!(config.max_tokens, Some(12));
    assert!(!config.disable_thinking);
    assert_eq!(config.thinking_style, ThinkingStyle::EnableThinking);
}

#[test]
fn lines_end_with_a_line_feed_a_carriage_return_or_both() {
    for mark in ["\n", "\r", "\r\n"] {
        let whole: String = ["你", "", "好"]
            .iter()
            .map(|text| line(text).trim_end().to_string() + mark + mark)
            .collect();
        for cut in 0..=whole.len() {
            let mut stream = ChatStream::new();
            stream.push(&whole.as_bytes()[..cut]);
            let mut texts = drain(&mut stream);
            stream.push(&whole.as_bytes()[cut..]);
            texts.extend(drain(&mut stream));
            assert_eq!(texts, vec!["你", "好"], "{mark:?} cut at {cut}");
            assert_eq!(stream.finish(), Ok(None));
        }
        let mut stream = ChatStream::new();
        stream.push(format!("data: x{mark}rest").as_bytes());
        assert_eq!(stream.next(), Err(SseError));
        assert_eq!(stream.buffer, b"rest");
    }
}
