use std::time::Duration;
use xiaozhi_server::env::Env;
use xiaozhi_server::json::Json;
use xiaozhi_server::services::pi_rpc::{
    child_env, command_line, default_safe_flags, event_of, on_chat_input, on_keeper_input, on_read,
    parse_line, system_prompt_file, ChatInput, KeeperAction, KeeperInput, PiEvent, PiRpcLlmFactory,
    PiRpcLlmFactoryConfig, ReadOutcome, RequestIds, WriterCommand,
};

fn env(pairs: &[(&str, &str)]) -> Env {
    Env {
        vars: pairs
            .iter()
            .map(|(a, b)| (a.to_string(), b.to_string()))
            .collect(),
    }
}

fn event(line: &str) -> String {
    format!("{:?}", parse_line(line))
}

#[test]
fn the_child_is_started_with_safe_flags() {
    assert!(PiRpcLlmFactoryConfig::from_env(&env(&[]), None).is_none());
    let config = PiRpcLlmFactoryConfig::from_env(
        &env(&[("LLM_PROVIDER", "pi_rpc")]),
        Some("be kind \n".to_string()),
    )
    .unwrap();
    assert_eq!(config.command, "pi");
    let mut expected = vec!["--mode".to_string(), "rpc".to_string()];
    expected.extend(default_safe_flags());
    expected.push("--system-prompt".to_string());
    expected.push("be kind".to_string());
    assert_eq!(config.args, expected);
    assert_eq!(config.stream_idle_timeout, Duration::from_millis(60_000));
    assert_eq!(config.cwd, None);
    let factory = PiRpcLlmFactory::new(config);
    assert_eq!(factory.config.args[2], "--no-tools");
}

#[test]
fn the_child_is_started_with_own_flags() {
    let settings = env(&[
        ("XIAOZHI_LLM_PROVIDER", "pi"),
        ("XIAOZHI_PI_RPC_FLAGS", "  -a   --b c\n"),
        ("XIAOZHI_PI_RPC_COMMAND", "agent"),
        ("XIAOZHI_PI_RPC_CWD", "/srv"),
        ("XIAOZHI_PI_RPC_IDLE_TIMEOUT_MS", "9"),
        ("XIAOZHI_PI_RPC_SYSTEM_PROMPT_FILE", "p.txt"),
    ]);
    assert_eq!(system_prompt_file(&settings).as_deref(), Some("p.txt"));
    let config = PiRpcLlmFactoryConfig::from_env(&settings, Some(" \n".to_string())).unwrap();
    assert_eq!(config.args, vec!["--mode", "rpc", "-a", "--b", "c"]);
    assert_eq!(config.command, "agent");
    assert_eq!(config.cwd.as_deref(), Some("/srv"));
    assert_eq!(config.stream_idle_timeout, Duration::from_millis(9));
}

#[test]
fn some_variables_are_handed_on() {
    assert!(child_env(&env(&[("HOME", "/root")])).is_empty());
    assert_eq!(
        child_env(&env(&[("PI_OFFLINE", "1"), ("PI_NO_LOCAL_LLM", "")])),
        vec![
            ("PI_NO_LOCAL_LLM".to_string(), String::new()),
            ("PI_OFFLINE".to_string(), "1".to_string())
        ]
    );
}

#[test]
fn commands_are_lines_of_json() {
    let mut ids = RequestIds::new();
    let request_id = ids.take();
    assert_eq!(
        command_line(WriterCommand::Prompt {
            request_id,
            message: "a\"b".to_string()
        }),
        "{\"id\":\"req-1\",\"message\":\"a\\\"b\",\"type\":\"prompt\"}\n"
    );
    assert_eq!(
        command_line(WriterCommand::Abort {
            request_id: ids.take()
        }),
        "{\"id\":\"abort-2\",\"type\":\"abort\"}\n"
    );
    assert_eq!(
        command_line(WriterCommand::Shutdown),
        "{\"type\":\"abort\"}\n"
    );
    let mut last = RequestIds { next: u64::MAX };
    assert_eq!(last.take(), u64::MAX);
    assert_eq!(last.take(), 0);
}

#[test]
fn lines_of_the_child_are_read() {
    assert_eq!(event(""), "None");
    assert_eq!(event("not json"), "None");
    assert_eq!(event(r#"{"x":1}"#), "None");
    assert_eq!(event(r#"{"type":"queue_update"}"#), "None");
    assert_eq!(
        event(r#"{"type":"response","success":true,"id":"req-1"}"#),
        r#"Some(PromptStarted { request_id: "req-1" })"#
    );
    assert_eq!(event(r#"{"type":"response","success":true}"#), "None");
    assert_eq!(
        event(r#"{"type":"response","success":false,"command":"prompt","error":"no"}"#),
        r#"Some(PromptRejected { reason: "no" })"#
    );
    assert_eq!(
        event(r#"{"type":"response","success":false}"#),
        r#"Some(PromptFailed { reason: "unknown" })"#
    );
    assert_eq!(
        event(
            r#"{"type":"message_update","assistantMessageEvent":{"type":"text_delta","delta":"hi"}}"#
        ),
        r#"Some(TextDelta("hi"))"#
    );
    assert_eq!(
        event(
            r#"{"type":"message_update","assistantMessageEvent":{"type":"thinking_delta","delta":"hm"}}"#
        ),
        "None"
    );
    assert_eq!(
        event(r#"{"type":"agent_end","willRetry":true}"#),
        "Some(AgentEnd { will_retry: true })"
    );
    assert_eq!(
        event(r#"{"type":"agent_end"}"#),
        "Some(AgentEnd { will_retry: false })"
    );
    assert_eq!(
        event(r#"{"type":"auto_retry_start","attempt":2}"#),
        r#"Some(Retry { kind: "start", attempt: Some(2), success: None })"#
    );
    assert_eq!(
        event(r#"{"type":"auto_retry_end","attempt":-2,"success":false}"#),
        r#"Some(Retry { kind: "end", attempt: None, success: Some(false) })"#
    );
    assert_eq!(
        event(r#"{"type":"compaction_start","reason":"long"}"#),
        r#"Some(Compaction { kind: "start", reason: Some("long") })"#
    );
    assert_eq!(
        event(r#"{"type":"compaction_end"}"#),
        r#"Some(Compaction { kind: "end", reason: None })"#
    );
}

#[test]
fn reading_goes_on_until_the_child_is_done() {
    let read = |outcome| {
        let (event, goes_on) = on_read(outcome);
        (format!("{event:?}"), goes_on)
    };
    assert_eq!(
        read(ReadOutcome::Line(r#"{"type":"agent_end"}"#.to_string())),
        ("Some(AgentEnd { will_retry: false })".to_string(), true)
    );
    assert_eq!(read(ReadOutcome::Line(String::new())), ("None".to_string(), true));
    assert_eq!(
        read(ReadOutcome::Ended),
        ("Some(ChildExited(None))".to_string(), false)
    );
    assert_eq!(read(ReadOutcome::Failed), ("None".to_string(), false));
    assert_eq!(read(ReadOutcome::TimedOut), ("Some(Idle)".to_string(), false));
}

#[test]
fn answers_end_in_one_way_or_another() {
    let step = |input| format!("{:?}", on_chat_input(input));
    assert_eq!(
        step(ChatInput::Event(PiEvent::TextDelta("x".to_string()))),
        r#"Forward("x")"#
    );
    assert_eq!(
        step(ChatInput::Event(PiEvent::PromptRejected {
            reason: "r".to_string()
        })),
        r#"Fail(Rejected("r"))"#
    );
    assert_eq!(
        step(ChatInput::Event(PiEvent::PromptFailed {
            reason: "f".to_string()
        })),
        r#"Fail(Failed("f"))"#
    );
    assert_eq!(
        step(ChatInput::Event(PiEvent::AgentEnd { will_retry: true })),
        "Done"
    );
    assert_eq!(step(ChatInput::Event(PiEvent::Idle)), "Fail(Idle)");
    assert_eq!(
        step(ChatInput::Event(PiEvent::ChildExited(Some(1)))),
        "Fail(ChildExited(Some(1)))"
    );
    assert_eq!(
        step(ChatInput::Event(PiEvent::PromptStarted {
            request_id: "req-1".to_string()
        })),
        "Continue"
    );
    assert_eq!(step(ChatInput::Lagged), "Continue");
    assert_eq!(step(ChatInput::Closed), "Fail(Closed)");
    assert_eq!(step(ChatInput::TimedOut), "Fail(TimedOut)");
}

#[test]
fn the_child_is_kept_until_it_is_silent() {
    assert_eq!(on_keeper_input(&KeeperInput::Shutdown), KeeperAction::Kill);
    assert_eq!(on_keeper_input(&KeeperInput::Closed), KeeperAction::Kill);
    assert_eq!(on_keeper_input(&KeeperInput::Lagged), KeeperAction::Continue);
    assert_eq!(
        on_keeper_input(&KeeperInput::Event(PiEvent::Idle)),
        KeeperAction::Kill
    );
    assert_eq!(
        on_keeper_input(&KeeperInput::Event(PiEvent::ChildExited(None))),
        KeeperAction::Reap
    );
    assert_eq!(
        on_keeper_input(&KeeperInput::Event(PiEvent::TextDelta(String::new()))),
        KeeperAction::Continue
    );
}

#[test]
fn values_say_what_their_lines_say() {
    let started = Json::object()
        .with("type", Json::str("response"))
        .with("success", Json::Bool(true))
        .with("id", Json::str("7"));
    match event_of(&started) {
        Some(PiEvent::PromptStarted { request_id }) => assert_eq!(request_id, "7"),
        other => panic!("{other:?}"),
    }
    let update = |kind: &str| {
        Json::object().with("type", Json::str("message_update")).with(
            "assistantMessageEvent",
            Json::object()
                .with("type", Json::str(kind))
                .with("delta", Json::str("好")),
        )
    };
    match event_of(&update("text_delta")) {
        Some(PiEvent::TextDelta(text)) => assert_eq!(text, "好"),
        other => panic!("{other:?}"),
    }
    assert!(event_of(&update("thinking_delta")).is_none());
    let retry = Json::object()
        .with("type", Json::str("auto_retry_end"))
        .with("attempt", Json::UInt(2));
    match event_of(&retry) {
        Some(PiEvent::Retry { kind, attempt, success }) => {
            assert_eq!((kind.as_str(), attempt, success), ("end", Some(2), None));
        }
        other => panic!("{other:?}"),
    }
    let said = format!("{:?}", event_of(&retry));
    assert_eq!(event(&retry.text()), said);
    assert!(event_of(&Json::object().with("type", Json::UInt(1))).is_none());
    assert!(event_of(&Json::Null).is_none());
}
