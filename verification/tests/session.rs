use bytes::Bytes;
use std::time::Duration;
use xiaozhi_server::audio::silero_vad::VadEvent;
use xiaozhi_server::env::Env;
use xiaozhi_server::json::Json;
use xiaozhi_server::protocol::{AudioFrame, BinaryProtocolVersion, IncomingJson, ProtocolError};
use xiaozhi_server::services::TtsEvent;
use xiaozhi_server::session::pipeline::{
    after_send, chat_unavailable, end_speech, on_tts, pipeline_failed, AsrOutcome, PipelineNext,
    TtsNext, TtsOutcome,
};
use xiaozhi_server::session::ring::PcmRingBuffer;
use xiaozhi_server::session::settings::{
    check_exit_command, end_prompt_enabled, end_prompt_text, exit_commands, idle_close_after,
    listen_max_timeout,
};
use xiaozhi_server::session::watchdog::WatchAction;
use xiaozhi_server::session::{
    format_error_chain, llm_meta, new_session_id, Action, AudioStep, AudioTurn, Inbound, LoopNext,
    Outbound, SessionMeta, SessionState, TextNext, Wire,
};

fn env(pairs: &[(&str, &str)]) -> Env {
    Env {
        vars: pairs
            .iter()
            .map(|(a, b)| (a.to_string(), b.to_string()))
            .collect(),
    }
}

fn exit_env(value: Option<&str>) -> Env {
    match value {
        Some(v) => env(&[("XIAOZHI_EXIT_COMMANDS", v)]),
        None => env(&[]),
    }
}

fn incoming(typ: &str, state: Option<&str>) -> Option<IncomingJson> {
    let mut extra = Json::object();
    if let Some(state) = state {
        extra = extra.with("state", Json::str(state));
    }
    Some(IncomingJson {
        session_id: None,
        typ: typ.to_string(),
        version: None,
        extra,
    })
}

// The actions in short.
fn names(actions: Vec<Action>) -> Vec<String> {
    actions
        .into_iter()
        .map(|action| match action {
            Action::Send(Outbound::Text(json)) => {
                let kind = json.get_str("type").unwrap_or("").to_string();
                match json.get_str("state") {
                    Some(state) => format!("{kind}.{state}"),
                    None => kind,
                }
            }
            Action::Send(Outbound::Close) => "close".to_string(),
            Action::PushAsr(samples) => format!("push {}", samples.len()),
            other => format!("{other:?}"),
        })
        .collect()
}

fn text(
    state: &mut SessionState,
    version: &mut BinaryProtocolVersion,
    message: Option<IncomingJson>,
) -> (Vec<String>, TextNext) {
    let step = state.handle_text("s", version, &message);
    (names(step.actions), step.next)
}

fn listening(now: u64) -> SessionState {
    let mut state = SessionState::new(0);
    let timeout = Duration::from_secs(120);
    let actions = state.start_listening(Some("auto".to_string()), true, timeout, now);
    assert_eq!(names(actions), vec!["ArmTimeout(120s)"]);
    state
}

#[test]
fn exit_command_matches_default_keywords_exactly() {
    let env = exit_env(None);
    let r = check_exit_command(&env, "退出");
    let d = r.as_deref();
    assert_eq!(d, Some("退出"));
    let r = check_exit_command(&env, "关闭");
    let d = r.as_deref();
    assert_eq!(d, Some("关闭"));
}

#[test]
fn exit_command_tolerates_trailing_punctuation() {
    let env = exit_env(None);
    let r = check_exit_command(&env, "退出。");
    let d = r.as_deref();
    assert_eq!(d, Some("退出"));
    let r = check_exit_command(&env, "退出!");
    let d = r.as_deref();
    assert_eq!(d, Some("退出"));
    let r = check_exit_command(&env, "退出？");
    let d = r.as_deref();
    assert_eq!(d, Some("退出"));
    let r = check_exit_command(&env, "关闭…");
    let d = r.as_deref();
    assert_eq!(d, Some("关闭"));
}

#[test]
fn exit_command_does_not_match_substring_or_sentence() {
    let env = exit_env(None);
    // "退出系统" is a phrase, not the bare keyword.
    assert!(check_exit_command(&env, "退出系统").is_none());
    assert!(check_exit_command(&env, "我想退出").is_none());
    assert!(check_exit_command(&env, "请关闭一下吧").is_none());
    assert!(check_exit_command(&env, "").is_none());
    assert!(check_exit_command(&env, "   ").is_none());
}

#[test]
fn exit_command_respects_custom_env_var() {
    let env = exit_env(Some("bye,see you,晚安"));
    let r = check_exit_command(&env, "bye");
    let d = r.as_deref();
    assert_eq!(d, Some("bye"));
    let r = check_exit_command(&env, "see you");
    let d = r.as_deref();
    assert_eq!(d, Some("see you"));
    let r = check_exit_command(&env, "晚安");
    let d = r.as_deref();
    assert_eq!(d, Some("晚安"));
    // Defaults no longer apply once env is set.
    assert!(check_exit_command(&env, "退出").is_none());
}

#[test]
fn idle_close_after_reads_env_or_default() {
    let set = |value: &str| env(&[("XIAOZHI_IDLE_CLOSE_SECONDS", value)]);
    assert_eq!(idle_close_after(&env(&[])), Duration::from_secs(90));
    assert_eq!(idle_close_after(&set("45")), Duration::from_secs(45));
    // 0 is treated as "use default" (not a valid threshold).
    assert_eq!(idle_close_after(&set("0")), Duration::from_secs(90));
    assert_eq!(idle_close_after(&set("bogus")), Duration::from_secs(90));
}

#[test]
fn end_prompt_disabled_short_circuits_watchdog() {
    let set = |value: &str| env(&[("XIAOZHI_END_PROMPT_ENABLED", value)]);
    assert!(!end_prompt_enabled(&set("false")));
    assert!(!end_prompt_enabled(&set("0")));
    assert!(!end_prompt_enabled(&set("off")));
    assert!(end_prompt_enabled(&env(&[])));
    assert!(end_prompt_enabled(&set("true")));
}

#[test]
fn exit_commands_are_split_at_commas() {
    assert_eq!(exit_commands(&exit_env(Some(" a b 、,c,"))), vec!["a b", "c"]);
    assert_eq!(exit_commands(&exit_env(Some(" ,、 "))), vec!["退出", "关闭"]);
    assert_eq!(exit_commands(&exit_env(None)), vec!["退出", "关闭"]);
    let env = exit_env(Some("bye!"));
    assert_eq!(check_exit_command(&env, " bye! ").as_deref(), Some("bye!"));
    assert!(check_exit_command(&env, "bye").is_none());
}

#[test]
fn closing_marks_come_in_both_forms() {
    let env = exit_env(None);
    for mark in [".", "。", "!", "！", "?", "？", "~", "～", "…", " ", "\t"] {
        let text = format!(" 退出{mark}");
        assert_eq!(check_exit_command(&env, &text).as_deref(), Some("退出"), "{mark}");
    }
    assert_eq!(check_exit_command(&env, "\n关闭～～ ...！").as_deref(), Some("关闭"));
    assert!(check_exit_command(&env, "退出，").is_none());
    assert!(check_exit_command(&env, "～退出").is_none());
}

#[test]
fn listening_is_limited() {
    assert_eq!(listen_max_timeout(&env(&[])), Duration::from_secs(120));
    assert_eq!(
        listen_max_timeout(&env(&[("XIAOZHI_LISTEN_MAX_TIMEOUT_MS", "250")])),
        Duration::from_millis(250)
    );
    assert_eq!(
        listen_max_timeout(&env(&[("XIAOZHI_LISTEN_MAX_TIMEOUT_MS", "-1")])),
        Duration::from_secs(120)
    );
}

#[test]
fn goodbye_has_a_prompt() {
    assert!(end_prompt_text(&env(&[])).starts_with("请你以\"时间过得真快\"开头"));
    assert_eq!(
        end_prompt_text(&env(&[("XIAOZHI_END_PROMPT", " bye \n")])),
        "bye"
    );
    assert!(end_prompt_text(&env(&[("XIAOZHI_END_PROMPT", "  ")])).starts_with("请你"));
}

#[test]
fn the_ring_keeps_the_newest_samples() {
    let mut ring = PcmRingBuffer::new(4);
    ring.push(&[1, 2, 3]);
    assert_eq!(ring.drain(), vec![1, 2, 3]);
    ring.push(&[4, 5]);
    assert_eq!(ring.drain(), vec![2, 3, 4, 5]);
    ring.push(&[6, 7, 8, 9, 10]);
    assert_eq!(ring.drain(), vec![7, 8, 9, 10]);
    let mut whole = PcmRingBuffer::new(4);
    whole.push(&[1, 2, 3, 4, 5, 6, 7, 8, 9, 10]);
    assert_eq!(whole.drain(), ring.drain());
    let mut none = PcmRingBuffer::new(0);
    none.push(&[1, 2]);
    assert!(none.drain().is_empty());
}

#[test]
fn hello_sets_the_version() {
    let mut state = SessionState::new(0);
    let mut version = BinaryProtocolVersion::V1;
    let mut message = incoming("hello", None);
    message.as_mut().unwrap().version = Some(3);
    let (actions, next) = text(&mut state, &mut version, message);
    assert_eq!(actions, vec!["hello"]);
    assert_eq!(next, TextNext::Stay);
    assert_eq!(version, BinaryProtocolVersion::V3);
    let (_, next) = text(&mut state, &mut version, incoming("goodbye", None));
    assert_eq!(next, TextNext::Leave);
    let (actions, next) = text(&mut state, &mut version, None);
    assert!(actions.is_empty());
    assert_eq!(next, TextNext::Stay);
    for (typ, listen) in [("mcp", None), ("x", None), ("listen", None), ("listen", Some("x"))] {
        let (actions, next) = text(&mut state, &mut version, incoming(typ, listen));
        assert!(actions.is_empty());
        assert_eq!(next, TextNext::Stay);
    }
}

#[test]
fn listening_starts_by_giving_up_what_was_going_on() {
    let mut state = SessionState::new(0);
    let mut version = BinaryProtocolVersion::V1;
    let (actions, next) = text(&mut state, &mut version, incoming("listen", Some("start")));
    assert_eq!(actions, vec!["NotifyPipeline", "AbortLlm", "tts.stop"]);
    assert_eq!(next, TextNext::OpenListening);

    let mut state = listening(5);
    assert_eq!(state.listen_mode.as_deref(), Some("auto"));
    state.asr_open = true;
    let (actions, _) = text(&mut state, &mut version, incoming("abort", None));
    assert_eq!(
        actions,
        vec!["CancelTimeout", "NotifyPipeline", "AbortLlm", "AbortAsr", "tts.stop"]
    );
    assert!(!state.listening);
    let (actions, _) = text(&mut state, &mut version, incoming("listen", Some("detect")));
    assert_eq!(actions, vec!["NotifyPipeline", "AbortLlm", "tts.stop"]);
}

#[test]
fn a_listening_leads_to_one_conversation() {
    let mut state = listening(0);
    state.asr_open = true;
    let mut version = BinaryProtocolVersion::V1;
    let (actions, _) = text(&mut state, &mut version, incoming("listen", Some("stop")));
    assert_eq!(actions, vec!["CancelTimeout", "StartPipeline { id: 0 }"]);
    assert!(state.already_triggered);
    let (actions, _) = text(&mut state, &mut version, incoming("listen", Some("stop")));
    assert!(actions.is_empty());
    assert!(state.finish_listening(false).is_empty());

    // A new round replaces a pipeline that is still in flight.
    let timeout = Duration::from_secs(1);
    state.start_listening(None, false, timeout, 9);
    state.asr_open = true;
    assert_eq!(
        names(state.finish_listening(false)),
        vec!["StartPipeline { id: 1 }", "CancelPipeline { id: 0 }"]
    );
    assert!(state.timeout_armed);
    state.pipeline_finished(0);
    assert_eq!(state.pipeline, Some(1));
    state.pipeline_finished(1);
    assert_eq!(state.pipeline, None);

    // Without a recognition there is nothing to talk about.
    let mut state = listening(0);
    assert_eq!(names(state.finish_listening(true)), vec!["CancelTimeout"]);
    assert_eq!(state.pipeline, None);
}

#[test]
fn audio_needs_a_listener() {
    let mut state = SessionState::new(0);
    let v1 = BinaryProtocolVersion::V1;
    assert!(matches!(
        state.handle_binary(v1, b"opus", 7),
        AudioStep::NotListening
    ));
    assert_eq!(state.input_frames, 0);
    assert_eq!(state.last_voice_ms, Some(0));
    let mut state = listening(0);
    match state.handle_binary(v1, b"opus", 7) {
        AudioStep::Decode(packet) => assert_eq!(&packet[..], b"opus"),
        other => panic!("{other:?}"),
    }
    assert_eq!(state.input_frames, 1);
    assert_eq!(state.last_voice_ms, Some(7));
    assert!(matches!(
        state.handle_binary(BinaryProtocolVersion::V3, b"op", 8),
        AudioStep::Invalid(ProtocolError::ShortFrame { version: 3, len: 2 })
    ));
    assert!(matches!(
        state.handle_binary(BinaryProtocolVersion::V3, &[1, 0, 0, 0], 8),
        AudioStep::NotAudio
    ));
    assert_eq!(state.last_voice_ms, Some(7));
}

#[test]
fn recognition_gets_the_last_second() {
    let mut state = listening(0);
    let mut heard: Vec<i16> = Vec::new();
    for i in 0..40i16 {
        let samples = vec![i; 500];
        assert!(!state.take_samples(&samples));
        heard.extend(samples);
    }
    let mut turn = AudioTurn {
        finish: false,
        asr_failed: false,
    };
    assert!(SessionState::on_vad_event(
        &mut turn,
        VadEvent::SpeechStart { sample: 0 }
    ));
    let actions = state.on_asr_opened(&mut turn, true);
    match &actions[0] {
        Action::PushAsr(samples) => assert_eq!(samples[..], heard[heard.len() - 16_000..]),
        other => panic!("{other:?}"),
    }
    assert_eq!(names(actions), vec!["push 16000", "CancelTimeout"]);
    assert!(state.asr_open);
    assert!(state.take_samples(&[1]));
    assert!(!SessionState::on_vad_event(
        &mut turn,
        VadEvent::SpeechEnd {
            start_sample: 0,
            end_sample: 9
        }
    ));
    assert_eq!(
        names(state.end_turn(turn, "s")),
        vec!["StartPipeline { id: 0 }"]
    );
}

#[test]
fn a_recognition_that_cannot_be_opened_ends_the_listening() {
    let mut state = listening(0);
    let mut turn = AudioTurn {
        finish: false,
        asr_failed: false,
    };
    assert!(state.on_asr_opened(&mut turn, false).is_empty());
    assert!(turn.asr_failed);
    assert_eq!(
        names(state.end_turn(turn, "s")),
        vec!["CancelTimeout", "NotifyPipeline", "AbortLlm"]
    );
    assert!(!state.listening);
}

#[test]
fn pings_are_answered_and_pongs_are_matched() {
    let mut state = SessionState::new(0);
    let mut version = BinaryProtocolVersion::V1;
    let step = state.handle_websocket(
        "s",
        &mut version,
        &Inbound::Ping(Bytes::from_static(b"p")),
        0,
    );
    assert!(matches!(&step.actions[..], [Action::Send(Outbound::Pong(b))] if &b[..] == b"p"));
    let ping = state.probe_websocket_alive().unwrap();
    assert_eq!(ping.len(), 16);
    assert!(state.probe_websocket_alive().is_none());
    assert!(!state.complete_ws_probe(&Bytes::from_static(b"other")));
    let step = state.handle_websocket("s", &mut version, &Inbound::Pong(ping.clone()), 0);
    assert!(step.actions.is_empty());
    assert!(!state.complete_ws_probe(&ping));
    let again = state.begin_probe(vec![1, 2]).unwrap();
    assert_ne!(again, ping);
    state.probe_failed();
    assert!(!state.complete_ws_probe(&again));
}

#[test]
fn the_loop_goes_on_until_the_end() {
    let mut state = SessionState::new(0);
    let mut version = BinaryProtocolVersion::V1;
    let mut next = |inbound: Inbound| state.handle_websocket("s", &mut version, &inbound, 0).next;
    assert!(matches!(
        next(Inbound::Text(incoming("goodbye", None))),
        LoopNext::Leave
    ));
    assert!(matches!(
        next(Inbound::Text(incoming("listen", Some("start")))),
        LoopNext::OpenListening
    ));
    assert!(matches!(next(Inbound::Text(None)), LoopNext::Stay));
    assert!(matches!(
        next(Inbound::Binary(Bytes::from_static(b"x"))),
        LoopNext::Audio(AudioStep::NotListening)
    ));
    assert!(matches!(next(Inbound::End), LoopNext::Leave));
    assert_eq!(
        names(state.leave("s")),
        vec!["NotifyPipeline", "AbortLlm", "ShutdownLlm"]
    );
}

#[test]
fn conversations_announce_themselves() {
    let commands = exit_commands(&env(&[]));
    let mut state = SessionState::new(0);
    let step = state.run_pipeline("s", &commands, &AsrOutcome::Text("你好".to_string()));
    assert_eq!(step.next, PipelineNext::Chat);
    assert_eq!(names(step.actions), vec!["stt", "llm", "tts.start"]);
    assert!(!state.close_after_chat);
    let step = state.run_pipeline("s", &commands, &AsrOutcome::Text(" \n".to_string()));
    assert_eq!(step.next, PipelineNext::Close);
    assert_eq!(names(step.actions), vec!["tts.start", "tts.stop"]);
    let step = state.run_pipeline("s", &commands, &AsrOutcome::Aborted);
    assert_eq!(step.next, PipelineNext::Done);
    assert_eq!(names(step.actions), vec!["AbortAsr"]);
    let step = state.run_pipeline("s", &commands, &AsrOutcome::Failed);
    assert_eq!(step.next, PipelineNext::Fail);
    assert_eq!(names(pipeline_failed("s", false)), vec!["tts.stop"]);
    assert_eq!(names(pipeline_failed("s", true)), vec!["Shutdown"]);
    let step = chat_unavailable("s");
    assert_eq!(step.next, PipelineNext::Done);
    match &step.actions[0] {
        Action::Send(Outbound::Text(json)) => {
            assert_eq!(json.get_str("message"), Some("llm session not available"));
        }
        other => panic!("{other:?}"),
    }
}

#[test]
fn exit_commands_close_the_session() {
    let commands = exit_commands(&env(&[]));
    let mut state = SessionState::new(0);
    assert!(state.maybe_schedule_close_after_chat(false).is_empty());
    let step = state.run_pipeline_with_text("s", &commands, "退出。");
    assert_eq!(step.next, PipelineNext::Chat);
    assert!(state.close_after_chat);
    assert!(state.maybe_schedule_close_after_chat(true).is_empty());
    assert_eq!(
        names(state.maybe_schedule_close_after_chat(false)),
        vec!["Sleep(240)", "close", "Shutdown"]
    );
}

#[test]
fn speech_is_sent_as_it_comes() {
    let v3 = BinaryProtocolVersion::V3;
    let sentence = TtsOutcome::Event(TtsEvent::SentenceStart("a".to_string()));
    match on_tts("s", v3, sentence) {
        TtsNext::Send(Outbound::Text(json)) => {
            assert_eq!(json.get_str("state"), Some("sentence_start"));
            assert_eq!(json.get_str("text"), Some("a"));
        }
        other => panic!("{other:?}"),
    }
    let audio = TtsOutcome::Event(TtsEvent::Audio(AudioFrame {
        timestamp: 60,
        payload: Bytes::from_static(b"x"),
    }));
    match on_tts("s", v3, audio) {
        TtsNext::Send(Outbound::Binary(bytes)) => assert_eq!(&bytes[..], &[0, 0, 0, 1, b'x']),
        other => panic!("{other:?}"),
    }
    assert!(matches!(
        on_tts("s", v3, TtsOutcome::Ended),
        TtsNext::Stop { aborted: false }
    ));
    assert!(matches!(
        on_tts("s", v3, TtsOutcome::Aborted),
        TtsNext::Stop { aborted: true }
    ));
    assert!(matches!(on_tts("s", v3, TtsOutcome::Failed), TtsNext::Fail));
    assert_eq!(names(end_speech("s")), vec!["tts.stop"]);
}

#[test]
fn speech_stops_when_audio_cannot_be_sent() {
    assert!(after_send(false, Outbound::Binary(Bytes::new()).is_audio()));
    assert!(!after_send(false, Outbound::Text(Json::Null).is_audio()));
    assert!(!after_send(true, true));
    assert!(!after_send(true, false));
}

#[test]
fn silent_devices_are_told_goodbye_once() {
    let mut state = SessionState::new(1_000);
    assert!(!state.is_idle(90_999, 90_000));
    assert!(state.is_idle(91_000, 90_000));
    assert_eq!(state.after_probe(false, 91_000, 90_000), WatchAction::Shutdown);
    assert_eq!(
        state.after_probe(true, 91_000, 90_000),
        WatchAction::Goodbye { id: 0 }
    );
    assert!(state.close_after_chat);
    assert_eq!(state.after_probe(true, 500_000, 90_000), WatchAction::Wait);
    let mut busy = SessionState::new(0);
    busy.pipeline = Some(4);
    assert!(!busy.is_idle(500_000, 90_000));
    busy.pipeline_finished(4);
    assert!(busy.is_idle(500_000, 90_000));
    let mut state = listening(0);
    assert_eq!(state.after_probe(true, 500_000, 90_000), WatchAction::Wait);
}

#[test]
fn messages_have_a_wire_form() {
    let wire = |o: Outbound| {
        let (wire, last) = o.to_wire();
        (format!("{wire:?}"), last)
    };
    let json = Json::object().with("a", Json::UInt(1));
    match Outbound::Text(json).to_wire() {
        (Wire::Text(t), false) => assert_eq!(t, r#"{"a":1}"#),
        other => panic!("{other:?}"),
    }
    let b = Bytes::from_static(b"b");
    assert_eq!(wire(Outbound::Binary(b.clone())), ("Binary(b\"b\")".to_string(), false));
    assert_eq!(wire(Outbound::Ping(b.clone())), ("Ping(b\"b\")".to_string(), false));
    assert_eq!(wire(Outbound::Pong(b)), ("Pong(b\"b\")".to_string(), false));
    assert_eq!(wire(Outbound::Close), ("Close".to_string(), true));
}

#[test]
fn sessions_have_ids_of_their_own() {
    let id = new_session_id();
    assert_eq!(id.len(), 36);
    for (i, c) in id.chars().enumerate() {
        match i {
            8 | 13 | 18 | 23 => assert_eq!(c, '-'),
            14 => assert_eq!(c, '4'),
            19 => assert!(matches!(c, '8' | '9' | 'a' | 'b')),
            _ => assert!(matches!(c, '0'..='9' | 'a'..='f')),
        }
    }
    assert_ne!(id, new_session_id());
    let meta = SessionMeta {
        device_id: Some("d".to_string()),
        client_id: None,
    };
    let meta = llm_meta(&id, &meta);
    assert_eq!(meta.session_id, id);
    assert_eq!(meta.device_id.as_deref(), Some("d"));
    assert_eq!(meta.client_id, None);
    assert_eq!(meta.agent_id, None);
}

#[test]
fn errors_are_told_with_their_causes() {
    let chain = vec!["a".to_string(), "b".to_string(), "c".to_string()];
    assert_eq!(format_error_chain(&chain), "a: b: c");
    assert_eq!(format_error_chain(&chain[..1].to_vec()), "a");
}
