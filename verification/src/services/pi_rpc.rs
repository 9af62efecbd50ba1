//! The pi agent as a child process that speaks lines of JSON.
use crate::env::{llm_provider, llm_provider_text, or, or_text, or_uint, uint_or, Env};
use crate::json::{empty_object, json_parsed, json_text, Json, JsonTree};
use crate::text::{
    concat, decimal, decimal_text, is_white_space, lemma_without_suffix_step, opt_text, pair, pairs,
    same, split_whitespace, texts, trim_end, trimmed_end, white, words,
};
use crate::time::duration_nanos;
use std::sync::Arc;
use std::time::Duration;
use vstd::prelude::*;
use vstd::utf8::encode_utf8;

verus! {

/// How many seconds an answer may be silent.
pub const PROMPT_IDLE_SECS: u64 = 60;

/// How the child is started.
#[derive(Debug)]
pub struct PiRpcLlmFactoryConfig {
    pub command: String,
    pub args: Vec<String>,
    pub cwd: Option<String>,
    pub stream_idle_timeout: Duration,
}

/// The child was asked for.
pub open spec fn pi_rpc_wanted(env: Env) -> bool {
    let provider = llm_provider_text(env);
    provider == "pi"@ || provider == "pi-rpc"@ || provider == "pi_rpc"@
}

/// The flags that stand in where none are set: no tools, no skills, no templates,
/// no context files, no themes, no extensions, nothing kept, and no thinking.
pub open spec fn safe_flags() -> Seq<Seq<char>> {
    seq![
        "--no-tools"@,
        "--no-builtin-tools"@,
        "--no-skills"@,
        "--no-prompt-templates"@,
        "--no-context-files"@,
        "--no-themes"@,
        "--no-extensions"@,
        "--no-session"@,
        "--thinking"@,
        "off"@,
    ]
}

/// Safe default flag set used when `XIAOZHI_PI_RPC_FLAGS` is unset. Disables tool
/// calls, skills, prompt templates, context files, themes, and extension discovery,
/// keeps the run ephemeral, and turns off thinking so the model streams answers
/// only.
pub fn default_safe_flags() -> (r: Vec<String>)
    ensures
        texts(r@) == safe_flags(),
{
    let r = vec![
        "--no-tools".to_owned(),
        "--no-builtin-tools".to_owned(),
        "--no-skills".to_owned(),
        "--no-prompt-templates".to_owned(),
        "--no-context-files".to_owned(),
        "--no-themes".to_owned(),
        "--no-extensions".to_owned(),
        "--no-session".to_owned(),
        "--thinking".to_owned(),
        "off".to_owned(),
    ];
    proof {
        assert(texts(r@) =~= safe_flags());
    }
    r
}

/// The flags that the settings ask for.
pub open spec fn flags_setting(env: Env) -> Seq<Seq<char>> {
    match env.nonempty("XIAOZHI_PI_RPC_FLAGS"@) {
        Some(raw) => words(raw),
        None => safe_flags(),
    }
}

/// The arguments of a system prompt, which is left out where it is empty.
pub open spec fn prompt_args(prompt: Option<Seq<char>>) -> Seq<Seq<char>> {
    match prompt {
        Some(text) => if trimmed_end(text).len() == 0 {
            seq![]
        } else {
            seq!["--system-prompt"@, trimmed_end(text)]
        },
        None => seq![],
    }
}

/// The file that holds the system prompt.
pub fn system_prompt_file(env: &Env) -> (r: Option<String>)
    ensures
        opt_text(r) == env.nonempty("XIAOZHI_PI_RPC_SYSTEM_PROMPT_FILE"@),
{
    env.get_nonempty("XIAOZHI_PI_RPC_SYSTEM_PROMPT_FILE")
}

impl PiRpcLlmFactoryConfig {
    /// How the child is started, given the text of the system prompt file; `None`
    /// if another provider was asked for.
    pub fn from_env(env: &Env, prompt: Option<String>) -> (r: Option<Self>)
        ensures
            match r {
                Some(c) => {
                    &&& pi_rpc_wanted(*env)
                    &&& c.command@ == or_text(env.var("XIAOZHI_PI_RPC_COMMAND"@), "pi"@)
                    &&& texts(c.args@) == seq!["--mode"@, "rpc"@] + flags_setting(*env)
                        + prompt_args(opt_text(prompt))
                    &&& opt_text(c.cwd) == env.nonempty("XIAOZHI_PI_RPC_CWD"@)
                    &&& duration_nanos(c.stream_idle_timeout) == or_uint(
                        env.nonempty("XIAOZHI_PI_RPC_IDLE_TIMEOUT_MS"@),
                        u64::MAX as nat,
                        60_000,
                    ) * 1_000_000
                },
                None => !pi_rpc_wanted(*env),
            },
    {
        let provider = llm_provider(env);
        let provider = provider.as_str();
        if !same(provider, "pi") && !same(provider, "pi-rpc") && !same(provider, "pi_rpc") {
            return None;
        }
        let mut args: Vec<String> = vec!["--mode".to_owned(), "rpc".to_owned()];
        let mut flags = match env.get_nonempty("XIAOZHI_PI_RPC_FLAGS") {
            Some(raw) => split_whitespace(raw.as_str()),
            None => default_safe_flags(),
        };
        let ghost given = flags@;
        args.append(&mut flags);
        proof {
            assert(texts(args@) =~= seq!["--mode"@, "rpc"@] + texts(given));
        }
        let ghost before = texts(args@);
        match &prompt {
            Some(text) => {
                let trimmed = trim_end(text.as_str());
                if !trimmed.is_empty() {
                    args.push("--system-prompt".to_owned());
                    args.push(trimmed.to_owned());
                }
            },
            None => {},
        }
        proof {
            assert(texts(args@) =~= before + prompt_args(opt_text(prompt)));
        }
        let timeout_ms: u64 = uint_or(
            env.get_nonempty("XIAOZHI_PI_RPC_IDLE_TIMEOUT_MS"),
            u64::MAX,
            60_000,
        );
        Some(
            PiRpcLlmFactoryConfig {
                command: or(env.get("XIAOZHI_PI_RPC_COMMAND"), "pi"),
                args,
                cwd: env.get_nonempty("XIAOZHI_PI_RPC_CWD"),
                stream_idle_timeout: Duration::from_millis(timeout_ms),
            },
        )
    }
}

/// The variables that are handed on to the child, if they are set.
pub open spec fn passed_on(env: Env) -> Seq<(Seq<char>, Seq<char>)> {
    let first = match env.var("PI_NO_LOCAL_LLM"@) {
        Some(v) => seq![("PI_NO_LOCAL_LLM"@, v)],
        None => seq![],
    };
    let second = match env.var("PI_OFFLINE"@) {
        Some(v) => seq![("PI_OFFLINE"@, v)],
        None => seq![],
    };
    first + second
}

/// The variables that are handed on to the child.
pub fn child_env(env: &Env) -> (r: Vec<(String, String)>)
    ensures
        pairs(r@) == passed_on(*env),
{
    let mut r: Vec<(String, String)> = Vec::new();
    match env.get("PI_NO_LOCAL_LLM") {
        Some(v) => {
            r.push(pair("PI_NO_LOCAL_LLM", v.as_str()));
        },
        None => {},
    }
    match env.get("PI_OFFLINE") {
        Some(v) => {
            r.push(pair("PI_OFFLINE", v.as_str()));
        },
        None => {},
    }
    proof {
        assert(pairs(r@) =~= passed_on(*env));
    }
    r
}

/// Starts a child for each session.
pub struct PiRpcLlmFactory {
    pub config: Arc<PiRpcLlmFactoryConfig>,
}

impl PiRpcLlmFactory {
    pub fn new(config: PiRpcLlmFactoryConfig) -> (r: Self)
        ensures
            *r.config == config,
    {
        PiRpcLlmFactory { config: Arc::new(config) }
    }
}

// ---------------------------------------------------------------------------
// Requests
// ---------------------------------------------------------------------------

/// The numbers of requests, one after the other.
#[derive(Debug)]
pub struct RequestIds {
    pub next: u64,
}

impl RequestIds {
    /// The first number is 1.
    pub fn new() -> (r: Self)
        ensures
            r.next == 1,
    {
        RequestIds { next: 1 }
    }

    /// The next number. After the last comes 0.
    pub fn take(&mut self) -> (r: u64)
        ensures
            r == old(self).next,
            final(self).next == (if old(self).next == u64::MAX {
                0
            } else {
                old(self).next + 1
            }),
    {
        let id: u64 = self.next;
        self.next = if id == u64::MAX {
            0
        } else {
            id + 1
        };
        id
    }
}

/// What is written to the child.
#[derive(Debug)]
pub enum WriterCommand {
    Prompt { request_id: u64, message: String },
    Abort { request_id: u64 },
    /// The last line; the child's input is closed after it.
    Shutdown,
}

/// The line that is written to the child.
pub open spec fn command_text(command: WriterCommand) -> Seq<char> {
    match command {
        WriterCommand::Prompt { request_id, message } => json_text(
            prompt_tree(request_id, message@),
        ) + "\n"@,
        WriterCommand::Abort { request_id } => json_text(abort_tree(request_id)) + "\n"@,
        WriterCommand::Shutdown => "{\"type\":\"abort\"}\n"@,
    }
}

/// What asks for an answer.
pub open spec fn prompt_tree(request_id: u64, message: Seq<char>) -> JsonTree {
    empty_object().with("id"@, JsonTree::Str("req-"@ + decimal_text(request_id as nat))).with(
        "type"@,
        JsonTree::Str("prompt"@),
    ).with("message"@, JsonTree::Str(message))
}

/// What gives an answer up.
pub open spec fn abort_tree(request_id: u64) -> JsonTree {
    empty_object().with("id"@, JsonTree::Str("abort-"@ + decimal_text(request_id as nat))).with(
        "type"@,
        JsonTree::Str("abort"@),
    )
}

/// The line that is written to the child.
pub fn command_line(command: WriterCommand) -> (r: String)
    ensures
        r@ == command_text(command),
{
    let json = match &command {
        WriterCommand::Prompt { request_id, message } => Json::object().with(
            "id",
            Json::Str(concat("req-", decimal(*request_id).as_str())),
        ).with("type", Json::str("prompt")).with("message", Json::str(message.as_str())),
        WriterCommand::Abort { request_id } => Json::object().with(
            "id",
            Json::Str(concat("abort-", decimal(*request_id).as_str())),
        ).with("type", Json::str("abort")),
        WriterCommand::Shutdown => return "{\"type\":\"abort\"}\n".to_owned(),
    };
    concat(json.text().as_str(), "\n")
}

// ---------------------------------------------------------------------------
// Events
// ---------------------------------------------------------------------------

/// What the child tells.
#[derive(Clone, Debug)]
#[allow(inconsistent_fields)]
pub enum PiEvent {
    PromptStarted { request_id: String },
    TextDelta(String),
    PromptRejected { reason: String },
    PromptFailed { reason: String },
    AgentEnd { will_retry: bool },
    ChildExited(Option<i32>),
    Idle,
    Compaction { kind: String, reason: Option<String> },
    Retry { kind: String, attempt: Option<u64>, success: Option<bool> },
}

/// What an event says.
#[allow(inconsistent_fields)]
pub enum PiView {
    PromptStarted { request_id: Seq<char> },
    TextDelta(Seq<char>),
    PromptRejected { reason: Seq<char> },
    PromptFailed { reason: Seq<char> },
    AgentEnd { will_retry: bool },
    ChildExited(Option<i32>),
    Idle,
    Compaction { kind: Seq<char>, reason: Option<Seq<char>> },
    Retry { kind: Seq<char>, attempt: Option<int>, success: Option<bool> },
}

/// A number that may be missing.
pub open spec fn opt_int(n: Option<u64>) -> Option<int> {
    match n {
        Some(n) => Some(n as int),
        None => None,
    }
}

impl PiEvent {
    pub open spec fn view(self) -> PiView {
        match self {
            PiEvent::PromptStarted { request_id } => PiView::PromptStarted {
                request_id: request_id@,
            },
            PiEvent::TextDelta(t) => PiView::TextDelta(t@),
            PiEvent::PromptRejected { reason } => PiView::PromptRejected { reason: reason@ },
            PiEvent::PromptFailed { reason } => PiView::PromptFailed { reason: reason@ },
            PiEvent::AgentEnd { will_retry } => PiView::AgentEnd { will_retry },
            PiEvent::ChildExited(status) => PiView::ChildExited(status),
            PiEvent::Idle => PiView::Idle,
            PiEvent::Compaction { kind, reason } => PiView::Compaction {
                kind: kind@,
                reason: opt_text(reason),
            },
            PiEvent::Retry { kind, attempt, success } => PiView::Retry {
                kind: kind@,
                attempt: opt_int(attempt),
                success,
            },
        }
    }
}

/// What a response to a command says.
pub open spec fn response_event(value: JsonTree) -> Option<PiView> {
    match value.get_bool("success"@) {
        Some(true) => match value.get_str("id"@) {
            Some(id) => Some(PiView::PromptStarted { request_id: id }),
            None => None,
        },
        Some(false) => {
            let reason = or_text(value.get_str("error"@), "unknown"@);
            if value.get_str("command"@) == Some("prompt"@) {
                Some(PiView::PromptRejected { reason })
            } else {
                Some(PiView::PromptFailed { reason })
            }
        },
        None => None,
    }
}

/// What an update of a message says: only text is passed on, thinking is not.
pub open spec fn update_event(value: JsonTree) -> Option<PiView> {
    match value.get("assistantMessageEvent"@) {
        Some(event) => if event.get_str("type"@) == Some("text_delta"@) {
            match event.get_str("delta"@) {
                Some(delta) => Some(PiView::TextDelta(delta)),
                None => None,
            }
        } else {
            None
        },
        None => None,
    }
}

/// What a value of a certain type says.
pub open spec fn typed_event(kind: Seq<char>, value: JsonTree) -> Option<PiView> {
    if kind == "response"@ {
        response_event(value)
    } else if kind == "message_update"@ {
        update_event(value)
    } else if kind == "agent_end"@ {
        Some(PiView::AgentEnd { will_retry: value.get_bool("willRetry"@) == Some(true) })
    } else if kind == "auto_retry_start"@ {
        Some(
            PiView::Retry {
                kind: "start"@,
                attempt: value.get_int("attempt"@, 0, u64::MAX as int),
                success: None,
            },
        )
    } else if kind == "auto_retry_end"@ {
        Some(
            PiView::Retry {
                kind: "end"@,
                attempt: value.get_int("attempt"@, 0, u64::MAX as int),
                success: value.get_bool("success"@),
            },
        )
    } else if kind == "compaction_start"@ {
        Some(PiView::Compaction { kind: "start"@, reason: value.get_str("reason"@) })
    } else if kind == "compaction_end"@ {
        Some(PiView::Compaction { kind: "end"@, reason: value.get_str("reason"@) })
    } else {
        None
    }
}

/// What a value that the child writes says, if anything.
pub open spec fn value_event(value: JsonTree) -> Option<PiView> {
    match value.get_str("type"@) {
        Some(kind) => typed_event(kind, value),
        None => None,
    }
}

/// What a line of the child says, if anything.
pub open spec fn line_event(line: Seq<char>) -> Option<PiView> {
    if line.len() == 0 {
        None
    } else {
        match json_parsed(encode_utf8(line)) {
            Some(value) => value_event(value),
            None => None,
        }
    }
}

/// What an event that may be missing says.
pub open spec fn opt_view(e: Option<PiEvent>) -> Option<PiView> {
    match e {
        Some(e) => Some(e@),
        None => None,
    }
}

/// A string member, if there is one.
fn member_text(value: &Json, key: &str) -> (r: Option<String>)
    ensures
        opt_text(r) == value.tree().get_str(key@),
{
    match value.get_str(key) {
        Some(t) => Some(t.to_owned()),
        None => None,
    }
}

/// What a response to a command says.
fn response_of(value: &Json) -> (r: Option<PiEvent>)
    ensures
        opt_view(r) == response_event(value.tree()),
{
    match value.get_bool("success") {
        Some(true) => match member_text(value, "id") {
            Some(request_id) => Some(PiEvent::PromptStarted { request_id }),
            None => None,
        },
        Some(false) => {
            let reason = or(member_text(value, "error"), "unknown");
            let prompt = match value.get_str("command") {
                Some(command) => same(command, "prompt"),
                None => false,
            };
            if prompt {
                Some(PiEvent::PromptRejected { reason })
            } else {
                Some(PiEvent::PromptFailed { reason })
            }
        },
        None => None,
    }
}

/// What an update of a message says.
fn update_of(value: &Json) -> (r: Option<PiEvent>)
    ensures
        opt_view(r) == update_event(value.tree()),
{
    match value.get("assistantMessageEvent") {
        Some(event) => {
            let text = match event.get_str("type") {
                Some(kind) => same(kind, "text_delta"),
                None => false,
            };
            if text {
                match member_text(event, "delta") {
                    Some(delta) => Some(PiEvent::TextDelta(delta)),
                    None => None,
                }
            } else {
                None
            }
        },
        None => None,
    }
}

/// What a value that the child writes says, if anything. Values of other types say
/// nothing.
pub fn event_of(value: &Json) -> (r: Option<PiEvent>)
    ensures
        opt_view(r) == value_event(value.tree()),
{
    let kind = match value.get_str("type") {
        Some(kind) => kind,
        None => return None,
    };
    if same(kind, "response") {
        response_of(value)
    } else if same(kind, "message_update") {
        update_of(value)
    } else if same(kind, "agent_end") {
        let will_retry = match value.get_bool("willRetry") {
            Some(b) => b,
            None => false,
        };
        Some(PiEvent::AgentEnd { will_retry })
    } else if same(kind, "auto_retry_start") {
        Some(
            PiEvent::Retry {
                kind: "start".to_owned(),
                attempt: value.get_u64("attempt"),
                success: None,
            },
        )
    } else if same(kind, "auto_retry_end") {
        Some(
            PiEvent::Retry {
                kind: "end".to_owned(),
                attempt: value.get_u64("attempt"),
                success: value.get_bool("success"),
            },
        )
    } else if same(kind, "compaction_start") {
        Some(
            PiEvent::Compaction { kind: "start".to_owned(), reason: member_text(value, "reason") },
        )
    } else if same(kind, "compaction_end") {
        Some(
            PiEvent::Compaction { kind: "end".to_owned(), reason: member_text(value, "reason") },
        )
    } else {
        None
    }
}

/// What a line of the child says, if anything. Lines that are not JSON say nothing.
pub fn parse_line(line: &str) -> (r: Option<PiEvent>)
    ensures
        opt_view(r) == line_event(line@),
{
    if line.is_empty() {
        return None;
    }
    match Json::parse(line.as_bytes()) {
        Ok(value) => event_of(&value),
        Err(_) => None,
    }
}

/// What came of waiting for the child's next line.
#[derive(Debug)]
pub enum ReadOutcome {
    Line(String),
    /// The child closed its output.
    Ended,
    /// The line could not be read.
    Failed,
    /// Nothing came in time.
    TimedOut,
}

/// What the reader of the child's lines does: tell an event, if there is one, and
/// go on or stop.
pub open spec fn read_step(outcome: ReadOutcome) -> (Option<PiView>, bool) {
    match outcome {
        ReadOutcome::Line(line) => (line_event(line@), true),
        ReadOutcome::Ended => (Some(PiView::ChildExited(None)), false),
        ReadOutcome::Failed => (None, false),
        ReadOutcome::TimedOut => (Some(PiView::Idle), false),
    }
}

/// What the reader of the child's lines does next: the event to tell, and whether
/// it goes on.
pub fn on_read(outcome: ReadOutcome) -> (r: (Option<PiEvent>, bool))
    ensures
        (opt_view(r.0), r.1) == read_step(outcome),
{
    match outcome {
        ReadOutcome::Line(line) => (parse_line(line.as_str()), true),
        ReadOutcome::Ended => (Some(PiEvent::ChildExited(None)), false),
        ReadOutcome::Failed => (None, false),
        ReadOutcome::TimedOut => (Some(PiEvent::Idle), false),
    }
}

// ---------------------------------------------------------------------------
// An answer
// ---------------------------------------------------------------------------

/// What came of waiting for the next event of an answer.
#[derive(Debug)]
pub enum ChatInput {
    Event(PiEvent),
    /// Events were missed.
    Lagged,
    /// No events will come.
    Closed,
    /// Nothing came in time.
    TimedOut,
}

/// Why an answer failed.
#[derive(Debug)]
pub enum ChatFailure {
    Rejected(String),
    Failed(String),
    Idle,
    ChildExited(Option<i32>),
    Closed,
    TimedOut,
}

/// What an event does to an answer.
#[derive(Debug)]
pub enum ChatAction {
    /// Pass this text on.
    Forward(String),
    /// The answer failed.
    Fail(ChatFailure),
    /// The answer is complete.
    Done,
    /// Wait for the next event.
    Continue,
}

/// What a failure says.
pub enum FailureView {
    Rejected(Seq<char>),
    Failed(Seq<char>),
    Idle,
    ChildExited(Option<i32>),
    Closed,
    TimedOut,
}

/// What an action says.
pub enum ActionView {
    Forward(Seq<char>),
    Fail(FailureView),
    Done,
    Continue,
}

impl ChatFailure {
    pub open spec fn view(self) -> FailureView {
        match self {
            ChatFailure::Rejected(t) => FailureView::Rejected(t@),
            ChatFailure::Failed(t) => FailureView::Failed(t@),
            ChatFailure::Idle => FailureView::Idle,
            ChatFailure::ChildExited(s) => FailureView::ChildExited(s),
            ChatFailure::Closed => FailureView::Closed,
            ChatFailure::TimedOut => FailureView::TimedOut,
        }
    }
}

impl ChatAction {
    pub open spec fn view(self) -> ActionView {
        match self {
            ChatAction::Forward(t) => ActionView::Forward(t@),
            ChatAction::Fail(f) => ActionView::Fail(f@),
            ChatAction::Done => ActionView::Done,
            ChatAction::Continue => ActionView::Continue,
        }
    }
}

/// What an event does to an answer.
pub open spec fn chat_step(input: ChatInput) -> ActionView {
    match input {
        ChatInput::Event(e) => match e@ {
            PiView::TextDelta(t) => ActionView::Forward(t),
            PiView::PromptRejected { reason } => ActionView::Fail(FailureView::Rejected(reason)),
            PiView::PromptFailed { reason } => ActionView::Fail(FailureView::Failed(reason)),
            PiView::AgentEnd { .. } => ActionView::Done,
            PiView::Idle => ActionView::Fail(FailureView::Idle),
            PiView::ChildExited(s) => ActionView::Fail(FailureView::ChildExited(s)),
            _ => ActionView::Continue,
        },
        ChatInput::Lagged => ActionView::Continue,
        ChatInput::Closed => ActionView::Fail(FailureView::Closed),
        ChatInput::TimedOut => ActionView::Fail(FailureView::TimedOut),
    }
}

/// What an event does to an answer.
pub fn on_chat_input(input: ChatInput) -> (r: ChatAction)
    ensures
        r@ == chat_step(input),
{
    match input {
        ChatInput::Event(event) => match event {
            PiEvent::TextDelta(t) => ChatAction::Forward(t),
            PiEvent::PromptRejected { reason } => ChatAction::Fail(ChatFailure::Rejected(reason)),
            PiEvent::PromptFailed { reason } => ChatAction::Fail(ChatFailure::Failed(reason)),
            PiEvent::AgentEnd { .. } => ChatAction::Done,
            PiEvent::Idle => ChatAction::Fail(ChatFailure::Idle),
            PiEvent::ChildExited(s) => ChatAction::Fail(ChatFailure::ChildExited(s)),
            _ => ChatAction::Continue,
        },
        ChatInput::Lagged => ChatAction::Continue,
        ChatInput::Closed => ChatAction::Fail(ChatFailure::Closed),
        ChatInput::TimedOut => ChatAction::Fail(ChatFailure::TimedOut),
    }
}

// ---------------------------------------------------------------------------
// The child
// ---------------------------------------------------------------------------

/// What the keeper of the child is told.
#[derive(Debug)]
pub enum KeeperInput {
    Shutdown,
    Event(PiEvent),
    Lagged,
    Closed,
}

/// What the keeper of the child does.
#[derive(Debug, Clone, Copy, PartialEq, Eq, Structural)]
pub enum KeeperAction {
    /// Kill the child, wait for it, and stop.
    Kill,
    /// The child has exited; collect its status and stop.
    Reap,
    /// Go on.
    Continue,
}

/// What the keeper of the child does. A shutdown, a silent child and the end of
/// all events kill it.
pub fn on_keeper_input(input: &KeeperInput) -> (r: KeeperAction)
    ensures
        r == (match *input {
            KeeperInput::Shutdown => KeeperAction::Kill,
            KeeperInput::Event(e) => match e {
                PiEvent::ChildExited(_) => KeeperAction::Reap,
                PiEvent::Idle => KeeperAction::Kill,
                _ => KeeperAction::Continue,
            },
            KeeperInput::Lagged => KeeperAction::Continue,
            KeeperInput::Closed => KeeperAction::Kill,
        }),
{
    match input {
        KeeperInput::Shutdown => KeeperAction::Kill,
        KeeperInput::Event(event) => match event {
            PiEvent::ChildExited(_) => KeeperAction::Reap,
            PiEvent::Idle => KeeperAction::Kill,
            _ => KeeperAction::Continue,
        },
        KeeperInput::Lagged => KeeperAction::Continue,
        KeeperInput::Closed => KeeperAction::Kill,
    }
}

/// Thinking is never spoken: whatever a line says, a text comes of it only if it
/// is an update with a piece of text.
pub proof fn law_only_text_is_spoken(line: Seq<char>)
    ensures
        line_event(line) matches Some(PiView::TextDelta(t)) ==> {
            &&& json_parsed(encode_utf8(line)) is Some
            &&& json_parsed(encode_utf8(line))->0.get_str("type"@) == Some("message_update"@)
            &&& json_parsed(encode_utf8(line))->0.get("assistantMessageEvent"@) is Some
            &&& json_parsed(encode_utf8(line))->0.get("assistantMessageEvent"@)->0.get_str(
                "type"@,
            ) == Some("text_delta"@)
            &&& json_parsed(encode_utf8(line))->0.get("assistantMessageEvent"@)->0.get_str(
                "delta"@,
            ) == Some(t)
        },
{
}

/// The arguments of the child: without a setting it gets no tools, no skills, nothing of
/// the user's and no thinking; a system prompt is handed over without white space at its
/// end, unless it is white space throughout.
pub proof fn law_arguments(env: Env, prompt: Seq<char>, space: Seq<char>)
    requires
        forall|i: int| 0 <= i < space.len() ==> is_white_space(#[trigger] space[i]),
        prompt.len() == 0 || !is_white_space(prompt.last()),
    ensures
        env.nonempty("XIAOZHI_PI_RPC_FLAGS"@) is None ==> flags_setting(env) == seq![
            "--no-tools"@,
            "--no-builtin-tools"@,
            "--no-skills"@,
            "--no-prompt-templates"@,
            "--no-context-files"@,
            "--no-themes"@,
            "--no-extensions"@,
            "--no-session"@,
            "--thinking"@,
            "off"@,
        ],
        env.nonempty("XIAOZHI_PI_RPC_FLAGS"@) matches Some(raw) ==> flags_setting(env) == words(
            raw,
        ),
        prompt_args(None) == Seq::<Seq<char>>::empty(),
        prompt.len() == 0 ==> prompt_args(Some(space)) == Seq::<Seq<char>>::empty(),
        prompt.len() > 0 ==> prompt_args(Some(prompt + space)) == seq!["--system-prompt"@, prompt],
{
    let s = prompt + space;
    let n = prompt.len() as int;
    assert forall|i: int| n <= i < s.len() implies white()(#[trigger] s[i]) by {
        assert(s[i] == space[i - n]);
    }
    lemma_without_suffix_step(s, white(), n);
    assert(s.take(n) =~= prompt);
    if n == 0 {
        assert(s =~= space);
    }
}

/// Two variables are handed on to the child where they are set, and no others.
pub proof fn law_variables_are_handed_on(env: Env)
    ensures
        ({
            let r = passed_on(env);
            match (env.var("PI_NO_LOCAL_LLM"@), env.var("PI_OFFLINE"@)) {
                (Some(a), Some(b)) => r == seq![("PI_NO_LOCAL_LLM"@, a), ("PI_OFFLINE"@, b)],
                (Some(a), None) => r == seq![("PI_NO_LOCAL_LLM"@, a)],
                (None, Some(b)) => r == seq![("PI_OFFLINE"@, b)],
                (None, None) => r.len() == 0,
            }
        }),
{
    let r = passed_on(env);
    match (env.var("PI_NO_LOCAL_LLM"@), env.var("PI_OFFLINE"@)) {
        (Some(a), Some(b)) => {
            assert(r =~= seq![("PI_NO_LOCAL_LLM"@, a), ("PI_OFFLINE"@, b)]);
        },
        (Some(a), None) => {
            assert(r =~= seq![("PI_NO_LOCAL_LLM"@, a)]);
        },
        (None, Some(b)) => {
            assert(r =~= seq![("PI_OFFLINE"@, b)]);
        },
        (None, None) => {},
    }
}

/// Each command is one line of JSON. A prompt and an abort carry the number of the
/// request, in different ways; the last abort carries none.
pub proof fn law_commands_are_lines(request_id: u64, message: String)
    ensures
        command_text(WriterCommand::Prompt { request_id, message }) == json_text(
            JsonTree::Object(
                map![
                    "id"@ => JsonTree::Str("req-"@ + decimal_text(request_id as nat)),
                    "type"@ => JsonTree::Str("prompt"@),
                    "message"@ => JsonTree::Str(message@),
                ],
            ),
        ) + seq!['\n'],
        command_text(WriterCommand::Abort { request_id }) == json_text(
            JsonTree::Object(
                map![
                    "id"@ => JsonTree::Str("abort-"@ + decimal_text(request_id as nat)),
                    "type"@ => JsonTree::Str("abort"@),
                ],
            ),
        ) + seq!['\n'],
        command_text(WriterCommand::Shutdown) == "{\"type\":\"abort\"}\n"@,
{
    reveal_strlit("\n");
    assert("\n"@ =~= seq!['\n']);
    assert(prompt_tree(request_id, message@) == JsonTree::Object(
        map![
            "id"@ => JsonTree::Str("req-"@ + decimal_text(request_id as nat)),
            "type"@ => JsonTree::Str("prompt"@),
            "message"@ => JsonTree::Str(message@),
        ],
    ));
    assert(abort_tree(request_id) == JsonTree::Object(
        map![
            "id"@ => JsonTree::Str("abort-"@ + decimal_text(request_id as nat)),
            "type"@ => JsonTree::Str("abort"@),
        ],
    ));
}

/// A value that the child writes goes by its member `type`.
pub open spec fn is_kind(m: Map<Seq<char>, JsonTree>, kind: Seq<char>) -> bool {
    m.contains_key("type"@) && m["type"@] == JsonTree::Str(kind)
}

/// The types of the values are told apart by their names.
proof fn lemma_kinds()
    ensures
        "response"@.len() == 8,
        "message_update"@.len() == 14,
        "agent_end"@.len() == 9,
        "auto_retry_start"@.len() == 16,
        "auto_retry_end"@.len() == 14,
        "compaction_start"@.len() == 16,
        "compaction_end"@.len() == 14,
        "message_update"@[0] == 'm',
        "auto_retry_end"@[0] == 'a',
        "compaction_end"@[0] == 'c',
        "auto_retry_start"@[0] == 'a',
        "compaction_start"@[0] == 'c',
{
    reveal_strlit("response");
    reveal_strlit("message_update");
    reveal_strlit("agent_end");
    reveal_strlit("auto_retry_start");
    reveal_strlit("auto_retry_end");
    reveal_strlit("compaction_start");
    reveal_strlit("compaction_end");
}

/// A response tells that the request with its id was taken on, or why it was not: a
/// prompt is rejected, any other command has failed.
#[verifier::spinoff_prover]
pub proof fn law_responses(m: Map<Seq<char>, JsonTree>, id: Seq<char>, reason: Seq<char>)
    requires
        is_kind(m, "response"@),
        m.contains_key("success"@),
    ensures
        ({
            let r = value_event(JsonTree::Object(m));
            let prompt = m.contains_key("command"@) && m["command"@] == JsonTree::Str("prompt"@);
            let has_error = m.contains_key("error"@) && m["error"@] is Str;
            &&& m["success"@] == JsonTree::Bool(true) && m.contains_key("id"@) && m["id"@]
                == JsonTree::Str(id) ==> r == Some(PiView::PromptStarted { request_id: id })
            &&& m["success"@] == JsonTree::Bool(true) && (!m.contains_key("id"@) || !(m["id"@]
                is Str)) ==> r is None
            &&& m["success"@] == JsonTree::Bool(false) && (if has_error {
                m["error"@] == JsonTree::Str(reason)
            } else {
                reason == "unknown"@
            }) ==> r == Some(
                if prompt {
                    PiView::PromptRejected { reason }
                } else {
                    PiView::PromptFailed { reason }
                },
            )
            &&& !(m["success"@] is Bool) ==> r is None
        }),
{
    lemma_kinds();
}

/// An update with a piece of text tells that text; every other update tells nothing.
#[verifier::spinoff_prover]
pub proof fn law_updates(
    m: Map<Seq<char>, JsonTree>,
    event: Map<Seq<char>, JsonTree>,
    text: Seq<char>,
)
    requires
        is_kind(m, "message_update"@),
    ensures
        ({
            let r = value_event(JsonTree::Object(m));
            let has_event = m.contains_key("assistantMessageEvent"@)
                && m["assistantMessageEvent"@] == JsonTree::Object(event);
            &&& has_event && is_kind(event, "text_delta"@) && event.contains_key("delta"@)
                && event["delta"@] == JsonTree::Str(text) ==> r == Some(PiView::TextDelta(text))
            &&& has_event && (!is_kind(event, "text_delta"@) || !event.contains_key("delta"@)
                || !(event["delta"@] is Str)) ==> r is None
            &&& !m.contains_key("assistantMessageEvent"@) || !(m["assistantMessageEvent"@]
                is Object) ==> r is None
        }),
{
    lemma_kinds();
}

/// What the other values tell: the end of an answer, retries and compactions. A value of
/// any other type, or of none, tells nothing.
#[verifier::spinoff_prover]
pub proof fn law_other_values(m: Map<Seq<char>, JsonTree>, kind: Seq<char>, value: JsonTree)
    requires
        is_kind(m, kind),
    ensures
        ({
            let r = value_event(JsonTree::Object(m));
            let retry = m.contains_key("willRetry"@) && m["willRetry"@] == JsonTree::Bool(true);
            let attempt = if m.contains_key("attempt"@) {
                match m["attempt"@] {
                    JsonTree::Int(i) => if 0 <= i <= 0xffff_ffff_ffff_ffff {
                        Some(i)
                    } else {
                        None
                    },
                    _ => None,
                }
            } else {
                None
            };
            let reason = if m.contains_key("reason"@) {
                match m["reason"@] {
                    JsonTree::Str(t) => Some(t),
                    _ => None,
                }
            } else {
                None
            };
            let success = if m.contains_key("success"@) {
                match m["success"@] {
                    JsonTree::Bool(b) => Some(b),
                    _ => None,
                }
            } else {
                None
            };
            &&& kind == "agent_end"@ ==> r == Some(PiView::AgentEnd { will_retry: retry })
            &&& kind == "auto_retry_start"@ ==> r == Some(
                PiView::Retry { kind: "start"@, attempt, success: None },
            )
            &&& kind == "auto_retry_end"@ ==> r == Some(
                PiView::Retry { kind: "end"@, attempt, success },
            )
            &&& kind == "compaction_start"@ ==> r == Some(
                PiView::Compaction { kind: "start"@, reason },
            )
            &&& kind == "compaction_end"@ ==> r == Some(PiView::Compaction { kind: "end"@, reason })
            &&& kind != "response"@ && kind != "message_update"@ && kind != "agent_end"@ && kind
                != "auto_retry_start"@ && kind != "auto_retry_end"@ && kind != "compaction_start"@
                && kind != "compaction_end"@ ==> r is None
        }),
        !(value is Object) ==> value_event(value) is None,
{
    lemma_kinds();
}

/// A line tells what the JSON in it tells, and a line without JSON tells nothing. The
/// reader goes on after every line and stops at anything else.
pub proof fn law_lines_are_read(line: String, value: JsonTree)
    ensures
        line@.len() > 0 && json_parsed(encode_utf8(line@)) == Some(value) ==> read_step(
            ReadOutcome::Line(line),
        ) == (value_event(value), true),
        line@.len() == 0 || json_parsed(encode_utf8(line@)) is None ==> read_step(
            ReadOutcome::Line(line),
        ) == (None::<PiView>, true),
        read_step(ReadOutcome::Ended) == (Some(PiView::ChildExited(None)), false),
        read_step(ReadOutcome::Failed) == (None::<PiView>, false),
        read_step(ReadOutcome::TimedOut) == (Some(PiView::Idle), false),
{
}

/// What an event does to an answer: text is passed on, the end of the agent completes it,
/// a rejected or failed prompt, a silent child and one that exited fail it, and so do the
/// end of the events and a wait that was too long. Nothing else changes it.
pub proof fn law_answers(text: String, retry: bool, status: Option<i32>, e: PiEvent)
    ensures
        chat_step(ChatInput::Event(PiEvent::TextDelta(text))) == ActionView::Forward(text@),
        chat_step(ChatInput::Event(PiEvent::AgentEnd { will_retry: retry })) == ActionView::Done,
        chat_step(ChatInput::Event(PiEvent::PromptRejected { reason: text })) == ActionView::Fail(
            FailureView::Rejected(text@),
        ),
        chat_step(ChatInput::Event(PiEvent::PromptFailed { reason: text })) == ActionView::Fail(
            FailureView::Failed(text@),
        ),
        chat_step(ChatInput::Event(PiEvent::Idle)) == ActionView::Fail(FailureView::Idle),
        chat_step(ChatInput::Event(PiEvent::ChildExited(status))) == ActionView::Fail(
            FailureView::ChildExited(status),
        ),
        e is PromptStarted || e is Compaction || e is Retry ==> chat_step(ChatInput::Event(e))
            == ActionView::Continue,
        chat_step(ChatInput::Lagged) == ActionView::Continue,
        chat_step(ChatInput::Closed) == ActionView::Fail(FailureView::Closed),
        chat_step(ChatInput::TimedOut) == ActionView::Fail(FailureView::TimedOut),
{
}

/// The child was asked for by one of three names.
pub proof fn law_provider_names(env: Env)
    ensures
        pi_rpc_wanted(env) == (llm_provider_text(env) == "pi"@ || llm_provider_text(env)
            == "pi-rpc"@ || llm_provider_text(env) == "pi_rpc"@),
{
}

} // verus!
