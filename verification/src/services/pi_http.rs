//! The pi server's streaming interface over HTTP.
use crate::buf::copy_range;
use crate::env::{llm_provider, llm_provider_text, or, or_text, or_uint, uint_or, ConfigError, Env};
use crate::json::{empty_object, json_parsed, Json, JsonTree};
use crate::text::{
    concat, is_blank, is_char, join, joined, law_joining, opt_text, parsed_uint, same, texts,
    trim_end_char, trimmed, utf8_string, without_suffix,
};
use crate::time::duration_nanos;
use std::time::Duration;
use vstd::prelude::*;
use vstd::utf8::{decode_utf8, encode_utf8, valid_utf8};

verus! {

/// How to reach the server.
#[derive(Debug)]
pub struct PiHttpLlmConfig {
    pub base_url: String,
    pub agent_id: String,
    pub stream_idle_timeout: Duration,
}

/// The pi server was asked for.
pub open spec fn pi_http_wanted(env: Env) -> bool {
    let provider = llm_provider_text(env);
    provider == "pi"@ || provider == "pi-http"@ || provider == "pi_http"@ || provider
        == "pi-server"@ || provider == "pi_server"@
}

/// The agent that answers.
pub open spec fn agent_setting(env: Env) -> Seq<char> {
    or_text(env.either("XIAOZHI_PI_AGENT_ID"@, "PI_SERVER_AGENT_ID"@), "zhuzhu"@)
}

/// What the settings come to.
pub open spec fn pi_http_configured(env: Env, r: Result<Option<PiHttpLlmConfig>, ConfigError>) -> bool {
    match r {
        Ok(None) => !pi_http_wanted(env),
        Ok(Some(c)) => {
            &&& pi_http_wanted(env)
            &&& c.base_url@ == or_text(
                env.either("XIAOZHI_PI_HTTP_BASE_URL"@, "PI_SERVER_BASE_URL"@),
                "http://127.0.0.1:8081"@,
            )
            &&& c.agent_id@ == agent_setting(env)
            &&& trimmed(c.agent_id@).len() > 0
            &&& duration_nanos(c.stream_idle_timeout) == or_uint(
                env.either("XIAOZHI_PI_HTTP_IDLE_TIMEOUT_MS"@, "PI_SERVER_IDLE_TIMEOUT_MS"@),
                u64::MAX as nat,
                300_000,
            ) * 1_000_000
        },
        Err(e) => pi_http_wanted(env) && trimmed(agent_setting(env)).len() == 0
            && e.message@ == "pi-server agent id must not be empty"@,
    }
}

impl PiHttpLlmConfig {
    /// The settings of the server; `None` if another provider was asked for.
    pub fn from_env(env: &Env) -> (r: Result<Option<Self>, ConfigError>)
        ensures
            pi_http_configured(*env, r),
    {
        let provider = llm_provider(env);
        let provider = provider.as_str();
        if !same(provider, "pi") && !same(provider, "pi-http") && !same(provider, "pi_http")
            && !same(provider, "pi-server") && !same(provider, "pi_server") {
            return Ok(None);
        }
        let agent_id = or(env.get_either("XIAOZHI_PI_AGENT_ID", "PI_SERVER_AGENT_ID"), "zhuzhu");
        if is_blank(agent_id.as_str()) {
            return Err(
                ConfigError { message: "pi-server agent id must not be empty".to_owned() },
            );
        }
        let timeout_ms: u64 = uint_or(
            env.get_either("XIAOZHI_PI_HTTP_IDLE_TIMEOUT_MS", "PI_SERVER_IDLE_TIMEOUT_MS"),
            u64::MAX,
            300_000,
        );
        Ok(
            Some(
                PiHttpLlmConfig {
                    base_url: or(
                        env.get_either("XIAOZHI_PI_HTTP_BASE_URL", "PI_SERVER_BASE_URL"),
                        "http://127.0.0.1:8081",
                    ),
                    agent_id,
                    stream_idle_timeout: Duration::from_millis(timeout_ms),
                },
            ),
        )
    }

    /// Where chats are asked for.
    pub fn chat_url(&self) -> (r: String)
        ensures
            r@ == without_suffix(self.base_url@, is_char('/')) + "/chat"@,
    {
        concat(trim_end_char(self.base_url.as_str(), '/'), "/chat")
    }
}

/// The request for a chat.
pub fn chat_body(prompt: &str) -> (r: Json)
    ensures
        r.tree() == empty_object().with("prompt"@, JsonTree::Str(prompt@)),
{
    Json::object().with("prompt", Json::str(prompt))
}

// ---------------------------------------------------------------------------
// Events
// ---------------------------------------------------------------------------

/// What the server tells.
#[derive(Debug, PartialEq, Eq)]
pub enum PiServerEvent {
    TextDelta(String),
    AgentEnd,
    Error(String),
    Ignored,
}

/// What an event says.
pub enum PiServerView {
    TextDelta(Seq<char>),
    AgentEnd,
    Error(Seq<char>),
    Ignored,
}

/// Why an answer failed.
#[derive(Debug, PartialEq, Eq)]
pub enum PiHttpError {
    /// A text is not UTF-8.
    NotUtf8,
    /// A piece of the answer is not JSON.
    NotJson,
    /// The server reports an error.
    Server(String),
    /// The stream ended before the answer did.
    EndedEarly,
}

/// What a failure says.
pub enum PiHttpErrorView {
    NotUtf8,
    NotJson,
    Server(Seq<char>),
    EndedEarly,
}

impl PiServerEvent {
    pub open spec fn view(self) -> PiServerView {
        match self {
            PiServerEvent::TextDelta(t) => PiServerView::TextDelta(t@),
            PiServerEvent::AgentEnd => PiServerView::AgentEnd,
            PiServerEvent::Error(t) => PiServerView::Error(t@),
            PiServerEvent::Ignored => PiServerView::Ignored,
        }
    }
}

impl PiHttpError {
    pub open spec fn view(self) -> PiHttpErrorView {
        match self {
            PiHttpError::NotUtf8 => PiHttpErrorView::NotUtf8,
            PiHttpError::NotJson => PiHttpErrorView::NotJson,
            PiHttpError::Server(t) => PiHttpErrorView::Server(t@),
            PiHttpError::EndedEarly => PiHttpErrorView::EndedEarly,
        }
    }
}

/// The reason that an error gives: its member `message`, or `error` if there is no
/// such member, if that is a string.
pub open spec fn reason_in(value: JsonTree) -> Option<Seq<char>> {
    match value.get("message"@) {
        Some(m) => m.as_str(),
        None => value.get_str("error"@),
    }
}

/// The reason that an error gives, or else its data.
pub open spec fn error_reason(data: Seq<char>) -> Seq<char> {
    match json_parsed(encode_utf8(data)) {
        Some(value) => or_text(reason_in(value), data),
        None => data,
    }
}

/// The text that a piece of the answer brings: its member `delta`, if that is a
/// string.
pub open spec fn delta_in(value: JsonTree) -> Seq<char> {
    or_text(value.get_str("delta"@), seq![])
}

/// What an event with a name and data says.
pub open spec fn event_parsed(name: Seq<char>, data: Seq<char>) -> Result<
    PiServerView,
    PiHttpErrorView,
> {
    if name == "text_delta"@ {
        match json_parsed(encode_utf8(data)) {
            Some(value) => Ok(PiServerView::TextDelta(delta_in(value))),
            None => Err(PiHttpErrorView::NotJson),
        }
    } else if name == "agent_end"@ {
        Ok(PiServerView::AgentEnd)
    } else if name == "error"@ {
        Ok(PiServerView::Error(error_reason(data)))
    } else {
        Ok(PiServerView::Ignored)
    }
}

/// The text that a piece of the answer brings.
pub fn delta_text(value: &Json) -> (r: String)
    ensures
        r@ == delta_in(value.tree()),
{
    match value.get_str("delta") {
        Some(t) => t.to_owned(),
        None => {
            let empty = String::new();
            proof {
                assert(empty@ =~= seq![]);
            }
            empty
        },
    }
}

/// The reason that an error gives, if it gives one.
pub fn reason_text(value: &Json) -> (r: Option<String>)
    ensures
        opt_text(r) == reason_in(value.tree()),
{
    let text = match value.get("message") {
        Some(m) => m.as_str(),
        None => value.get_str("error"),
    };
    match text {
        Some(t) => Some(t.to_owned()),
        None => None,
    }
}

/// Reads an event.
pub fn parse_pi_server_event(event_name: &str, data: &str) -> (r: Result<
    PiServerEvent,
    PiHttpError,
>)
    ensures
        match r {
            Ok(e) => event_parsed(event_name@, data@) == Ok::<PiServerView, PiHttpErrorView>(e@),
            Err(e) => event_parsed(event_name@, data@) == Err::<PiServerView, PiHttpErrorView>(
                e@,
            ),
        },
{
    if same(event_name, "text_delta") {
        match Json::parse(data.as_bytes()) {
            Ok(value) => Ok(PiServerEvent::TextDelta(delta_text(&value))),
            Err(_) => Err(PiHttpError::NotJson),
        }
    } else if same(event_name, "agent_end") {
        Ok(PiServerEvent::AgentEnd)
    } else if same(event_name, "error") {
        let reason = match Json::parse(data.as_bytes()) {
            Ok(value) => or(reason_text(&value), data),
            Err(_) => data.to_owned(),
        };
        Ok(PiServerEvent::Error(reason))
    } else {
        Ok(PiServerEvent::Ignored)
    }
}

// ---------------------------------------------------------------------------
// Server-sent events
// ---------------------------------------------------------------------------

/// Gathers lines into events.
#[derive(Debug)]
pub struct SseParser {
    pub event_name: Option<String>,
    pub data_lines: Vec<String>,
}

/// What a parser has gathered.
pub struct Sse {
    pub event_name: Option<Seq<char>>,
    pub data_lines: Seq<Seq<char>>,
}

/// Nothing is gathered.
pub open spec fn no_event() -> Sse {
    Sse { event_name: None, data_lines: seq![] }
}

/// The index of the first colon from `i` on.
pub open spec fn colon_at(line: Seq<u8>, i: int) -> Option<int>
    decreases line.len() - i,
{
    if i < 0 || i >= line.len() {
        None
    } else if line[i] == 0x3a {
        Some(i)
    } else {
        colon_at(line, i + 1)
    }
}

/// What stands before the first colon.
pub open spec fn field_of(line: Seq<u8>) -> Seq<u8> {
    match colon_at(line, 0) {
        Some(p) => line.take(p),
        None => line,
    }
}

/// Without a blank at the start.
pub open spec fn without_blank(s: Seq<u8>) -> Seq<u8> {
    if s.len() > 0 && s[0] == 0x20 {
        s.skip(1)
    } else {
        s
    }
}

/// What stands after the first colon and a blank.
pub open spec fn value_of(line: Seq<u8>) -> Seq<u8> {
    match colon_at(line, 0) {
        Some(p) => without_blank(line.skip(p + 1)),
        None => seq![],
    }
}

/// The bytes `event`.
pub open spec fn event_field() -> Seq<u8> {
    seq![0x65u8, 0x76u8, 0x65u8, 0x6eu8, 0x74u8]
}

/// The bytes `data`.
pub open spec fn data_field() -> Seq<u8> {
    seq![0x64u8, 0x61u8, 0x74u8, 0x61u8]
}

/// The event that was gathered, if anything was.
pub open spec fn dispatched(s: Sse) -> Result<Option<PiServerView>, PiHttpErrorView> {
    if s.event_name is None && s.data_lines.len() == 0 {
        Ok(None)
    } else {
        match event_parsed(
            or_text(s.event_name, "message"@),
            joined(s.data_lines, "\n"@),
        ) {
            Ok(e) => Ok(Some(e)),
            Err(e) => Err(e),
        }
    }
}

/// What a line does: the parser after it, and the event that it completes. An empty
/// line completes an event, a line that starts with a colon is a comment.
pub open spec fn line_pushed(s: Sse, line: Seq<u8>) -> (
    Sse,
    Result<Option<PiServerView>, PiHttpErrorView>,
) {
    if line.len() == 0 {
        (no_event(), dispatched(s))
    } else if line[0] == 0x3a {
        (s, Ok(None))
    } else if field_of(line) == event_field() {
        if valid_utf8(value_of(line)) {
            (Sse { event_name: Some(decode_utf8(value_of(line))), ..s }, Ok(None))
        } else {
            (s, Err(PiHttpErrorView::NotUtf8))
        }
    } else if field_of(line) == data_field() {
        if valid_utf8(value_of(line)) {
            (
                Sse { data_lines: s.data_lines.push(decode_utf8(value_of(line))), ..s },
                Ok(None),
            )
        } else {
            (s, Err(PiHttpErrorView::NotUtf8))
        }
    } else {
        (s, Ok(None))
    }
}

/// The index of the first colon.
fn find_colon(line: &[u8]) -> (r: Option<usize>)
    ensures
        match r {
            Some(p) => colon_at(line@, 0) == Some(p as int) && p < line@.len(),
            None => colon_at(line@, 0) is None,
        },
{
    let mut i: usize = 0;
    while i < line.len()
        invariant
            i <= line@.len(),
            colon_at(line@, 0) == colon_at(line@, i as int),
        decreases line@.len() - i,
    {
        if line[i] == 0x3a {
            return Some(i);
        }
        i = i + 1;
    }
    None
}

/// Drops one blank from the start.
fn trim_single_space(bytes: &[u8]) -> (r: Vec<u8>)
    ensures
        r@ == without_blank(bytes@),
{
    let from: usize = if bytes.len() > 0 && bytes[0] == 0x20 {
        1
    } else {
        0
    };
    let r = copy_range(bytes, from, bytes.len());
    proof {
        assert(r@ =~= without_blank(bytes@));
    }
    r
}

/// Whether some bytes are `name`.
fn is_field(field: &[u8], name: &[u8]) -> (r: bool)
    ensures
        r == (field@ == name@),
{
    if field.len() != name.len() {
        return false;
    }
    for i in 0..field.len()
        invariant
            field@.len() == name@.len(),
            forall|j: int| 0 <= j < i ==> field@[j] == name@[j],
    {
        if field[i] != name[i] {
            return false;
        }
    }
    proof {
        assert(field@ =~= name@);
    }
    true
}

impl Default for SseParser {
    fn default() -> (r: Self)
        ensures
            r@ == no_event(),
    {
        let r = SseParser { event_name: None, data_lines: Vec::new() };
        proof {
            assert(r@.data_lines =~= seq![]);
        }
        r
    }
}

impl SseParser {
    pub open spec fn view(self) -> Sse {
        Sse { event_name: opt_text(self.event_name), data_lines: texts(self.data_lines@) }
    }

    /// Takes in a line, and gives the event that it completes.
    pub fn push_line(&mut self, line: &[u8]) -> (r: Result<Option<PiServerEvent>, PiHttpError>)
        ensures
            final(self)@ == line_pushed(old(self)@, line@).0,
            match r {
                Ok(Some(e)) => line_pushed(old(self)@, line@).1 == Ok::<
                    Option<PiServerView>,
                    PiHttpErrorView,
                >(Some(e@)),
                Ok(None) => line_pushed(old(self)@, line@).1 == Ok::<
                    Option<PiServerView>,
                    PiHttpErrorView,
                >(None),
                Err(e) => line_pushed(old(self)@, line@).1 == Err::<
                    Option<PiServerView>,
                    PiHttpErrorView,
                >(e@),
            },
    {
        if line.len() == 0 {
            return self.dispatch();
        }
        if line[0] == 0x3a {
            return Ok(None);
        }
        let event_name: [u8; 5] = [0x65, 0x76, 0x65, 0x6e, 0x74];
        let data_name: [u8; 4] = [0x64, 0x61, 0x74, 0x61];
        proof {
            assert(event_name@ =~= event_field());
            assert(data_name@ =~= data_field());
        }
        let (field, value) = match find_colon(line) {
            Some(p) => {
                let field = copy_range(line, 0, p);
                let rest = copy_range(line, p + 1, line.len());
                let value = trim_single_space(rest.as_slice());
                proof {
                    assert(field@ =~= line@.take(p as int));
                    assert(rest@ =~= line@.skip(p + 1));
                }
                (field, value)
            },
            None => {
                let empty: Vec<u8> = Vec::new();
                proof {
                    assert(empty@ =~= seq![]);
                }
                (copy_range(line, 0, line.len()), empty)
            },
        };
        proof {
            assert(field@ =~= field_of(line@));
            assert(value@ =~= value_of(line@));
        }
        if is_field(field.as_slice(), event_name.as_slice()) {
            match utf8_string(value) {
                Some(text) => {
                    self.event_name = Some(text);
                    Ok(None)
                },
                None => Err(PiHttpError::NotUtf8),
            }
        } else if is_field(field.as_slice(), data_name.as_slice()) {
            match utf8_string(value) {
                Some(text) => {
                    self.data_lines.push(text);
                    proof {
                        assert(texts(self.data_lines@) =~= texts(old(self).data_lines@).push(
                            text@,
                        ));
                    }
                    Ok(None)
                },
                None => Err(PiHttpError::NotUtf8),
            }
        } else {
            Ok(None)
        }
    }

    /// Ends the lines, and gives the event that they leave.
    pub fn finish(&mut self) -> (r: Result<Option<PiServerEvent>, PiHttpError>)
        ensures
            final(self)@ == no_event(),
            match r {
                Ok(Some(e)) => dispatched(old(self)@) == Ok::<
                    Option<PiServerView>,
                    PiHttpErrorView,
                >(Some(e@)),
                Ok(None) => dispatched(old(self)@) == Ok::<Option<PiServerView>, PiHttpErrorView>(
                    None,
                ),
                Err(e) => dispatched(old(self)@) == Err::<Option<PiServerView>, PiHttpErrorView>(
                    e@,
                ),
            },
    {
        self.dispatch()
    }

    /// Gives the event that was gathered, and gathers anew.
    fn dispatch(&mut self) -> (r: Result<Option<PiServerEvent>, PiHttpError>)
        ensures
            final(self)@ == no_event(),
            match r {
                Ok(Some(e)) => dispatched(old(self)@) == Ok::<
                    Option<PiServerView>,
                    PiHttpErrorView,
                >(Some(e@)),
                Ok(None) => dispatched(old(self)@) == Ok::<Option<PiServerView>, PiHttpErrorView>(
                    None,
                ),
                Err(e) => dispatched(old(self)@) == Err::<Option<PiServerView>, PiHttpErrorView>(
                    e@,
                ),
            },
    {
        proof {
            assert(texts(self.data_lines@).len() == self.data_lines@.len());
            if self.data_lines@.len() == 0 {
                assert(texts(self.data_lines@) =~= seq![]);
            }
        }
        if self.event_name.is_none() && self.data_lines.len() == 0 {
            return Ok(None);
        }
        let mut gathered = SseParser::default();
        std::mem::swap(&mut gathered, self);
        let name = or(gathered.event_name, "message");
        let data = join(&gathered.data_lines, "\n");
        match parse_pi_server_event(name.as_str(), data.as_str()) {
            Ok(e) => Ok(Some(e)),
            Err(e) => Err(e),
        }
    }
}

// ---------------------------------------------------------------------------
// Lines
// ---------------------------------------------------------------------------

/// A byte that ends a line.
pub open spec fn ends_line(b: u8) -> bool {
    b == 0x0a || b == 0x0d
}

/// The index of the first byte from `i` on that ends a line.
pub open spec fn line_break(b: Seq<u8>, i: int) -> Option<int>
    decreases b.len() - i,
{
    if i < 0 || i >= b.len() {
        None
    } else if ends_line(b[i]) {
        Some(i)
    } else {
        line_break(b, i + 1)
    }
}

/// Where the next line starts, after a line that ends at `p`: a carriage return
/// and a line feed end a line together.
pub open spec fn after_break(b: Seq<u8>, p: int) -> int {
    if b[p] == 0x0d && p + 1 < b.len() && b[p + 1] == 0x0a {
        p + 2
    } else {
        p + 1
    }
}

/// What is known of the end of the first line.
pub proof fn lemma_line_break(b: Seq<u8>, i: int)
    requires
        0 <= i,
    ensures
        match line_break(b, i) {
            Some(p) => i <= p < b.len() && ends_line(b[p]) && forall|j: int|
                i <= j < p ==> !ends_line(#[trigger] b[j]),
            None => forall|j: int| i <= j < b.len() ==> !ends_line(#[trigger] b[j]),
        },
    decreases b.len() - i,
{
    if i < b.len() && !ends_line(b[i]) {
        lemma_line_break(b, i + 1);
    }
}

proof fn lemma_line_break_unique(b: Seq<u8>, i: int, p: int)
    requires
        0 <= i <= p < b.len(),
        ends_line(b[p]),
        forall|j: int| i <= j < p ==> !ends_line(#[trigger] b[j]),
    ensures
        line_break(b, i) == Some(p),
    decreases p - i,
{
    if i < p {
        assert(!ends_line(b[i]));
        lemma_line_break_unique(b, i + 1, p);
    }
}

/// A whole line stays the same when more arrives.
pub proof fn lemma_first_line_stays(b: Seq<u8>, more: Seq<u8>)
    requires
        line_break(b, 0) is Some,
    ensures
        line_break(b + more, 0) == line_break(b, 0),
        (b + more).take(line_break(b, 0)->0) == b.take(line_break(b, 0)->0),
        (b + more)[line_break(b, 0)->0] == b[line_break(b, 0)->0],
{
    lemma_line_break(b, 0);
    let p = line_break(b, 0)->0;
    let all = b + more;
    assert forall|j: int| 0 <= j < p implies !ends_line(#[trigger] all[j]) by {
        assert(!ends_line(b[j]));
    }
    lemma_line_break_unique(all, 0, p);
    assert(all.take(p) =~= b.take(p));
}

/// Takes the first whole line off a buffer.
pub fn take_line(buffer: &mut Vec<u8>) -> (r: Option<Vec<u8>>)
    ensures
        match r {
            Some(line) => {
                &&& line_break(old(buffer)@, 0) is Some
                &&& line@ == old(buffer)@.take(line_break(old(buffer)@, 0)->0)
                &&& final(buffer)@ == old(buffer)@.skip(
                    after_break(old(buffer)@, line_break(old(buffer)@, 0)->0),
                )
                &&& final(buffer)@.len() < old(buffer)@.len()
            },
            None => line_break(old(buffer)@, 0) is None && final(buffer)@ == old(buffer)@,
        },
{
    let n: usize = buffer.len();
    let mut i: usize = 0;
    while i < n && buffer[i] != 0x0a && buffer[i] != 0x0d
        invariant
            buffer@ == old(buffer)@,
            n == buffer@.len(),
            i <= n,
            line_break(buffer@, 0) == line_break(buffer@, i as int),
        decreases n - i,
    {
        i = i + 1;
    }
    if i == n {
        return None;
    }
    let next: usize = if buffer[i] == 0x0d && i + 1 < n && buffer[i + 1] == 0x0a {
        i + 2
    } else {
        i + 1
    };
    let line = copy_range(buffer.as_slice(), 0, i);
    *buffer = copy_range(buffer.as_slice(), next, n);
    proof {
        assert(line@ =~= old(buffer)@.take(i as int));
        assert(buffer@ =~= old(buffer)@.skip(next as int));
    }
    Some(line)
}

// ---------------------------------------------------------------------------
// An answer
// ---------------------------------------------------------------------------

/// How far an answer has come.
#[derive(Debug, Clone, Copy, PartialEq, Eq, Structural)]
pub enum ChatPhase {
    /// Pieces arrive.
    Streaming,
    /// What is left of the buffer has to be read as a line.
    LastLine,
    /// What the parser has gathered has to be read.
    LastEvent,
    /// All was read.
    Over,
}

/// An answer that arrives in pieces.
#[derive(Debug)]
pub struct PiChat {
    pub buffer: Vec<u8>,
    pub parser: SseParser,
    pub saw_agent_end: bool,
    pub phase: ChatPhase,
}

/// Where an answer stands.
pub struct Chat {
    pub buffer: Seq<u8>,
    pub parser: Sse,
    pub saw_agent_end: bool,
    pub phase: ChatPhase,
}

/// What comes next of an answer.
#[derive(Debug)]
pub enum ChatStep {
    /// A text to pass on.
    Delta(String),
    /// Another piece has to arrive first.
    NeedMore,
    /// The answer is complete.
    Complete,
    /// The answer failed.
    Failed(PiHttpError),
}

/// What a step says.
pub enum ChatStepView {
    Delta(Seq<char>),
    NeedMore,
    Complete,
    Failed(PiHttpErrorView),
}

impl ChatStep {
    pub open spec fn view(self) -> ChatStepView {
        match self {
            ChatStep::Delta(t) => ChatStepView::Delta(t@),
            ChatStep::NeedMore => ChatStepView::NeedMore,
            ChatStep::Complete => ChatStepView::Complete,
            ChatStep::Failed(e) => ChatStepView::Failed(e@),
        }
    }
}

/// What an event comes to: something to pass on, or nothing.
pub open spec fn event_step(e: Result<Option<PiServerView>, PiHttpErrorView>) -> Option<
    ChatStepView,
> {
    match e {
        Ok(Some(PiServerView::TextDelta(t))) => if t.len() > 0 {
            Some(ChatStepView::Delta(t))
        } else {
            None
        },
        Ok(Some(PiServerView::Error(t))) => Some(ChatStepView::Failed(PiHttpErrorView::Server(t))),
        Ok(_) => None,
        Err(e) => Some(ChatStepView::Failed(e)),
    }
}

/// The event that ends an answer.
pub open spec fn is_end(e: Result<Option<PiServerView>, PiHttpErrorView>) -> bool {
    e matches Ok(Some(PiServerView::AgentEnd))
}

/// The answer after its next line was read, and what the line came to. The end of
/// the answer stops the reading of lines; what is left of the buffer counts as one
/// last line.
pub open spec fn advanced(s: Chat) -> (Chat, Option<ChatStepView>) {
    match s.phase {
        ChatPhase::Streaming => match line_break(s.buffer, 0) {
            None => (s, Some(ChatStepView::NeedMore)),
            Some(p) => {
                let (parser, event) = line_pushed(s.parser, s.buffer.take(p));
                let end = is_end(event);
                (
                    Chat {
                        buffer: s.buffer.skip(after_break(s.buffer, p)),
                        parser,
                        saw_agent_end: s.saw_agent_end || end,
                        phase: if end {
                            ChatPhase::LastLine
                        } else {
                            ChatPhase::Streaming
                        },
                    },
                    event_step(event),
                )
            },
        },
        ChatPhase::LastLine => if s.buffer.len() == 0 {
            (Chat { phase: ChatPhase::LastEvent, ..s }, None)
        } else {
            let (parser, event) = line_pushed(s.parser, s.buffer);
            (
                Chat {
                    parser,
                    saw_agent_end: s.saw_agent_end || is_end(event),
                    phase: ChatPhase::LastEvent,
                    ..s
                },
                event_step(event),
            )
        },
        ChatPhase::LastEvent => {
            let event = dispatched(s.parser);
            (
                Chat {
                    parser: no_event(),
                    saw_agent_end: s.saw_agent_end || is_end(event),
                    phase: ChatPhase::Over,
                    ..s
                },
                event_step(event),
            )
        },
        ChatPhase::Over => (
            s,
            Some(
                if s.saw_agent_end {
                    ChatStepView::Complete
                } else {
                    ChatStepView::Failed(PiHttpErrorView::EndedEarly)
                },
            ),
        ),
    }
}

/// How much of an answer is left to read.
pub open spec fn phase_rank(p: ChatPhase) -> int {
    match p {
        ChatPhase::Streaming => 3,
        ChatPhase::LastLine => 2,
        ChatPhase::LastEvent => 1,
        ChatPhase::Over => 0,
    }
}

/// What comes next of an answer: lines are read until one comes to something.
pub open spec fn stepped(s: Chat) -> (Chat, ChatStepView)
    decreases phase_rank(s.phase), s.buffer.len(),
{
    match advanced(s) {
        (next, Some(step)) => (next, step),
        (next, None) => {
            proof {
                lemma_line_break(s.buffer, 0);
            }
            stepped(next)
        },
    }
}

impl PiChat {
    pub open spec fn view(self) -> Chat {
        Chat {
            buffer: self.buffer@,
            parser: self.parser@,
            saw_agent_end: self.saw_agent_end,
            phase: self.phase,
        }
    }

    /// Nothing has arrived.
    pub fn new() -> (r: Self)
        ensures
            r@ == (Chat {
                buffer: seq![],
                parser: no_event(),
                saw_agent_end: false,
                phase: ChatPhase::Streaming,
            }),
    {
        let r = PiChat {
            buffer: Vec::new(),
            parser: SseParser::default(),
            saw_agent_end: false,
            phase: ChatPhase::Streaming,
        };
        proof {
            assert(r@.buffer =~= seq![]);
        }
        r
    }

    /// Takes in a piece.
    pub fn push(&mut self, chunk: &[u8])
        ensures
            final(self)@ == (Chat { buffer: old(self)@.buffer + chunk@, ..old(self)@ }),
    {
        crate::buf::extend(&mut self.buffer, chunk);
    }

    /// No more pieces will arrive.
    pub fn end_of_stream(&mut self)
        ensures
            final(self)@ == (Chat {
                phase: if old(self)@.phase == ChatPhase::Streaming {
                    ChatPhase::LastLine
                } else {
                    old(self)@.phase
                },
                ..old(self)@
            }),
    {
        if self.phase == ChatPhase::Streaming {
            self.phase = ChatPhase::LastLine;
        }
    }

    /// What an event comes to.
    fn on_event(&mut self, event: Result<Option<PiServerEvent>, PiHttpError>, phase: ChatPhase) -> (r:
        Option<ChatStep>)
        ensures
            ({
                let e = event_view(event);
                &&& final(self)@ == (Chat {
                    saw_agent_end: old(self)@.saw_agent_end || is_end(e),
                    phase: if is_end(e) && phase == ChatPhase::Streaming {
                        ChatPhase::LastLine
                    } else {
                        phase
                    },
                    ..old(self)@
                })
                &&& match r {
                    Some(step) => event_step(e) == Some(step@),
                    None => event_step(e) is None,
                }
            }),
    {
        self.phase = phase;
        match event {
            Ok(Some(PiServerEvent::TextDelta(t))) => if t.as_str().is_empty() {
                None
            } else {
                Some(ChatStep::Delta(t))
            },
            Ok(Some(PiServerEvent::AgentEnd)) => {
                self.saw_agent_end = true;
                if phase == ChatPhase::Streaming {
                    self.phase = ChatPhase::LastLine;
                }
                None
            },
            Ok(Some(PiServerEvent::Error(t))) => Some(ChatStep::Failed(PiHttpError::Server(t))),
            Ok(_) => None,
            Err(e) => Some(ChatStep::Failed(e)),
        }
    }

    /// What comes next of the answer.
    pub fn step(&mut self) -> (r: ChatStep)
        ensures
            (final(self)@, r@) == stepped(old(self)@),
    {
        loop
            invariant
                stepped(old(self)@) == stepped(self@),
            decreases phase_rank(self.phase), self.buffer@.len(),
        {
            match self.phase {
                ChatPhase::Streaming => {
                    let line = match take_line(&mut self.buffer) {
                        Some(line) => line,
                        None => return ChatStep::NeedMore,
                    };
                    let event = self.parser.push_line(line.as_slice());
                    match self.on_event(event, ChatPhase::Streaming) {
                        Some(step) => return step,
                        None => {},
                    }
                },
                ChatPhase::LastLine => {
                    if self.buffer.len() == 0 {
                        self.phase = ChatPhase::LastEvent;
                    } else {
                        let event = self.parser.push_line(self.buffer.as_slice());
                        match self.on_event(event, ChatPhase::LastEvent) {
                            Some(step) => return step,
                            None => {},
                        }
                    }
                },
                ChatPhase::LastEvent => {
                    let event = self.parser.finish();
                    match self.on_event(event, ChatPhase::Over) {
                        Some(step) => return step,
                        None => {},
                    }
                },
                ChatPhase::Over => {
                    return if self.saw_agent_end {
                        ChatStep::Complete
                    } else {
                        ChatStep::Failed(PiHttpError::EndedEarly)
                    };
                },
            }
        }
    }
}

/// What reading an event came to.
pub open spec fn event_view(e: Result<Option<PiServerEvent>, PiHttpError>) -> Result<
    Option<PiServerView>,
    PiHttpErrorView,
> {
    match e {
        Ok(Some(e)) => Ok(Some(e@)),
        Ok(None) => Ok(None),
        Err(e) => Err(e@),
    }
}

/// An answer is complete only if the server has ended it.
pub proof fn law_complete_means_ended(s: Chat)
    ensures
        stepped(s).1 == ChatStepView::Complete ==> stepped(s).0.saw_agent_end,
    decreases phase_rank(s.phase), s.buffer.len(),
{
    let (next, step) = advanced(s);
    if step is None {
        lemma_line_break(s.buffer, 0);
        law_complete_means_ended(next);
    }
}

/// A piece that arrives before or after the lines that are already whole were
/// read makes no difference, unless it completes a carriage return and a line
/// feed that the cut had parted.
pub proof fn law_line_in_pieces(b: Seq<u8>, more: Seq<u8>)
    requires
        line_break(b, 0) is Some,
        !(b.last() == 0x0d && more.len() > 0 && more[0] == 0x0a),
    ensures
        line_break(b + more, 0) == line_break(b, 0),
        (b + more).take(line_break(b, 0)->0) == b.take(line_break(b, 0)->0),
        (b + more).skip(after_break(b + more, line_break(b, 0)->0)) == b.skip(
            after_break(b, line_break(b, 0)->0),
        ) + more,
{
    lemma_line_break(b, 0);
    lemma_first_line_stays(b, more);
    let p = line_break(b, 0)->0;
    let all = b + more;
    assert(after_break(all, p) == after_break(b, p)) by {
        if p + 1 < b.len() {
            assert(all[p + 1] == b[p + 1]);
        } else if p + 1 < all.len() {
            assert(all[p + 1] == more[0]);
            assert(b.last() == b[p]);
        }
    }
    assert(all.skip(after_break(b, p)) =~= b.skip(after_break(b, p)) + more);
}

/// Every whole line of the buffer is read, up to the end of the answer or the
/// first failure: the answer after that, what came of the lines, and whether one
/// failed.
pub open spec fn lines_read(s: Chat) -> (Chat, Seq<ChatStepView>, bool)
    decreases s.buffer.len(),
{
    if s.phase != ChatPhase::Streaming || line_break(s.buffer, 0) is None {
        (s, seq![], false)
    } else {
        let (next, step) = advanced(s);
        proof {
            lemma_line_break(s.buffer, 0);
        }
        match step {
            Some(ChatStepView::Failed(e)) => (next, seq![ChatStepView::Failed(e)], true),
            Some(step) => {
                let (end, steps, failed) = lines_read(next);
                (end, seq![step] + steps, failed)
            },
            None => lines_read(next),
        }
    }
}

/// How an answer is cut into pieces makes no difference to what comes of it, as
/// long as no cut parts a carriage return from its line feed and no line fails.
pub proof fn law_answer_in_pieces(s: Chat, more: Seq<u8>)
    requires
        !(s.buffer.len() > 0 && s.buffer.last() == 0x0d && more.len() > 0 && more[0] == 0x0a),
        !lines_read(s).2,
    ensures
        ({
            let (middle, first, _) = lines_read(s);
            let (end, second, failed) = lines_read(
                Chat { buffer: middle.buffer + more, ..middle },
            );
            lines_read(Chat { buffer: s.buffer + more, ..s }) == (end, first + second, failed)
        }),
    decreases s.buffer.len(),
{
    let (middle, first, _) = lines_read(s);
    let (end, second, failed) = lines_read(Chat { buffer: middle.buffer + more, ..middle });
    if s.phase != ChatPhase::Streaming || line_break(s.buffer, 0) is None {
        assert(first + second =~= second);
    } else {
        lemma_line_break(s.buffer, 0);
        law_line_in_pieces(s.buffer, more);
        let (next, step) = advanced(s);
        let whole = Chat { buffer: s.buffer + more, ..s };
        assert(advanced(whole) == (Chat { buffer: next.buffer + more, ..next }, step));
        if next.buffer.len() > 0 {
            assert(next.buffer.last() == s.buffer.last());
        }
        law_answer_in_pieces(next, more);
        match step {
            Some(step) => {
                let (_, steps, _) = lines_read(next);
                assert(seq![step] + (steps + second) =~= (seq![step] + steps) + second);
            },
            None => {},
        }
    }
}

/// A line is what stands before the first line feed or carriage return; the two together
/// end one line. Without either there is no whole line.
pub proof fn law_lines_are_taken(line: Seq<u8>, end: Seq<u8>, rest: Seq<u8>)
    requires
        forall|i: int| 0 <= i < line.len() ==> #[trigger] line[i] != 10 && line[i] != 13,
        end == seq![10u8] || end == seq![13u8, 10u8] || (end == seq![13u8] && (rest.len() == 0
            || rest[0] != 10)),
    ensures
        ({
            let b = line + end + rest;
            &&& line_break(b, 0) == Some(line.len() as int)
            &&& b.take(line.len() as int) == line
            &&& b.skip(after_break(b, line.len() as int)) == rest
        }),
        line_break(line, 0) is None,
{
    let b = line + end + rest;
    let n = line.len() as int;
    assert(b[n] == end[0]);
    assert forall|j: int| 0 <= j < n implies !ends_line(#[trigger] b[j]) by {
        assert(b[j] == line[j]);
    }
    lemma_line_break_unique(b, 0, n);
    assert(b.take(n) =~= line);
    if end.len() == 2 {
        assert(b[n + 1] == 10);
        assert(b.skip(n + 2) =~= rest);
    } else {
        if n + 1 < b.len() {
            assert(b[n + 1] == rest[0]);
        }
        assert(b.skip(n + 1) =~= rest);
    }
    lemma_line_break(line, 0);
}

/// The first colon is where the field ends.
proof fn lemma_colon(line: Seq<u8>, i: int, p: int)
    requires
        0 <= i <= p <= line.len(),
        forall|j: int| i <= j < p ==> #[trigger] line[j] != 58,
        p < line.len() ==> line[p] == 58,
    ensures
        colon_at(line, i) == if p < line.len() {
            Some(p)
        } else {
            None
        },
    decreases p - i,
{
    if i < p {
        assert(line[i] != 58);
        lemma_colon(line, i + 1, p);
    }
}

/// A field is parted from its value by a colon and at most one blank.
proof fn lemma_field(name: Seq<u8>, value: Seq<u8>)
    requires
        forall|i: int| 0 <= i < name.len() ==> #[trigger] name[i] != 58,
    ensures
        field_of(name) == name,
        value_of(name) == Seq::<u8>::empty(),
        field_of(name + seq![58u8, 32u8] + value) == name,
        value_of(name + seq![58u8, 32u8] + value) == value,
        field_of(name + seq![58u8] + value) == name,
        value.len() == 0 || value[0] != 32 ==> value_of(name + seq![58u8] + value) == value,
{
    let n = name.len() as int;
    lemma_colon(name, 0, n);
    let a = name + seq![58u8, 32u8] + value;
    assert forall|j: int| 0 <= j < n implies #[trigger] a[j] != 58 by {
        assert(a[j] == name[j]);
    }
    assert(a[n] == 58);
    lemma_colon(a, 0, n);
    assert(a.take(n) =~= name);
    assert(a.skip(n + 1).len() > 0 && a.skip(n + 1)[0] == a[n + 1] && a[n + 1] == 32);
    assert(a.skip(n + 1).skip(1) =~= value);
    let b = name + seq![58u8] + value;
    assert forall|j: int| 0 <= j < n implies #[trigger] b[j] != 58 by {
        assert(b[j] == name[j]);
    }
    assert(b[n] == 58);
    lemma_colon(b, 0, n);
    assert(b.take(n) =~= name);
    assert(b.skip(n + 1) =~= value);
}

/// A `data` line adds its text to what was gathered, an `event` line names the event, and
/// neither completes anything. One blank after the colon does not belong to the text.
#[verifier::spinoff_prover]
pub proof fn law_fields_are_gathered(s: Sse, text: Seq<char>)
    ensures
        ({
            let value = encode_utf8(text);
            let data = (
                Sse { event_name: s.event_name, data_lines: s.data_lines.push(text) },
                Ok::<Option<PiServerView>, PiHttpErrorView>(None),
            );
            let event = (
                Sse { event_name: Some(text), data_lines: s.data_lines },
                Ok::<Option<PiServerView>, PiHttpErrorView>(None),
            );
            &&& line_pushed(s, seq![100u8, 97u8, 116u8, 97u8] + seq![58u8, 32u8] + value) == data
            &&& line_pushed(s, seq![101u8, 118u8, 101u8, 110u8, 116u8] + seq![58u8, 32u8] + value)
                == event
            &&& value.len() == 0 || value[0] != 32 ==> {
                &&& line_pushed(s, seq![100u8, 97u8, 116u8, 97u8] + seq![58u8] + value) == data
                &&& line_pushed(s, seq![101u8, 118u8, 101u8, 110u8, 116u8] + seq![58u8] + value)
                    == event
            }
        }),
{
    let value = encode_utf8(text);
    vstd::utf8::encode_utf8_valid_utf8(text);
    vstd::utf8::encode_utf8_decode_utf8(text);
    let data = seq![100u8, 97u8, 116u8, 97u8];
    let event = seq![101u8, 118u8, 101u8, 110u8, 116u8];
    lemma_field(data, value);
    lemma_field(event, value);
    assert(event.len() == 5 && data.len() == 4);
    let l = data + seq![58u8, 32u8] + value;
    assert(l.len() > 0 && l[0] == 100);
    let l = data + seq![58u8] + value;
    assert(l.len() > 0 && l[0] == 100);
    let l = event + seq![58u8, 32u8] + value;
    assert(l.len() > 0 && l[0] == 101);
    let l = event + seq![58u8] + value;
    assert(l.len() > 0 && l[0] == 101);
}

/// Comments and other fields change nothing.
pub proof fn law_other_lines_are_skipped(s: Sse, name: Seq<u8>, value: Seq<u8>)
    requires
        name.len() > 0,
        forall|i: int| 0 <= i < name.len() ==> #[trigger] name[i] != 58,
        name != seq![100u8, 97u8, 116u8, 97u8],
        name != seq![101u8, 118u8, 101u8, 110u8, 116u8],
    ensures
        line_pushed(s, name + seq![58u8] + value) == (
            s,
            Ok::<Option<PiServerView>, PiHttpErrorView>(None),
        ),
        line_pushed(s, name) == (s, Ok::<Option<PiServerView>, PiHttpErrorView>(None)),
        line_pushed(s, seq![58u8] + value) == (s, Ok::<Option<PiServerView>, PiHttpErrorView>(None)),
{
    lemma_field(name, value);
    let l = name + seq![58u8] + value;
    assert(l[0] == name[0]);
    assert((seq![58u8] + value)[0] == 58);
}

/// A text that is not UTF-8 is an error, and nothing is gathered of it.
pub proof fn law_fields_are_text(s: Sse, value: Seq<u8>)
    requires
        !valid_utf8(value),
    ensures
        line_pushed(s, seq![100u8, 97u8, 116u8, 97u8] + seq![58u8, 32u8] + value) == (
            s,
            Err::<Option<PiServerView>, PiHttpErrorView>(PiHttpErrorView::NotUtf8),
        ),
        line_pushed(s, seq![101u8, 118u8, 101u8, 110u8, 116u8] + seq![58u8, 32u8] + value) == (
            s,
            Err::<Option<PiServerView>, PiHttpErrorView>(PiHttpErrorView::NotUtf8),
        ),
{
    let data = seq![100u8, 97u8, 116u8, 97u8];
    let event = seq![101u8, 118u8, 101u8, 110u8, 116u8];
    lemma_field(data, value);
    lemma_field(event, value);
    let l = data + seq![58u8, 32u8] + value;
    assert(l.len() > 0 && l[0] == 100);
    let l = event + seq![58u8, 32u8] + value;
    assert(l.len() > 0 && l[0] == 101);
}

/// An empty line completes the event that was gathered: it goes by its name, or by
/// `message` if it was given none, and its data are its lines with line feeds between
/// them. Where nothing was gathered there is no event. What follows is gathered anew.
pub proof fn law_empty_lines_complete(s: Sse, a: Seq<char>, b: Seq<char>)
    ensures
        ({
            let (next, r) = line_pushed(s, seq![]);
            let name = match s.event_name {
                Some(n) => n,
                None => "message"@,
            };
            &&& next.event_name is None && next.data_lines.len() == 0
            &&& s.event_name is None && s.data_lines.len() == 0 ==> r == Ok::<
                Option<PiServerView>,
                PiHttpErrorView,
            >(None)
            &&& s.event_name is Some && s.data_lines.len() == 0 ==> completes(name, seq![], r)
            &&& s.data_lines == seq![a] ==> completes(name, a, r)
            &&& s.data_lines == seq![a, b] ==> completes(name, a + seq!['\n'] + b, r)
        }),
{
    reveal_strlit("\n");
    assert("\n"@ =~= seq!['\n']);
    if s.data_lines == seq![a] {
        law_joining(seq![], a, "\n"@);
        assert(seq![a] =~= Seq::<Seq<char>>::empty().push(a));
    } else if s.data_lines == seq![a, b] {
        law_joining(seq![], a, "\n"@);
        law_joining(seq![a], b, "\n"@);
        assert(seq![a] =~= Seq::<Seq<char>>::empty().push(a));
        assert(seq![a, b] =~= seq![a].push(b));
    }
}

/// An event with this name and these data was read, or could not be.
pub open spec fn completes(
    name: Seq<char>,
    data: Seq<char>,
    r: Result<Option<PiServerView>, PiHttpErrorView>,
) -> bool {
    match event_parsed(name, data) {
        Ok(e) => r == Ok::<Option<PiServerView>, PiHttpErrorView>(Some(e)),
        Err(e) => r == Err::<Option<PiServerView>, PiHttpErrorView>(e),
    }
}

/// What the events of the server say. A piece of text is the member `delta`, if that is a
/// string; a reason is the member `message`, or `error` where there is none, if that is a
/// string, and otherwise the data as they are.
pub proof fn law_events(name: Seq<char>, data: Seq<char>, m: Map<Seq<char>, JsonTree>, text: Seq<char>)
    ensures
        ({
            let parsed = json_parsed(encode_utf8(data));
            let delta = event_parsed("text_delta"@, data);
            let error = event_parsed("error"@, data);
            let is_text = |key: Seq<char>|
                m.contains_key(key) && m[key] == JsonTree::Str(text);
            &&& parsed is None ==> delta == Err::<PiServerView, PiHttpErrorView>(
                PiHttpErrorView::NotJson,
            ) && error == Ok::<PiServerView, PiHttpErrorView>(PiServerView::Error(data))
            &&& parsed == Some(JsonTree::Object(m)) ==> {
                &&& is_text("delta"@) ==> delta == Ok::<PiServerView, PiHttpErrorView>(
                    PiServerView::TextDelta(text),
                )
                &&& !m.contains_key("delta"@) || !(m["delta"@] is Str) ==> delta == Ok::<
                    PiServerView,
                    PiHttpErrorView,
                >(PiServerView::TextDelta(seq![]))
                &&& is_text("message"@) ==> error == Ok::<PiServerView, PiHttpErrorView>(
                    PiServerView::Error(text),
                )
                &&& m.contains_key("message"@) && !(m["message"@] is Str) ==> error == Ok::<
                    PiServerView,
                    PiHttpErrorView,
                >(PiServerView::Error(data))
                &&& !m.contains_key("message"@) && is_text("error"@) ==> error == Ok::<
                    PiServerView,
                    PiHttpErrorView,
                >(PiServerView::Error(text))
                &&& !m.contains_key("message"@) && (!m.contains_key("error"@) || !(m["error"@]
                    is Str)) ==> error == Ok::<PiServerView, PiHttpErrorView>(
                    PiServerView::Error(data),
                )
            }
        }),
        event_parsed("agent_end"@, data) == Ok::<PiServerView, PiHttpErrorView>(
            PiServerView::AgentEnd,
        ),
        name != "text_delta"@ && name != "agent_end"@ && name != "error"@ ==> event_parsed(
            name,
            data,
        ) == Ok::<PiServerView, PiHttpErrorView>(PiServerView::Ignored),
{
    reveal_strlit("text_delta");
    reveal_strlit("agent_end");
    reveal_strlit("error");
    assert("text_delta"@.len() == 10 && "agent_end"@.len() == 9 && "error"@.len() == 5);
}

/// A whole line is read at once. A text is passed on and an error is final; the end of
/// the answer leaves what is in the buffer as a last line; nothing else shows. Without a
/// whole line more has to arrive.
#[verifier::spinoff_prover]
pub proof fn law_lines_are_answered(
    s: Chat,
    line: Seq<u8>,
    end: Seq<u8>,
    rest: Seq<u8>,
)
    requires
        s.phase == ChatPhase::Streaming,
        forall|i: int| 0 <= i < line.len() ==> #[trigger] line[i] != 10 && line[i] != 13,
        end == seq![10u8] || end == seq![13u8, 10u8] || (end == seq![13u8] && (rest.len() == 0
            || rest[0] != 10)),
        s.buffer == line + end + rest || s.buffer == line,
    ensures
        s.buffer == line ==> stepped(s) == (s, ChatStepView::NeedMore),
        s.buffer == line + end + rest ==> {
            let (parser, event) = line_pushed(s.parser, line);
            let next = Chat { buffer: rest, parser, ..s };
            match event {
                Ok(Some(PiServerView::TextDelta(t))) => if t.len() > 0 {
                    stepped(s) == (next, ChatStepView::Delta(t))
                } else {
                    stepped(s) == stepped(next)
                },
                Ok(Some(PiServerView::Error(t))) => stepped(s) == (
                    next,
                    ChatStepView::Failed(PiHttpErrorView::Server(t)),
                ),
                Ok(Some(PiServerView::AgentEnd)) => stepped(s) == stepped(
                    Chat { saw_agent_end: true, phase: ChatPhase::LastLine, ..next },
                ),
                Ok(Some(PiServerView::Ignored)) => stepped(s) == stepped(next),
                Ok(None) => stepped(s) == stepped(next),
                Err(e) => stepped(s) == (next, ChatStepView::Failed(e)),
            }
        },
{
    law_lines_are_taken(line, end, rest);
    let b = line + end + rest;
    assert(b.len() > line.len());
}

/// When nothing more arrives, what is left counts as a last line, and after it the event
/// that was gathered is read. The answer is complete if its end was among all these; else
/// it broke off.
#[verifier::spinoff_prover]
pub proof fn law_answers_end(s: Chat)
    ensures
        s.phase == ChatPhase::Over ==> stepped(s) == (
            s,
            if s.saw_agent_end {
                ChatStepView::Complete
            } else {
                ChatStepView::Failed(PiHttpErrorView::EndedEarly)
            },
        ),
        s.phase == ChatPhase::LastLine && s.buffer.len() == 0 ==> stepped(s) == stepped(
            Chat { phase: ChatPhase::LastEvent, ..s },
        ),
        s.phase == ChatPhase::LastLine && s.buffer.len() > 0 ==> {
            let (parser, event) = line_pushed(s.parser, s.buffer);
            let next = Chat { parser, phase: ChatPhase::LastEvent, ..s };
            shows(s, event, next)
        },
        s.phase == ChatPhase::LastEvent ==> {
            let (parser, event) = line_pushed(s.parser, seq![]);
            let next = Chat { parser, phase: ChatPhase::Over, ..s };
            shows(s, event, next)
        },
{
    assert(Seq::<u8>::empty().len() == 0);
}

/// An answer that has come to an event goes on from `next`.
pub open spec fn shows(
    s: Chat,
    event: Result<Option<PiServerView>, PiHttpErrorView>,
    next: Chat,
) -> bool {
    match event {
        Ok(Some(PiServerView::TextDelta(t))) => if t.len() > 0 {
            stepped(s) == (next, ChatStepView::Delta(t))
        } else {
            stepped(s) == stepped(next)
        },
        Ok(Some(PiServerView::Error(t))) => stepped(s) == (
            next,
            ChatStepView::Failed(PiHttpErrorView::Server(t)),
        ),
        Ok(Some(PiServerView::AgentEnd)) => stepped(s) == stepped(
            Chat { saw_agent_end: true, ..next },
        ),
        Ok(Some(PiServerView::Ignored)) => stepped(s) == stepped(next),
        Ok(None) => stepped(s) == stepped(next),
        Err(e) => stepped(s) == (next, ChatStepView::Failed(e)),
    }
}

/// The settings of the server: which variables are read, and what stands in for one that
/// is not set. An agent has to be named.
#[verifier::spinoff_prover]
pub proof fn law_settings(env: Env, r: Result<Option<PiHttpLlmConfig>, ConfigError>)
    requires
        pi_http_configured(env, r),
    ensures
        ({
            let provider = llm_provider_text(env);
            let wanted = provider == "pi"@ || provider == "pi-http"@ || provider == "pi_http"@
                || provider == "pi-server"@ || provider == "pi_server"@;
            let agent = match env.nonempty("XIAOZHI_PI_AGENT_ID"@) {
                Some(x) => x,
                None => match env.nonempty("PI_SERVER_AGENT_ID"@) {
                    Some(x) => x,
                    None => "zhuzhu"@,
                },
            };
            if !wanted {
                r == Ok::<Option<PiHttpLlmConfig>, ConfigError>(None)
            } else if trimmed(agent).len() == 0 {
                r matches Err(e) && e.message@ == "pi-server agent id must not be empty"@
            } else {
                r matches Ok(Some(c)) && {
                    &&& c.agent_id@ == agent
                    &&& c.base_url@ == match env.nonempty("XIAOZHI_PI_HTTP_BASE_URL"@) {
                        Some(x) => x,
                        None => match env.nonempty("PI_SERVER_BASE_URL"@) {
                            Some(x) => x,
                            None => "http://127.0.0.1:8081"@,
                        },
                    }
                    &&& env.nonempty("XIAOZHI_PI_HTTP_IDLE_TIMEOUT_MS"@) is None && env.nonempty(
                        "PI_SERVER_IDLE_TIMEOUT_MS"@,
                    ) is None ==> duration_nanos(c.stream_idle_timeout) == 300_000_000_000
                    &&& env.nonempty("XIAOZHI_PI_HTTP_IDLE_TIMEOUT_MS"@) matches Some(x) ==> (
                    parsed_uint(x, u64::MAX as nat) matches Some(n) ==> duration_nanos(
                        c.stream_idle_timeout,
                    ) == n * 1_000_000)
                }
            }
        }),
{
}

} // verus!
