//! Language models with an OpenAI-compatible streaming interface.
use crate::buf::copy_range;
use crate::env::{
    bool_or, llm_provider, llm_provider_text, or, or_bool, or_text, ConfigError, Env,
};
use crate::json::{empty_object, json_parsed, trees, Json, JsonTree, Real};
use crate::services::pi_http::{
    after_break, law_lines_are_taken, lemma_first_line_stays, lemma_line_break, line_break,
    take_line,
};
use crate::text::{
    concat, contains, ends_with, has_suffix, is_char, law_parts_occur, law_trailing_characters,
    lowered, occurs_in, opt_text, parse_uint, parsed_uint, same, to_ascii_lowercase, trim_end_char,
    without_suffix,
};
use vstd::prelude::*;

verus! {

/// How a model is asked not to think aloud.
#[derive(Clone, Copy, Debug, PartialEq, Eq, Structural)]
pub enum ThinkingStyle {
    /// By the names of the service and the model.
    Auto,
    DeepSeek,
    EnableThinking,
    Both,
    /// Not at all.
    Off,
}

/// The style that a setting names, in lower case.
pub open spec fn style_of(name: Seq<char>) -> ThinkingStyle {
    if name == "deepseek"@ || name == "thinking"@ {
        ThinkingStyle::DeepSeek
    } else if name == "enable_thinking"@ || name == "enable-thinking"@ || name == "qwen"@ || name
        == "dashscope"@ || name == "aliyun"@ {
        ThinkingStyle::EnableThinking
    } else if name == "both"@ || name == "all"@ {
        ThinkingStyle::Both
    } else if name == "none"@ || name == "off"@ || name == "disabled"@ {
        ThinkingStyle::Off
    } else {
        ThinkingStyle::Auto
    }
}

/// The style that the settings ask for.
pub open spec fn style_setting(env: Env) -> ThinkingStyle {
    style_of(
        lowered(or_text(env.either("XIAOZHI_LLM_THINKING_STYLE"@, "OPENAI_THINKING_STYLE"@), "auto"@)),
    )
}

impl ThinkingStyle {
    /// The style that the settings ask for.
    pub fn from_env(env: &Env) -> (r: Self)
        ensures
            r == style_setting(*env),
    {
        let name = or(env.get_either("XIAOZHI_LLM_THINKING_STYLE", "OPENAI_THINKING_STYLE"), "auto");
        let name = to_ascii_lowercase(name.as_str());
        let name = name.as_str();
        if same(name, "deepseek") || same(name, "thinking") {
            ThinkingStyle::DeepSeek
        } else if same(name, "enable_thinking") || same(name, "enable-thinking") || same(
            name,
            "qwen",
        ) || same(name, "dashscope") || same(name, "aliyun") {
            ThinkingStyle::EnableThinking
        } else if same(name, "both") || same(name, "all") {
            ThinkingStyle::Both
        } else if same(name, "none") || same(name, "off") || same(name, "disabled") {
            ThinkingStyle::Off
        } else {
            ThinkingStyle::Auto
        }
    }
}

/// A sampling temperature. JSON has no number for one that is not finite.
#[derive(Debug)]
pub enum Temperature {
    Finite(Real),
    NotFinite,
}

impl Temperature {
    pub open spec fn tree(self) -> JsonTree {
        match self {
            Temperature::Finite(x) => JsonTree::Real(x.number()),
            Temperature::NotFinite => JsonTree::Null,
        }
    }

    fn to_json(&self) -> (r: Json)
        ensures
            r.tree() == self.tree(),
    {
        match self {
            Temperature::Finite(x) => Json::Real(x.copy()),
            Temperature::NotFinite => Json::Null,
        }
    }
}

/// How to reach the service and what to ask of it.
#[derive(Debug)]
pub struct OpenAiLlmConfig {
    pub api_key: String,
    pub model: String,
    pub base_url: String,
    pub system_prompt: Option<String>,
    pub temperature: Option<Temperature>,
    pub max_tokens: Option<u32>,
    pub disable_thinking: bool,
    pub thinking_style: ThinkingStyle,
}

/// An OpenAI-compatible service was asked for.
pub open spec fn openai_wanted(env: Env) -> bool {
    let provider = llm_provider_text(env);
    provider == "openai"@ || provider == "openai-compatible"@ || provider == "openai_compatible"@
}

pub open spec fn openai_api_key(env: Env) -> Option<Seq<char>> {
    env.either("XIAOZHI_LLM_API_KEY"@, "OPENAI_API_KEY"@)
}

/// A limit on tokens that is a number of 32 bits.
pub open spec fn max_tokens_setting(env: Env) -> Option<nat> {
    match env.either("XIAOZHI_LLM_MAX_TOKENS"@, "OPENAI_MAX_TOKENS"@) {
        Some(s) => parsed_uint(s, u32::MAX as nat),
        None => None,
    }
}

/// The text of the temperature setting.
pub fn temperature_setting(env: &Env) -> (r: Option<String>)
    ensures
        opt_text(r) == env.either("XIAOZHI_LLM_TEMPERATURE"@, "OPENAI_TEMPERATURE"@),
{
    env.get_either("XIAOZHI_LLM_TEMPERATURE", "OPENAI_TEMPERATURE")
}

/// What the settings come to.
pub open spec fn openai_configured(env: Env, temperature: Option<Temperature>, r: Result<Option<OpenAiLlmConfig>, ConfigError>) -> bool {
    match r {
        Ok(None) => !openai_wanted(env),
        Ok(Some(c)) => {
            &&& openai_wanted(env)
            &&& openai_api_key(env) == Some(c.api_key@)
            &&& c.model@ == or_text(
                env.either("XIAOZHI_LLM_MODEL"@, "OPENAI_MODEL"@),
                "gpt-4o-mini"@,
            )
            &&& c.base_url@ == or_text(
                env.either3(
                    "XIAOZHI_LLM_BASE_URL"@,
                    "OPENAI_BASE_URL"@,
                    "OPENAI_API_BASE"@,
                ),
                "https://api.openai.com/v1"@,
            )
            &&& opt_text(c.system_prompt) == env.either(
                "XIAOZHI_LLM_SYSTEM_PROMPT"@,
                "OPENAI_SYSTEM_PROMPT"@,
            )
            &&& c.temperature == temperature
            &&& match c.max_tokens {
                Some(n) => max_tokens_setting(env) == Some(n as nat),
                None => max_tokens_setting(env) is None,
            }
            &&& c.disable_thinking == or_bool(
                env.either("XIAOZHI_LLM_DISABLE_THINKING"@, "OPENAI_DISABLE_THINKING"@),
                true,
            )
            &&& c.thinking_style == style_setting(env)
        },
        Err(e) => openai_wanted(env) && openai_api_key(env) is None && e.message@
            == "missing required env; expected one of XIAOZHI_LLM_API_KEY, OPENAI_API_KEY"@,
    }
}

impl OpenAiLlmConfig {
    /// The settings of the service; `None` if another provider was asked for. The
    /// temperature is what the text of its setting stands for.
    pub fn from_env(env: &Env, temperature: Option<Temperature>) -> (r: Result<
        Option<Self>,
        ConfigError,
    >)
        ensures
            openai_configured(*env, temperature, r),
    {
        let provider = llm_provider(env);
        let provider = provider.as_str();
        if !same(provider, "openai") && !same(provider, "openai-compatible") && !same(
            provider,
            "openai_compatible",
        ) {
            return Ok(None);
        }
        let api_key = match env.get_either("XIAOZHI_LLM_API_KEY", "OPENAI_API_KEY") {
            Some(key) => key,
            None => return Err(
                ConfigError {
                    message:
                        "missing required env; expected one of XIAOZHI_LLM_API_KEY, OPENAI_API_KEY".to_owned(),
                },
            ),
        };
        let max_tokens: Option<u32> = match env.get_either(
            "XIAOZHI_LLM_MAX_TOKENS",
            "OPENAI_MAX_TOKENS",
        ) {
            Some(s) => match parse_uint(s.as_str(), u32::MAX as u64) {
                Some(n) => Some(n as u32),
                None => None,
            },
            None => None,
        };
        Ok(
            Some(
                OpenAiLlmConfig {
                    api_key,
                    model: or(env.get_either("XIAOZHI_LLM_MODEL", "OPENAI_MODEL"), "gpt-4o-mini"),
                    base_url: or(
                        env.get_either3(
                            "XIAOZHI_LLM_BASE_URL",
                            "OPENAI_BASE_URL",
                            "OPENAI_API_BASE",
                        ),
                        "https://api.openai.com/v1",
                    ),
                    system_prompt: env.get_either(
                        "XIAOZHI_LLM_SYSTEM_PROMPT",
                        "OPENAI_SYSTEM_PROMPT",
                    ),
                    temperature,
                    max_tokens,
                    disable_thinking: bool_or(
                        env.get_either("XIAOZHI_LLM_DISABLE_THINKING", "OPENAI_DISABLE_THINKING"),
                        true,
                    ),
                    thinking_style: ThinkingStyle::from_env(env),
                },
            ),
        )
    }

    /// Where chats are asked for.
    pub open spec fn chat_url_text(self) -> Seq<char> {
        let base = without_suffix(self.base_url@, is_char('/'));
        if has_suffix(base, "/chat/completions"@) {
            base
        } else {
            base + "/chat/completions"@
        }
    }

    /// Where chats are asked for.
    pub fn chat_completions_url(&self) -> (r: String)
        ensures
            r@ == self.chat_url_text(),
    {
        let base = trim_end_char(self.base_url.as_str(), '/');
        if ends_with(base, "/chat/completions") {
            base.to_owned()
        } else {
            concat(base, "/chat/completions")
        }
    }

    /// What the style comes to.
    pub open spec fn effective_style(self) -> ThinkingStyle {
        let marker = lowered(self.base_url@) + " "@ + lowered(self.model@);
        if self.thinking_style != ThinkingStyle::Auto {
            self.thinking_style
        } else if occurs_in(marker, "deepseek"@) {
            ThinkingStyle::DeepSeek
        } else if occurs_in(marker, "qwen"@) || occurs_in(marker, "dashscope"@) || occurs_in(
            marker,
            "aliyun"@,
        ) || occurs_in(marker, "alibaba"@) {
            ThinkingStyle::EnableThinking
        } else {
            ThinkingStyle::Both
        }
    }
}

/// What the style comes to.
pub fn effective_thinking_style(config: &OpenAiLlmConfig) -> (r: ThinkingStyle)
    ensures
        r == config.effective_style(),
        r != ThinkingStyle::Auto,
{
    match config.thinking_style {
        ThinkingStyle::Auto => {
            let marker = concat(to_ascii_lowercase(config.base_url.as_str()).as_str(), " ");
            let marker = concat(
                marker.as_str(),
                to_ascii_lowercase(config.model.as_str()).as_str(),
            );
            let marker = marker.as_str();
            if contains(marker, "deepseek") {
                ThinkingStyle::DeepSeek
            } else if contains(marker, "qwen") || contains(marker, "dashscope") || contains(
                marker,
                "aliyun",
            ) || contains(marker, "alibaba") {
                ThinkingStyle::EnableThinking
            } else {
                ThinkingStyle::Both
            }
        },
        style => style,
    }
}

/// A request with the members that ask the model not to think aloud.
pub open spec fn thinking_applied(body: JsonTree, config: OpenAiLlmConfig) -> JsonTree {
    let style = config.effective_style();
    let off = empty_object().with("type"@, JsonTree::Str("disabled"@));
    let first = if config.disable_thinking && (style == ThinkingStyle::DeepSeek || style
        == ThinkingStyle::Both) {
        body.set("thinking"@, off)
    } else {
        body
    };
    if config.disable_thinking && (style == ThinkingStyle::EnableThinking || style
        == ThinkingStyle::Both) {
        first.set("enable_thinking"@, JsonTree::Bool(false))
    } else {
        first
    }
}

/// Some member asks the model not to think aloud.
pub open spec fn thinking_asked(config: OpenAiLlmConfig) -> bool {
    let style = config.effective_style();
    config.disable_thinking && (style == ThinkingStyle::DeepSeek || style
        == ThinkingStyle::EnableThinking || style == ThinkingStyle::Both)
}

/// Adds the members that ask the model not to think aloud. Where there are any, the
/// request has to be an object or `null`.
pub fn apply_thinking_config(body: Json, config: &OpenAiLlmConfig) -> (r: Json)
    requires
        thinking_asked(*config) ==> body is Object || body is Null,
    ensures
        r.tree() == thinking_applied(body.tree(), *config),
{
    if !config.disable_thinking {
        return body;
    }
    match effective_thinking_style(config) {
        ThinkingStyle::DeepSeek => body.set(
            "thinking",
            Json::object().with("type", Json::str("disabled")),
        ),
        ThinkingStyle::EnableThinking => body.set("enable_thinking", Json::Bool(false)),
        ThinkingStyle::Both => body.set(
            "thinking",
            Json::object().with("type", Json::str("disabled")),
        ).set("enable_thinking", Json::Bool(false)),
        _ => body,
    }
}

/// A message of a chat.
pub open spec fn chat_message_tree(role: Seq<char>, content: Seq<char>) -> JsonTree {
    empty_object().with("role"@, JsonTree::Str(role)).with("content"@, JsonTree::Str(content))
}

/// A message of a chat.
fn chat_message(role: &str, content: &str) -> (r: Json)
    ensures
        r.tree() == chat_message_tree(role@, content@),
{
    Json::object().with("role", Json::str(role)).with("content", Json::str(content))
}

/// The messages of a chat: the system prompt, unless it is missing or empty, and
/// what the user says.
pub open spec fn messages_tree(config: OpenAiLlmConfig, prompt: Seq<char>) -> JsonTree {
    let user = chat_message_tree("user"@, prompt);
    match opt_text(config.system_prompt) {
        Some(s) => if s.len() == 0 {
            JsonTree::Array(seq![user])
        } else {
            JsonTree::Array(seq![chat_message_tree("system"@, s), user])
        },
        None => JsonTree::Array(seq![user]),
    }
}

/// The request for a chat.
pub open spec fn chat_tree(config: OpenAiLlmConfig, prompt: Seq<char>) -> JsonTree {
    let body = empty_object().with("model"@, JsonTree::Str(config.model@)).with(
        "messages"@,
        messages_tree(config, prompt),
    ).with("stream"@, JsonTree::Bool(true));
    let body = match config.temperature {
        Some(t) => body.with("temperature"@, t.tree()),
        None => body,
    };
    let body = match config.max_tokens {
        Some(n) => body.with("max_tokens"@, JsonTree::Int(n as int)),
        None => body,
    };
    thinking_applied(body, config)
}

/// The request for a chat.
pub fn chat_body(config: &OpenAiLlmConfig, prompt: &str) -> (r: Json)
    ensures
        r.tree() == chat_tree(*config, prompt@),
{
    let mut messages: Vec<Json> = Vec::new();
    match &config.system_prompt {
        Some(s) => if !s.as_str().is_empty() {
            messages.push(chat_message("system", s.as_str()));
        },
        None => {},
    }
    messages.push(chat_message("user", prompt));
    let messages = Json::array(messages);
    proof {
        assert(messages.tree()->Array_0 =~= messages_tree(*config, prompt@)->Array_0);
    }
    let mut body = Json::object().with("model", Json::str(config.model.as_str())).with(
        "messages",
        messages,
    ).with("stream", Json::Bool(true));
    match &config.temperature {
        Some(t) => {
            body = body.with("temperature", t.to_json());
        },
        None => {},
    }
    match config.max_tokens {
        Some(n) => {
            body = body.with("max_tokens", Json::UInt(n as u64));
        },
        None => {},
    }
    apply_thinking_config(body, config)
}

// ---------------------------------------------------------------------------
// The stream of the answer
// ---------------------------------------------------------------------------

/// A line of the stream holds data that is not JSON.
#[derive(Debug, Clone, Copy, PartialEq, Eq, Structural)]
pub struct SseError;

/// The text of one part of a content.
pub open spec fn part_text(part: JsonTree) -> Option<Seq<char>> {
    match part.as_str() {
        Some(t) => Some(t),
        None => part.get_str("text"@),
    }
}

/// The texts of some parts, one after the other.
pub open spec fn parts_text(parts: Seq<JsonTree>) -> Seq<char>
    decreases parts.len(),
{
    if parts.len() == 0 {
        seq![]
    } else {
        parts_text(parts.drop_last()) + or_text(part_text(parts.last()), seq![])
    }
}

/// The text of one choice, if it has one: its content is a text, or a list of
/// parts that are not empty throughout.
pub open spec fn choice_text(choice: JsonTree) -> Option<Seq<char>> {
    match choice.get("delta"@) {
        Some(delta) => match delta.get("content"@) {
            Some(content) => match content {
                JsonTree::Str(t) => Some(t),
                JsonTree::Array(parts) => if parts_text(parts).len() == 0 {
                    None
                } else {
                    Some(parts_text(parts))
                },
                _ => None,
            },
            None => None,
        },
        None => None,
    }
}

/// The text of the first choice from `i` on that has one.
pub open spec fn first_choice_text(choices: Seq<JsonTree>, i: int) -> Option<Seq<char>>
    decreases choices.len() - i,
{
    if i < 0 || i >= choices.len() {
        None
    } else {
        match choice_text(choices[i]) {
            Some(t) => Some(t),
            None => first_choice_text(choices, i + 1),
        }
    }
}

/// The text that a piece of an answer brings.
pub open spec fn delta_text(value: JsonTree) -> Option<Seq<char>> {
    match value.get("choices"@) {
        Some(choices) => match choices {
            JsonTree::Array(items) => first_choice_text(items, 0),
            _ => None,
        },
        None => None,
    }
}

/// The texts of some parts, one after the other.
fn collect_parts(parts: &Vec<Json>) -> (r: String)
    ensures
        r@ == parts_text(trees(parts@)),
{
    let ghost all = trees(parts@);
    let mut text = String::new();
    proof {
        assert(all.take(0) =~= seq![]);
        assert(text@ =~= seq![]);
    }
    for i in 0..parts.len()
        invariant
            all == trees(parts@),
            text@ == parts_text(all.take(i as int)),
    {
        proof {
            assert(all.take(i + 1).drop_last() =~= all.take(i as int));
            assert(all.take(i + 1).last() == parts@[i as int].tree());
            assert(text@ + Seq::<char>::empty() =~= text@);
        }
        match parts[i].as_str() {
            Some(t) => {
                text.append(t);
            },
            None => match parts[i].get_str("text") {
                Some(t) => {
                    text.append(t);
                },
                None => {},
            },
        }
    }
    proof {
        assert(all.take(all.len() as int) =~= all);
    }
    text
}

/// The text of one choice.
fn extract_choice(choice: &Json) -> (r: Option<String>)
    ensures
        opt_text(r) == choice_text(choice.tree()),
{
    let delta = match choice.get("delta") {
        Some(j) => j,
        None => return None,
    };
    let content = match delta.get("content") {
        Some(j) => j,
        None => return None,
    };
    match content.as_str() {
        Some(t) => return Some(t.to_owned()),
        None => {},
    }
    match content.as_array() {
        Some(parts) => {
            let text = collect_parts(parts);
            if text.as_str().is_empty() {
                None
            } else {
                Some(text)
            }
        },
        None => None,
    }
}

/// The text that a piece of an answer brings.
pub fn extract_delta_content(value: &Json) -> (r: Option<String>)
    ensures
        opt_text(r) == delta_text(value.tree()),
{
    let choices = match value.get("choices") {
        Some(j) => j,
        None => return None,
    };
    let items = match choices.as_array() {
        Some(items) => items,
        None => return None,
    };
    let ghost all = trees(items@);
    let mut i: usize = 0;
    while i < items.len()
        invariant
            i <= items@.len(),
            all == trees(items@),
            delta_text(value.tree()) == first_choice_text(all, i as int),
        decreases items@.len() - i,
    {
        proof {
            assert(all[i as int] == items@[i as int].tree());
        }
        match extract_choice(&items[i]) {
            Some(t) => return Some(t),
            None => {},
        }
        i = i + 1;
    }
    None
}

/// Blanks and tabs are dropped from the start.
pub open spec fn unindented(s: Seq<u8>) -> Seq<u8>
    decreases s.len(),
{
    if s.len() > 0 && (s[0] == 0x20 || s[0] == 0x09) {
        unindented(s.skip(1))
    } else {
        s
    }
}

/// Drops blanks and tabs from the start.
fn trim_ascii_start(bytes: &[u8]) -> (r: Vec<u8>)
    ensures
        r@ == unindented(bytes@),
{
    let mut i: usize = 0;
    proof {
        assert(bytes@.skip(0) =~= bytes@);
    }
    while i < bytes.len() && (bytes[i] == 0x20 || bytes[i] == 0x09)
        invariant
            i <= bytes@.len(),
            unindented(bytes@) == unindented(bytes@.skip(i as int)),
        decreases bytes@.len() - i,
    {
        proof {
            assert(bytes@.skip(i as int).skip(1) =~= bytes@.skip(i + 1));
        }
        i = i + 1;
    }
    let r = copy_range(bytes, i, bytes.len());
    proof {
        assert(r@ =~= bytes@.skip(i as int));
    }
    r
}

/// The bytes `data:`.
pub open spec fn data_field() -> Seq<u8> {
    seq![0x64u8, 0x61u8, 0x74u8, 0x61u8, 0x3au8]
}

/// The bytes `[DONE]`.
pub open spec fn done_marker() -> Seq<u8> {
    seq![0x5bu8, 0x44u8, 0x4fu8, 0x4eu8, 0x45u8, 0x5du8]
}

/// The data of a line of the stream, if there is any.
pub open spec fn line_data(line: Seq<u8>) -> Option<Seq<u8>> {
    let line = unindented(line);
    if !data_field().is_prefix_of(line) {
        None
    } else {
        let data = unindented(line.skip(5));
        if data == done_marker() {
            None
        } else {
            Some(data)
        }
    }
}

/// The text that a line of the stream brings.
pub open spec fn line_text(line: Seq<u8>) -> Result<Option<Seq<char>>, SseError> {
    match line_data(line) {
        Some(data) => match json_parsed(data) {
            Some(value) => Ok(delta_text(value)),
            None => Err(SseError),
        },
        None => Ok(None),
    }
}

/// Whether two runs of bytes are the same.
fn same_bytes(a: &[u8], b: &[u8]) -> (r: bool)
    ensures
        r == (a@ == b@),
{
    if a.len() != b.len() {
        return false;
    }
    for i in 0..a.len()
        invariant
            a@.len() == b@.len(),
            forall|j: int| 0 <= j < i ==> a@[j] == b@[j],
    {
        if a[i] != b[i] {
            return false;
        }
    }
    proof {
        assert(a@ =~= b@);
    }
    true
}

/// The text that a line of the stream brings. Comments, other fields and the
/// marker of the end bring none.
pub fn parse_sse_line(line: &[u8]) -> (r: Result<Option<String>, SseError>)
    ensures
        match r {
            Ok(t) => line_text(line@) == Ok::<Option<Seq<char>>, SseError>(opt_text(t)),
            Err(e) => line_text(line@) == Err::<Option<Seq<char>>, SseError>(e),
        },
{
    let line = trim_ascii_start(line);
    let field: [u8; 5] = [0x64, 0x61, 0x74, 0x61, 0x3a];
    let done: [u8; 6] = [0x5b, 0x44, 0x4f, 0x4e, 0x45, 0x5d];
    proof {
        assert(field@ =~= data_field());
        assert(done@ =~= done_marker());
    }
    if line.len() < 5 {
        return Ok(None);
    }
    let head = copy_range(line.as_slice(), 0, 5);
    proof {
        assert(data_field().is_prefix_of(line@) == (head@ == data_field()));
    }
    if !same_bytes(head.as_slice(), field.as_slice()) {
        return Ok(None);
    }
    let rest = copy_range(line.as_slice(), 5, line.len());
    proof {
        assert(rest@ =~= line@.skip(5));
    }
    let data = trim_ascii_start(rest.as_slice());
    if same_bytes(data.as_slice(), done.as_slice()) {
        return Ok(None);
    }
    match Json::parse(data.as_slice()) {
        Ok(value) => Ok(extract_delta_content(&value)),
        Err(_) => Err(SseError),
    }
}

/// What the next step of a stream comes to: the first text that is not empty, or
/// the failure of a line before it, and what of the buffer is left. `Ok(None)`
/// says that no whole line is left. A line feed, a carriage return or both together
/// end a line.
pub open spec fn next_text(b: Seq<u8>) -> (Result<Option<Seq<char>>, SseError>, Seq<u8>)
    decreases b.len(),
{
    match line_break(b, 0) {
        None => (Ok(None), b),
        Some(p) => {
            let rest = b.skip(after_break(b, p));
            proof {
                lemma_line_break(b, 0);
            }
            match line_text(b.take(p)) {
                Err(e) => (Err(e), rest),
                Ok(Some(t)) => if t.len() > 0 {
                    (Ok(Some(t)), rest)
                } else {
                    next_text(rest)
                },
                Ok(None) => next_text(rest),
            }
        },
    }
}

/// An answer that arrives in pieces.
#[derive(Debug)]
pub struct ChatStream {
    pub buffer: Vec<u8>,
}

impl ChatStream {
    /// Nothing has arrived.
    pub fn new() -> (r: Self)
        ensures
            r.buffer@ == Seq::<u8>::empty(),
    {
        ChatStream { buffer: Vec::new() }
    }

    /// Takes in a piece.
    pub fn push(&mut self, chunk: &[u8])
        ensures
            final(self).buffer@ == old(self).buffer@ + chunk@,
    {
        crate::buf::extend(&mut self.buffer, chunk);
    }

    /// The next text, if a whole line brings one.
    pub fn next(&mut self) -> (r: Result<Option<String>, SseError>)
        ensures
            final(self).buffer@ == next_text(old(self).buffer@).1,
            match r {
                Ok(t) => next_text(old(self).buffer@).0 == Ok::<Option<Seq<char>>, SseError>(
                    opt_text(t),
                ),
                Err(e) => next_text(old(self).buffer@).0 == Err::<Option<Seq<char>>, SseError>(e),
            },
    {
        loop
            invariant
                next_text(old(self).buffer@) == next_text(self.buffer@),
            decreases self.buffer@.len(),
        {
            let line = match take_line(&mut self.buffer) {
                Some(line) => line,
                None => return Ok(None),
            };
            match parse_sse_line(line.as_slice()) {
                Ok(Some(t)) => if !t.as_str().is_empty() {
                    return Ok(Some(t));
                },
                Ok(None) => {},
                Err(e) => return Err(e),
            }
        }
    }

    /// The text of a last line that nothing ends.
    pub fn finish(&mut self) -> (r: Result<Option<String>, SseError>)
        ensures
            final(self).buffer@ == Seq::<u8>::empty(),
            match r {
                Ok(Some(t)) => t@.len() > 0 && line_text(old(self).buffer@) == Ok::<
                    Option<Seq<char>>,
                    SseError,
                >(Some(t@)),
                Ok(None) => match line_text(old(self).buffer@) {
                    Ok(Some(t)) => t.len() == 0,
                    Ok(None) => true,
                    Err(_) => false,
                },
                Err(e) => line_text(old(self).buffer@) == Err::<Option<Seq<char>>, SseError>(e),
            },
    {
        let mut rest: Vec<u8> = Vec::new();
        std::mem::swap(&mut rest, &mut self.buffer);
        match parse_sse_line(rest.as_slice()) {
            Ok(Some(t)) => if t.as_str().is_empty() {
                Ok(None)
            } else {
                Ok(Some(t))
            },
            Ok(None) => Ok(None),
            Err(e) => Err(e),
        }
    }
}

/// Every text that the whole lines of a buffer bring, whether a line failed after
/// them, and what is left.
pub open spec fn all_texts(b: Seq<u8>) -> (Seq<Seq<char>>, bool, Seq<u8>)
    decreases b.len(),
{
    match line_break(b, 0) {
        None => (seq![], false, b),
        Some(p) => {
            let rest = b.skip(after_break(b, p));
            proof {
                lemma_line_break(b, 0);
            }
            match line_text(b.take(p)) {
                Err(_) => (seq![], true, rest),
                Ok(t) => {
                    let (texts, failed, end) = all_texts(rest);
                    let first = match t {
                        Some(t) => if t.len() > 0 {
                            seq![t]
                        } else {
                            seq![]
                        },
                        None => seq![],
                    };
                    (first + texts, failed, end)
                },
            }
        },
    }
}

/// A line feed at the start of a buffer brings nothing.
proof fn lemma_line_feed(b: Seq<u8>)
    requires
        b.len() > 0,
        b[0] == 0x0a,
    ensures
        all_texts(b) == all_texts(b.skip(1)),
{
    assert(line_break(b, 0) == Some(0int));
    assert(b.take(0) =~= seq![]);
    assert(unindented(b.take(0)) =~= seq![]);
    assert(line_text(b.take(0)) == Ok::<Option<Seq<char>>, SseError>(None));
    let (texts, _, _) = all_texts(b.skip(1));
    assert(Seq::<Seq<char>>::empty() + texts =~= texts);
}

/// How an answer is cut into pieces makes no difference to its texts, up to the
/// first line that fails. A cut may part a carriage return from its line feed.
pub proof fn law_texts_in_pieces(b: Seq<u8>, more: Seq<u8>)
    requires
        !all_texts(b).1,
    ensures
        ({
            let (first, _, rest) = all_texts(b);
            let (second, failed, end) = all_texts(rest + more);
            all_texts(b + more) == (first + second, failed, end)
        }),
    decreases b.len(),
{
    let (first, _, rest) = all_texts(b);
    let (second, failed, end) = all_texts(rest + more);
    let all = b + more;
    match line_break(b, 0) {
        None => {
            assert(first + second =~= second);
        },
        Some(p) => {
            lemma_line_break(b, 0);
            lemma_first_line_stays(b, more);
            let next = b.skip(after_break(b, p));
            let parted = b.last() == 0x0d && p + 1 == b.len() && more.len() > 0 && more[0] == 0x0a;
            if parted {
                assert(next =~= seq![]);
                assert(next + more =~= more);
                assert(all[p + 1] == more[0]);
                assert(all.skip(p + 2) =~= more.skip(1));
                lemma_line_feed(more);
            } else {
                assert(after_break(all, p) == after_break(b, p)) by {
                    if p + 1 < b.len() {
                        assert(all[p + 1] == b[p + 1]);
                    } else if p + 1 < all.len() {
                        assert(all[p + 1] == more[0]);
                        assert(b.last() == b[p]);
                    }
                }
                assert(all.skip(after_break(b, p)) =~= next + more);
            }
            assert(all_texts(all.skip(after_break(all, p))) == all_texts(next + more));
            law_texts_in_pieces(next, more);
            let (texts, _, _) = all_texts(next);
            let head = match line_text(b.take(p)) {
                Ok(Some(t)) => if t.len() > 0 {
                    seq![t]
                } else {
                    seq![]
                },
                _ => seq![],
            };
            assert(head + (texts + second) =~= (head + texts) + second);
        },
    }
}

/// Where chats are asked for: slashes at the end of the address do not count, and the
/// path is added unless it is there.
pub proof fn law_chat_address(config: OpenAiLlmConfig, base: Seq<char>, slashes: Seq<char>)
    requires
        config.base_url@ == base + slashes,
        base.len() == 0 || base.last() != '/',
        forall|i: int| 0 <= i < slashes.len() ==> #[trigger] slashes[i] == '/',
    ensures
        has_suffix(base, "/chat/completions"@) ==> config.chat_url_text() == base,
        !has_suffix(base, "/chat/completions"@) ==> config.chat_url_text() == base
            + "/chat/completions"@,
{
    law_trailing_characters(base, slashes, '/');
}

/// A style that was asked for is taken as it is. Otherwise it goes by the names: an
/// address or a model that is called after DeepSeek, or else after one of Alibaba's, in
/// any case of letters, has the style of that service, and all others get both.
#[verifier::spinoff_prover]
pub proof fn law_style_goes_by_names(
    config: OpenAiLlmConfig,
    a: Seq<char>,
    b: Seq<char>,
    name: Seq<char>,
)
    ensures
        config.thinking_style != ThinkingStyle::Auto ==> config.effective_style()
            == config.thinking_style,
        config.thinking_style == ThinkingStyle::Auto && (lowered(config.base_url@) == a
            + "deepseek"@ + b || lowered(config.model@) == a + "deepseek"@ + b)
            ==> config.effective_style() == ThinkingStyle::DeepSeek,
        config.thinking_style == ThinkingStyle::Auto && (name == "qwen"@ || name == "dashscope"@
            || name == "aliyun"@ || name == "alibaba"@) && (lowered(config.base_url@) == a + name
            + b || lowered(config.model@) == a + name + b) ==> config.effective_style()
            == ThinkingStyle::EnableThinking || config.effective_style() == ThinkingStyle::DeepSeek,
        config.thinking_style == ThinkingStyle::Auto ==> ({
            let marker = lowered(config.base_url@) + seq![' '] + lowered(config.model@);
            match config.effective_style() {
                ThinkingStyle::DeepSeek => occurs_in(marker, "deepseek"@),
                ThinkingStyle::EnableThinking => !occurs_in(marker, "deepseek"@) && (occurs_in(
                    marker,
                    "qwen"@,
                ) || occurs_in(marker, "dashscope"@) || occurs_in(marker, "aliyun"@) || occurs_in(
                    marker,
                    "alibaba"@,
                )),
                style => style == ThinkingStyle::Both && !occurs_in(marker, "deepseek"@)
                    && !occurs_in(marker, "qwen"@) && !occurs_in(marker, "dashscope"@)
                    && !occurs_in(marker, "aliyun"@) && !occurs_in(marker, "alibaba"@),
            }
        }),
{
    reveal_strlit(" ");
    assert(" "@ =~= seq![' ']);
    let url = lowered(config.base_url@);
    let model = lowered(config.model@);
    let marker = url + seq![' '] + model;
    lemma_in_marker(url, model, a, "deepseek"@, b);
    lemma_in_marker(url, model, a, name, b);
}

/// What occurs in the address or in the model occurs in the two together.
proof fn lemma_in_marker(
    url: Seq<char>,
    model: Seq<char>,
    a: Seq<char>,
    name: Seq<char>,
    b: Seq<char>,
)
    ensures
        url == a + name + b || model == a + name + b ==> occurs_in(
            url + seq![' '] + model,
            name,
        ),
{
    let marker = url + seq![' '] + model;
    if url == a + name + b {
        law_parts_occur(a, name, b + seq![' '] + model, marker);
        assert(marker =~= a + name + (b + seq![' '] + model));
    } else if model == a + name + b {
        law_parts_occur(url + seq![' '] + a, name, b, marker);
        assert(marker =~= (url + seq![' '] + a) + name + b);
    }
}

/// The members that ask a model not to think aloud: which of them a request gets, and
/// that it keeps all others.
pub proof fn law_thinking_members(m: Map<Seq<char>, JsonTree>, config: OpenAiLlmConfig)
    ensures
        ({
            let style = config.effective_style();
            let off = JsonTree::Object(map!["type"@ => JsonTree::Str("disabled"@)]);
            thinking_applied(JsonTree::Object(m), config) == JsonTree::Object(
                if !config.disable_thinking {
                    m
                } else {
                    match style {
                        ThinkingStyle::DeepSeek => m.insert("thinking"@, off),
                        ThinkingStyle::EnableThinking => m.insert(
                            "enable_thinking"@,
                            JsonTree::Bool(false),
                        ),
                        ThinkingStyle::Both => m.insert("thinking"@, off).insert(
                            "enable_thinking"@,
                            JsonTree::Bool(false),
                        ),
                        _ => m,
                    }
                },
            )
        }),
{
}

/// The request for a chat: the model, the messages and that the answer has to be
/// streamed; the temperature and the limit on tokens where they are set; and nothing else
/// but what asks the model not to think aloud.
#[verifier::spinoff_prover]
pub proof fn law_chat_request(config: OpenAiLlmConfig, prompt: Seq<char>, key: Seq<char>)
    ensures
        ({
            let t = chat_tree(config, prompt);
            let style = config.effective_style();
            let off = JsonTree::Object(map!["type"@ => JsonTree::Str("disabled"@)]);
            let says = |role: Seq<char>, content: Seq<char>|
                JsonTree::Object(
                    map!["role"@ => JsonTree::Str(role), "content"@ => JsonTree::Str(content)],
                );
            &&& t matches JsonTree::Object(m) && {
                &&& m.contains_key("model"@) && m["model"@] == JsonTree::Str(config.model@)
                &&& m.contains_key("stream"@) && m["stream"@] == JsonTree::Bool(true)
                &&& m.contains_key("messages"@) && m["messages"@] == JsonTree::Array(
                    match config.system_prompt {
                        Some(s) => if s@.len() > 0 {
                            seq![says("system"@, s@), says("user"@, prompt)]
                        } else {
                            seq![says("user"@, prompt)]
                        },
                        None => seq![says("user"@, prompt)],
                    },
                )
                &&& m.contains_key("temperature"@) == (config.temperature is Some)
                &&& config.temperature == Some(Temperature::NotFinite) ==> m["temperature"@]
                    == JsonTree::Null
                &&& config.temperature matches Some(Temperature::Finite(x)) ==> m["temperature"@]
                    == JsonTree::Real(x.number())
                &&& m.contains_key("max_tokens"@) == (config.max_tokens is Some)
                &&& config.max_tokens matches Some(n) ==> m["max_tokens"@] == JsonTree::Int(
                    n as int,
                )
                &&& m.contains_key("thinking"@) == (config.disable_thinking && (style
                    == ThinkingStyle::DeepSeek || style == ThinkingStyle::Both))
                &&& m.contains_key("thinking"@) ==> m["thinking"@] == off
                &&& m.contains_key("enable_thinking"@) == (config.disable_thinking && (style
                    == ThinkingStyle::EnableThinking || style == ThinkingStyle::Both))
                &&& m.contains_key("enable_thinking"@) ==> m["enable_thinking"@] == JsonTree::Bool(
                    false,
                )
                &&& m.contains_key(key) ==> key == "model"@ || key == "messages"@ || key
                    == "stream"@ || key == "temperature"@ || key == "max_tokens"@ || key
                    == "thinking"@ || key == "enable_thinking"@
            }
        }),
{
    reveal_strlit("model");
    reveal_strlit("messages");
    reveal_strlit("stream");
    reveal_strlit("temperature");
    reveal_strlit("max_tokens");
    reveal_strlit("thinking");
    reveal_strlit("enable_thinking");
    assert("model"@.len() == 5 && "messages"@.len() == 8 && "stream"@.len() == 6
        && "temperature"@.len() == 11 && "max_tokens"@.len() == 10 && "thinking"@.len() == 8
        && "enable_thinking"@.len() == 15);
    assert("messages"@[0] == 'm' && "thinking"@[0] == 't');
    assert(chat_message_tree("user"@, prompt) == JsonTree::Object(
        map!["role"@ => JsonTree::Str("user"@), "content"@ => JsonTree::Str(prompt)],
    ));
    match config.system_prompt {
        Some(s) => {
            assert(chat_message_tree("system"@, s@) == JsonTree::Object(
                map!["role"@ => JsonTree::Str("system"@), "content"@ => JsonTree::Str(s@)],
            ));
        },
        None => {},
    }
}

/// The content of a choice: its member `delta` has it as the member `content`.
pub open spec fn content_of(choice: JsonTree) -> Option<JsonTree> {
    match choice {
        JsonTree::Object(c) => if c.contains_key("delta"@) {
            match c["delta"@] {
                JsonTree::Object(d) => if d.contains_key("content"@) {
                    Some(d["content"@])
                } else {
                    None
                },
                _ => None,
            }
        } else {
            None
        },
        _ => None,
    }
}

/// A content has no text: it is neither a string nor a list that holds some.
pub open spec fn is_silent(content: Option<JsonTree>) -> bool {
    match content {
        Some(JsonTree::Str(_)) => false,
        Some(JsonTree::Array(parts)) => parts_text(parts).len() == 0,
        _ => true,
    }
}

/// A piece of an answer brings the text of the first choice that has one: a string as it
/// is, empty or not, or the texts of a list one after the other, if any of them holds
/// something.
pub proof fn law_first_text_counts(
    m: Map<Seq<char>, JsonTree>,
    items: Seq<JsonTree>,
    i: int,
    text: Seq<char>,
    parts: Seq<JsonTree>,
)
    requires
        m.contains_key("choices"@),
        m["choices"@] == JsonTree::Array(items),
        0 <= i <= items.len(),
        forall|j: int| 0 <= j < i ==> is_silent(content_of(#[trigger] items[j])),
    ensures
        i < items.len() && content_of(items[i]) == Some(JsonTree::Str(text)) ==> delta_text(
            JsonTree::Object(m),
        ) == Some(text),
        i < items.len() && content_of(items[i]) == Some(JsonTree::Array(parts)) && parts_text(
            parts,
        ).len() > 0 ==> delta_text(JsonTree::Object(m)) == Some(parts_text(parts)),
        i == items.len() ==> delta_text(JsonTree::Object(m)) is None,
{
    assert forall|j: int| 0 <= j < i implies choice_text(#[trigger] items[j]) is None by {
        assert(is_silent(content_of(items[j])));
    }
    lemma_first_choice(items, 0, i);
}

/// Choices without a text are passed over.
proof fn lemma_first_choice(items: Seq<JsonTree>, from: int, i: int)
    requires
        0 <= from <= i <= items.len(),
        forall|j: int| from <= j < i ==> choice_text(#[trigger] items[j]) is None,
    ensures
        first_choice_text(items, from) == first_choice_text(items, i),
    decreases i - from,
{
    if from < i {
        assert(choice_text(items[from]) is None);
        lemma_first_choice(items, from + 1, i);
    }
}

/// A piece of an answer without a list of choices brings no text.
pub proof fn law_no_choices(m: Map<Seq<char>, JsonTree>, value: JsonTree)
    ensures
        !m.contains_key("choices"@) ==> delta_text(JsonTree::Object(m)) is None,
        m.contains_key("choices"@) && !(m["choices"@] is Array) ==> delta_text(JsonTree::Object(m))
            is None,
        !(value is Object) ==> delta_text(value) is None,
{
}

/// The texts of a list: strings and the member `text` of objects, in order; anything else
/// adds nothing.
pub proof fn law_parts_are_joined(
    parts: Seq<JsonTree>,
    part: JsonTree,
    m: Map<Seq<char>, JsonTree>,
    text: Seq<char>,
)
    ensures
        parts_text(seq![]) == Seq::<char>::empty(),
        parts_text(parts.push(JsonTree::Str(text))) == parts_text(parts) + text,
        m.contains_key("text"@) && m["text"@] == JsonTree::Str(text) ==> parts_text(
            parts.push(JsonTree::Object(m)),
        ) == parts_text(parts) + text,
        !m.contains_key("text"@) || !(m["text"@] is Str) ==> parts_text(
            parts.push(JsonTree::Object(m)),
        ) == parts_text(parts),
        !(part is Str) && !(part is Object) ==> parts_text(parts.push(part)) == parts_text(parts),
{
    assert(parts.push(JsonTree::Str(text)).drop_last() =~= parts);
    assert(parts.push(JsonTree::Object(m)).drop_last() =~= parts);
    assert(parts.push(part).drop_last() =~= parts);
    assert(parts_text(parts) + Seq::<char>::empty() =~= parts_text(parts));
}

/// Bytes that are blanks and tabs throughout.
pub open spec fn is_indent(b: Seq<u8>) -> bool {
    forall|i: int| 0 <= i < b.len() ==> #[trigger] b[i] == 32 || b[i] == 9
}

/// What is in front of the first other byte is dropped.
proof fn lemma_unindented(indent: Seq<u8>, rest: Seq<u8>)
    requires
        is_indent(indent),
        rest.len() == 0 || (rest[0] != 32 && rest[0] != 9),
    ensures
        unindented(indent + rest) == rest,
    decreases indent.len(),
{
    let s = indent + rest;
    if indent.len() == 0 {
        assert(s =~= rest);
    } else {
        assert(s[0] == indent[0]);
        assert forall|i: int| 0 <= i < indent.skip(1).len() implies #[trigger] indent.skip(1)[i]
            == 32 || indent.skip(1)[i] == 9 by {
            assert(indent.skip(1)[i] == indent[i + 1]);
        }
        lemma_unindented(indent.skip(1), rest);
        assert(s.skip(1) =~= indent.skip(1) + rest);
    }
}

/// A line of the stream that starts with `data:` brings the text of the JSON after it;
/// blanks and tabs around `data:` do not count. The marker `[DONE]` brings nothing.
#[verifier::spinoff_prover]
pub proof fn law_data_lines(indent: Seq<u8>, gap: Seq<u8>, data: Seq<u8>)
    requires
        is_indent(indent),
        is_indent(gap),
        data.len() == 0 || (data[0] != 32 && data[0] != 9),
    ensures
        ({
            let line = indent + seq![100u8, 97u8, 116u8, 97u8, 58u8] + gap + data;
            if data == seq![91u8, 68u8, 79u8, 78u8, 69u8, 93u8] {
                line_text(line) == Ok::<Option<Seq<char>>, SseError>(None)
            } else {
                match json_parsed(data) {
                    Some(value) => line_text(line) == Ok::<Option<Seq<char>>, SseError>(
                        delta_text(value),
                    ),
                    None => line_text(line) == Err::<Option<Seq<char>>, SseError>(SseError),
                }
            }
        }),
{
    let field = seq![100u8, 97u8, 116u8, 97u8, 58u8];
    let line = indent + field + gap + data;
    let rest = field + gap + data;
    assert(rest[0] == 100);
    lemma_unindented(indent, rest);
    assert(line =~= indent + rest);
    assert(rest.take(5) =~= field);
    assert(rest.skip(5) =~= gap + data);
    lemma_unindented(gap, data);
}

/// Every other line brings nothing.
pub proof fn law_other_lines(indent: Seq<u8>, rest: Seq<u8>)
    requires
        is_indent(indent),
        rest.len() == 0 || (rest[0] != 32 && rest[0] != 9),
        rest.len() < 5 || rest.take(5) != seq![100u8, 97u8, 116u8, 97u8, 58u8],
    ensures
        line_text(indent + rest) == Ok::<Option<Seq<char>>, SseError>(None),
{
    lemma_unindented(indent, rest);
    if data_field().is_prefix_of(rest) {
        assert(rest.take(5) =~= data_field());
        assert(data_field() =~= seq![100u8, 97u8, 116u8, 97u8, 58u8]);
    }
}

/// The stream is read line by line. The first line with a text that is not empty gives
/// that text, one that fails gives its failure, and in either case what follows the line
/// is left; other lines are passed over, and a line without its end stays.
pub proof fn law_stream_is_read(line: Seq<u8>, end: Seq<u8>, rest: Seq<u8>)
    requires
        forall|i: int| 0 <= i < line.len() ==> #[trigger] line[i] != 10 && line[i] != 13,
        end == seq![10u8] || end == seq![13u8, 10u8] || (end == seq![13u8] && (rest.len() == 0
            || rest[0] != 10)),
    ensures
        next_text(line) == (Ok::<Option<Seq<char>>, SseError>(None), line),
        match line_text(line) {
            Ok(Some(t)) => next_text(line + end + rest) == if t.len() > 0 {
                (Ok::<Option<Seq<char>>, SseError>(Some(t)), rest)
            } else {
                next_text(rest)
            },
            Ok(None) => next_text(line + end + rest) == next_text(rest),
            Err(e) => next_text(line + end + rest) == (
                Err::<Option<Seq<char>>, SseError>(e),
                rest,
            ),
        },
{
    law_lines_are_taken(line, end, rest);
}

/// The settings of the service: which variables are read, and what stands in for one that
/// is not set. Only the key has to be there.
#[verifier::spinoff_prover]
pub proof fn law_settings(
    env: Env,
    temperature: Option<Temperature>,
    r: Result<Option<OpenAiLlmConfig>, ConfigError>,
)
    requires
        openai_configured(env, temperature, r),
    ensures
        ({
            let provider = llm_provider_text(env);
            let wanted = provider == "openai"@ || provider == "openai-compatible"@ || provider
                == "openai_compatible"@;
            let first = |a: Seq<char>, b: Seq<char>|
                match env.nonempty(a) {
                    Some(x) => Some(x),
                    None => env.nonempty(b),
                };
            let key = first("XIAOZHI_LLM_API_KEY"@, "OPENAI_API_KEY"@);
            if !wanted {
                r == Ok::<Option<OpenAiLlmConfig>, ConfigError>(None)
            } else if key is None {
                r matches Err(e) && e.message@
                    == "missing required env; expected one of XIAOZHI_LLM_API_KEY, OPENAI_API_KEY"@
            } else {
                r matches Ok(Some(c)) && {
                    let model = first("XIAOZHI_LLM_MODEL"@, "OPENAI_MODEL"@);
                    let url = first("XIAOZHI_LLM_BASE_URL"@, "OPENAI_BASE_URL"@);
                    let tokens = first("XIAOZHI_LLM_MAX_TOKENS"@, "OPENAI_MAX_TOKENS"@);
                    let off = first("XIAOZHI_LLM_DISABLE_THINKING"@, "OPENAI_DISABLE_THINKING"@);
                    &&& Some(c.api_key@) == key
                    &&& model matches Some(x) ==> c.model@ == x
                    &&& model is None ==> c.model@ == "gpt-4o-mini"@
                    &&& url matches Some(x) ==> c.base_url@ == x
                    &&& url is None ==> (env.nonempty("OPENAI_API_BASE"@) matches Some(x)
                        ==> c.base_url@ == x)
                    &&& url is None && env.nonempty("OPENAI_API_BASE"@) is None ==> c.base_url@
                        == "https://api.openai.com/v1"@
                    &&& opt_text(c.system_prompt) == first(
                        "XIAOZHI_LLM_SYSTEM_PROMPT"@,
                        "OPENAI_SYSTEM_PROMPT"@,
                    )
                    &&& c.temperature == temperature
                    &&& tokens is None ==> c.max_tokens is None
                    &&& tokens matches Some(x) ==> (parsed_uint(x, 0xffff_ffff) matches Some(n)
                        ==> c.max_tokens == Some(n as u32) && n <= 0xffff_ffff)
                    &&& tokens matches Some(x) ==> (parsed_uint(x, 0xffff_ffff) is None
                        ==> c.max_tokens is None)
                    &&& off is None ==> c.disable_thinking
                }
            }
        }),
{
}

/// The names of the styles, in any case of letters; no name, or one that is not known,
/// leaves the choice to the names of the service.
#[verifier::spinoff_prover]
pub proof fn law_style_names(name: Seq<char>)
    ensures
        (style_of(name) == ThinkingStyle::DeepSeek) == (name == "deepseek"@ || name
            == "thinking"@),
        (style_of(name) == ThinkingStyle::EnableThinking) == (name == "enable_thinking"@ || name
            == "enable-thinking"@ || name == "qwen"@ || name == "dashscope"@ || name
            == "aliyun"@),
        (style_of(name) == ThinkingStyle::Both) == (name == "both"@ || name == "all"@),
        (style_of(name) == ThinkingStyle::Off) == (name == "none"@ || name == "off"@ || name
            == "disabled"@),
{
    reveal_strlit("deepseek");
    reveal_strlit("thinking");
    reveal_strlit("enable_thinking");
    reveal_strlit("enable-thinking");
    reveal_strlit("qwen");
    reveal_strlit("dashscope");
    reveal_strlit("aliyun");
    reveal_strlit("both");
    reveal_strlit("all");
    reveal_strlit("none");
    reveal_strlit("off");
    reveal_strlit("disabled");
    assert("deepseek"@[0] == 'd' && "deepseek"@[1] == 'e' && "thinking"@[0] == 't');
    assert("enable_thinking"@[0] == 'e' && "enable-thinking"@[0] == 'e' && "qwen"@[0] == 'q'
        && "dashscope"@[0] == 'd' && "dashscope"@[1] == 'a' && "aliyun"@[1] == 'l');
    assert("both"@[0] == 'b' && "all"@[0] == 'a' && "all"@.len() == 3 && "aliyun"@.len() == 6);
    assert("none"@[0] == 'n' && "off"@[0] == 'o' && "disabled"@[0] == 'd' && "disabled"@[1]
        == 'i');
}

/// The setting of the style is read in lower case, from the first of two variables.
#[verifier::spinoff_prover]
pub proof fn law_style_setting(env: Env)
    ensures
        env.nonempty("XIAOZHI_LLM_THINKING_STYLE"@) matches Some(x) ==> style_setting(env)
            == style_of(lowered(x)),
        env.nonempty("XIAOZHI_LLM_THINKING_STYLE"@) is None ==> (env.nonempty(
            "OPENAI_THINKING_STYLE"@,
        ) matches Some(x) ==> style_setting(env) == style_of(lowered(x))),
        env.nonempty("XIAOZHI_LLM_THINKING_STYLE"@) is None && env.nonempty(
            "OPENAI_THINKING_STYLE"@,
        ) is None ==> style_setting(env) == ThinkingStyle::Auto,
{
    reveal_strlit("auto");
    let name = lowered("auto"@);
    assert(name.len() == 4 && name[0] == 'a' && name[1] == 'u');
    law_style_names(name);
    reveal_strlit("qwen");
    reveal_strlit("both");
    reveal_strlit("none");
    reveal_strlit("deepseek");
    reveal_strlit("thinking");
    reveal_strlit("enable_thinking");
    reveal_strlit("enable-thinking");
    reveal_strlit("dashscope");
    reveal_strlit("aliyun");
    reveal_strlit("all");
    reveal_strlit("off");
    reveal_strlit("disabled");
    assert("qwen"@[0] == 'q' && "both"@[0] == 'b' && "none"@[0] == 'n');
}

} // verus!
