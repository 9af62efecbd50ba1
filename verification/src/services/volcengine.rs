//! Speech synthesis over the Volcengine websocket protocol.
use crate::buf::{
    be_i32, be_u32, bytes_advance, bytes_as_slice, bytes_clone, bytes_content,
    bytes_copy_to_bytes, bytes_from_vec, bytes_get_i32, bytes_get_u32, bytes_get_u8, bytes_len,
    bytes_mut_content, bytes_to_vec, i32_be, lemma_u32_bytes, put_i32, put_u32, put_u8, u32_be,
    writes_u32,
};
use crate::audio::ogg_opus::{
    law_push_in_pieces, packet_bytes, pushed, Demux, OggError, OggOpusPacketizer,
};
use crate::env::{or, or_text, ConfigError, Env};
use crate::ids::{is_id, new_id};
use crate::json::{empty_object, json_text, Json, JsonTree};
use crate::protocol::{AudioFrame, SERVER_FRAME_DURATION_MS, SERVER_SAMPLE_RATE};
use crate::services::{tts_views, TtsEvent, TtsView, WsFrame};
use crate::text::{
    concat, is_blank, is_white_space, law_blank, lossy_text, opt_text, pair, pairs, same, to_chars,
    trimmed, utf8_lossy, utf8_string,
};
use bytes::{Bytes, BytesMut};
use vstd::prelude::*;
use vstd::utf8::{decode_utf8, encode_utf8, valid_utf8};

verus! {

/// The form in which audio comes back.
#[derive(Clone, Copy, Debug, PartialEq, Eq, Structural)]
pub enum VolcengineAudioEncoding {
    /// Volcengine returns Ogg pages; the service demuxes them to raw Opus packets
    /// before forwarding to devices.
    OggOpus,
    /// Advanced/debug mode. Payloads are forwarded as if they were raw Opus.
    RawOpus,
}

/// The encoding that a setting names.
pub open spec fn encoding_of(name: Seq<char>) -> Option<VolcengineAudioEncoding> {
    if name == "ogg_opus"@ || name == "ogg-opus"@ || name == "ogg"@ {
        Some(VolcengineAudioEncoding::OggOpus)
    } else if name == "opus"@ || name == "raw_opus"@ || name == "raw-opus"@ {
        Some(VolcengineAudioEncoding::RawOpus)
    } else {
        None
    }
}

/// The setting for the encoding.
pub open spec fn encoding_setting(env: Env) -> Seq<char> {
    or_text(env.nonempty("VOLCENGINE_TTS_ENCODING"@), "ogg_opus"@)
}

impl VolcengineAudioEncoding {
    /// The encoding that the settings ask for.
    pub fn from_env(env: &Env) -> (r: Result<Self, ConfigError>)
        ensures
            match r {
                Ok(e) => encoding_of(encoding_setting(*env)) == Some(e),
                Err(e) => encoding_of(encoding_setting(*env)) is None && e.message@
                    == "unsupported VOLCENGINE_TTS_ENCODING="@ + encoding_setting(*env)
                    + "; expected ogg_opus or raw_opus"@,
            },
    {
        let name = or(env.get_nonempty("VOLCENGINE_TTS_ENCODING"), "ogg_opus");
        let name = name.as_str();
        if same(name, "ogg_opus") || same(name, "ogg-opus") || same(name, "ogg") {
            Ok(VolcengineAudioEncoding::OggOpus)
        } else if same(name, "opus") || same(name, "raw_opus") || same(name, "raw-opus") {
            Ok(VolcengineAudioEncoding::RawOpus)
        } else {
            let message = concat("unsupported VOLCENGINE_TTS_ENCODING=", name);
            let message = concat(message.as_str(), "; expected ogg_opus or raw_opus");
            Err(ConfigError { message })
        }
    }

    /// The name of the encoding in a request.
    pub open spec fn format_text(self) -> Seq<char> {
        match self {
            VolcengineAudioEncoding::OggOpus => "ogg_opus"@,
            VolcengineAudioEncoding::RawOpus => "opus"@,
        }
    }

    /// The name of the encoding in a request.
    pub fn request_format(self) -> (r: &'static str)
        ensures
            r@ == self.format_text(),
    {
        match self {
            VolcengineAudioEncoding::OggOpus => "ogg_opus",
            VolcengineAudioEncoding::RawOpus => "opus",
        }
    }
}

/// How to reach the service.
#[derive(Clone, Debug)]
pub struct VolcengineTtsConfig {
    pub api_key: String,
    pub resource_id: String,
    pub voice_type: String,
    pub endpoint: String,
    pub encoding: VolcengineAudioEncoding,
}

/// The provider of speech synthesis that was asked for, in lower case.
pub open spec fn tts_provider(env: Env) -> Seq<char> {
    crate::text::lowered(or_text(env.var("XIAOZHI_TTS_PROVIDER"@), "mock"@))
}

/// Volcengine was asked for.
pub open spec fn tts_wanted(env: Env) -> bool {
    tts_provider(env) == "volcengine"@ || tts_provider(env) == "volc"@
}

/// The key of the service.
pub open spec fn tts_api_key(env: Env) -> Option<Seq<char>> {
    env.either("VOLCENGINE_TTS_API_KEY"@, "VOLCENGINE_API_KEY"@)
}

/// What the settings come to: the voice is looked for first, then the key, then
/// the encoding.
pub open spec fn tts_configured(env: Env, r: Result<Option<VolcengineTtsConfig>, ConfigError>) -> bool {
    match r {
        Ok(None) => !tts_wanted(env),
        Ok(Some(c)) => {
            &&& tts_wanted(env)
            &&& env.nonempty("VOLCENGINE_TTS_VOICE_TYPE"@) == Some(c.voice_type@)
            &&& tts_api_key(env) == Some(c.api_key@)
            &&& c.resource_id@ == or_text(
                env.nonempty("VOLCENGINE_TTS_RESOURCE_ID"@),
                "seed-tts-2.0"@,
            )
            &&& c.endpoint@ == or_text(
                env.nonempty("VOLCENGINE_TTS_ENDPOINT"@),
                "wss://openspeech.bytedance.com/api/v3/tts/bidirection"@,
            )
            &&& encoding_of(encoding_setting(env)) == Some(c.encoding)
        },
        Err(e) => tts_wanted(env) && if env.nonempty(
            "VOLCENGINE_TTS_VOICE_TYPE"@,
        ) is None {
            e.message@ == "missing required env VOLCENGINE_TTS_VOICE_TYPE"@
        } else if tts_api_key(env) is None {
            e.message@
                == "missing required env; expected one of VOLCENGINE_TTS_API_KEY, VOLCENGINE_API_KEY"@
        } else {
            encoding_of(encoding_setting(env)) is None && e.message@
                == "unsupported VOLCENGINE_TTS_ENCODING="@ + encoding_setting(env)
                + "; expected ogg_opus or raw_opus"@
        },
    }
}

impl VolcengineTtsConfig {
    /// The settings of the service; `None` if another provider was asked for. The
    /// voice is looked for first, then the key, then the encoding.
    pub fn from_env(env: &Env) -> (r: Result<Option<Self>, ConfigError>)
        ensures
            tts_configured(*env, r),
    {
        let provider = or(env.get("XIAOZHI_TTS_PROVIDER"), "mock");
        let provider = crate::text::to_ascii_lowercase(provider.as_str());
        if !same(provider.as_str(), "volcengine") && !same(provider.as_str(), "volc") {
            return Ok(None);
        }
        let voice_type = match env.get_nonempty("VOLCENGINE_TTS_VOICE_TYPE") {
            Some(v) => v,
            None => return Err(
                ConfigError {
                    message: "missing required env VOLCENGINE_TTS_VOICE_TYPE".to_owned(),
                },
            ),
        };
        let api_key = match env.get_either("VOLCENGINE_TTS_API_KEY", "VOLCENGINE_API_KEY") {
            Some(v) => v,
            None => return Err(
                ConfigError {
                    message:
                        "missing required env; expected one of VOLCENGINE_TTS_API_KEY, VOLCENGINE_API_KEY".to_owned(),
                },
            ),
        };
        let encoding = match VolcengineAudioEncoding::from_env(env) {
            Ok(e) => e,
            Err(e) => return Err(e),
        };
        Ok(
            Some(
                VolcengineTtsConfig {
                    api_key,
                    resource_id: or(env.get_nonempty("VOLCENGINE_TTS_RESOURCE_ID"), "seed-tts-2.0"),
                    voice_type,
                    endpoint: or(
                        env.get_nonempty("VOLCENGINE_TTS_ENDPOINT"),
                        "wss://openspeech.bytedance.com/api/v3/tts/bidirection",
                    ),
                    encoding,
                },
            ),
        )
    }
}

/// Speech synthesis by Volcengine.
#[derive(Clone, Debug)]
pub struct VolcengineTts {
    pub config: VolcengineTtsConfig,
}

impl VolcengineTts {
    pub fn new(config: VolcengineTtsConfig) -> (r: Self)
        ensures
            r.config == config,
    {
        VolcengineTts { config }
    }
}

// ---------------------------------------------------------------------------
// Messages
// ---------------------------------------------------------------------------

/// The kind of a message.
#[derive(Debug, Clone, Copy, PartialEq, Eq, Structural)]
pub enum MsgType {
    FullClientRequest,
    AudioOnlyServer,
    FullServerResponse,
    Error,
    Unknown,
}

impl MsgType {
    /// The four bits that stand for a kind.
    pub open spec fn spec_code(self) -> u8 {
        match self {
            MsgType::FullClientRequest => 0b0001,
            MsgType::AudioOnlyServer => 0b1011,
            MsgType::FullServerResponse => 0b1001,
            MsgType::Error => 0b1111,
            MsgType::Unknown => 0,
        }
    }

    /// The four bits that stand for a kind.
    #[verifier::when_used_as_spec(spec_code)]
    pub fn code(self) -> (r: u8)
        ensures
            r == self.spec_code(),
    {
        match self {
            MsgType::FullClientRequest => 0b0001,
            MsgType::AudioOnlyServer => 0b1011,
            MsgType::FullServerResponse => 0b1001,
            MsgType::Error => 0b1111,
            MsgType::Unknown => 0,
        }
    }

    /// The kind that some bits stand for.
    pub open spec fn spec_of_code(value: u8) -> MsgType {
        if value == 0b0001 {
            MsgType::FullClientRequest
        } else if value == 0b1011 {
            MsgType::AudioOnlyServer
        } else if value == 0b1001 {
            MsgType::FullServerResponse
        } else if value == 0b1111 {
            MsgType::Error
        } else {
            MsgType::Unknown
        }
    }

    /// The kind that some bits stand for.
    #[verifier::when_used_as_spec(spec_of_code)]
    pub fn of_code(value: u8) -> (r: MsgType)
        ensures
            r == Self::spec_of_code(value),
    {
        match value {
            0b0001 => MsgType::FullClientRequest,
            0b1011 => MsgType::AudioOnlyServer,
            0b1001 => MsgType::FullServerResponse,
            0b1111 => MsgType::Error,
            _ => MsgType::Unknown,
        }
    }
}

/// The pause between two characters, in milliseconds.
pub const CHARACTER_PAUSE_MS: u64 = 5;

/// The flag of a message that names an event.
pub const WITH_EVENT: u8 = 0b0100;

/// What a message is about.
#[derive(Debug, Clone, Copy, PartialEq, Eq, Structural)]
pub enum EventType {
    Unnamed,
    StartConnection,
    FinishConnection,
    ConnectionStarted,
    ConnectionFailed,
    ConnectionFinished,
    StartSession,
    FinishSession,
    SessionStarted,
    SessionFinished,
    SessionFailed,
    TaskRequest,
    TtsSentenceStart,
}

impl EventType {
    /// The number of an event.
    pub open spec fn spec_code(self) -> i32 {
        match self {
            EventType::Unnamed => 0,
            EventType::StartConnection => 1,
            EventType::FinishConnection => 2,
            EventType::ConnectionStarted => 50,
            EventType::ConnectionFailed => 51,
            EventType::ConnectionFinished => 52,
            EventType::StartSession => 100,
            EventType::FinishSession => 102,
            EventType::SessionStarted => 150,
            EventType::SessionFinished => 152,
            EventType::SessionFailed => 153,
            EventType::TaskRequest => 200,
            EventType::TtsSentenceStart => 350,
        }
    }

    /// The number of an event.
    #[verifier::when_used_as_spec(spec_code)]
    pub fn code(self) -> (r: i32)
        ensures
            r == self.spec_code(),
    {
        match self {
            EventType::Unnamed => 0,
            EventType::StartConnection => 1,
            EventType::FinishConnection => 2,
            EventType::ConnectionStarted => 50,
            EventType::ConnectionFailed => 51,
            EventType::ConnectionFinished => 52,
            EventType::StartSession => 100,
            EventType::FinishSession => 102,
            EventType::SessionStarted => 150,
            EventType::SessionFinished => 152,
            EventType::SessionFailed => 153,
            EventType::TaskRequest => 200,
            EventType::TtsSentenceStart => 350,
        }
    }

    /// The event of a number; numbers that are not known stand for none.
    pub fn of_code(value: i32) -> (r: EventType)
        ensures
            r.code() == value || (r == EventType::Unnamed && forall|e: EventType|
                #[trigger] e.code() != value),
    {
        let r = match value {
            1 => EventType::StartConnection,
            2 => EventType::FinishConnection,
            50 => EventType::ConnectionStarted,
            51 => EventType::ConnectionFailed,
            52 => EventType::ConnectionFinished,
            100 => EventType::StartSession,
            102 => EventType::FinishSession,
            150 => EventType::SessionStarted,
            152 => EventType::SessionFinished,
            153 => EventType::SessionFailed,
            200 => EventType::TaskRequest,
            350 => EventType::TtsSentenceStart,
            _ => EventType::Unnamed,
        };
        r
    }
}

/// The event that a number stands for.
pub open spec fn event_of(value: int) -> EventType {
    if exists|e: EventType| #[trigger] e.code() == value {
        choose|e: EventType| #[trigger] e.code() == value
    } else {
        EventType::Unnamed
    }
}

/// No two events have one number.
proof fn lemma_event_of(value: i32, e: EventType)
    requires
        e.code() == value || (e == EventType::Unnamed && forall|f: EventType|
            #[trigger] f.code() != value),
    ensures
        event_of(value as int) == e,
{
    if e.code() == value {
        let f = choose|f: EventType| #[trigger] f.code() == value;
        assert(f.code() == value);
        assert(f == e);
    }
}

/// Every event is found again by its number.
pub proof fn law_event_codes(e: EventType)
    ensures
        event_of(e.code() as int) == e,
{
    lemma_event_of(e.code(), e);
}

/// A message of the service.
#[derive(Debug)]
pub struct VolcMessage {
    pub msg_type: MsgType,
    pub flag: u8,
    pub event: EventType,
    pub session_id: Option<String>,
    pub payload: Bytes,
    pub error_code: u32,
}

/// What a message holds.
pub struct VolcView {
    pub msg_type: MsgType,
    pub flag: u8,
    pub event: EventType,
    pub session_id: Option<Seq<char>>,
    pub payload: Seq<u8>,
    pub error_code: u32,
}

/// Which text of a message could not be read.
#[derive(Debug, Clone, Copy, PartialEq, Eq, Structural)]
pub enum TextField {
    SessionId,
    ConnectId,
}

/// Why a message could not be read.
#[derive(Debug, Clone, Copy, PartialEq, Eq, Structural)]
pub enum VolcError {
    TooShort { len: usize },
    HeaderTruncated,
    MissingErrorCode,
    MissingSequence,
    MissingEvent,
    TextMissingLength { field: TextField },
    TextTruncated { field: TextField, declared: usize, available: usize },
    TextNotUtf8 { field: TextField },
    MissingPayloadSize,
    PayloadTruncated { declared: usize, available: usize },
}

/// Events of the connection carry no session id.
pub open spec fn has_session_id(event: EventType) -> bool {
    !(event == EventType::StartConnection || event == EventType::FinishConnection || event
        == EventType::ConnectionStarted || event == EventType::ConnectionFailed || event
        == EventType::ConnectionFinished)
}

/// Events of the connection that the server sends carry a connection id.
pub open spec fn has_connect_id(event: EventType) -> bool {
    event == EventType::ConnectionStarted || event == EventType::ConnectionFailed || event
        == EventType::ConnectionFinished
}

/// Whether an event carries a session id.
fn event_has_session_id(event: EventType) -> (r: bool)
    ensures
        r == has_session_id(event),
{
    match event {
        EventType::StartConnection => false,
        EventType::FinishConnection => false,
        EventType::ConnectionStarted => false,
        EventType::ConnectionFailed => false,
        EventType::ConnectionFinished => false,
        _ => true,
    }
}

/// A length as its field holds it.
pub open spec fn length_field(len: nat) -> Seq<u8> {
    u32_be((len as int % 0x1_0000_0000) as u32)
}

/// The wire form of a message.
pub open spec fn encoded(m: VolcView) -> Seq<u8> {
    let head = seq![0x11u8, (m.msg_type.code() << 4) | m.flag, 0x10u8, 0x00u8];
    let event = if m.flag == WITH_EVENT {
        i32_be(m.event.code()) + (if has_session_id(m.event) {
            let id = encode_utf8(or_text(m.session_id, seq![]));
            length_field(id.len()) + id
        } else {
            seq![]
        })
    } else {
        seq![]
    };
    head + event + length_field(m.payload.len()) + m.payload
}

/// A text with its length before it, and what follows.
pub open spec fn text_read(d: Seq<u8>, field: TextField) -> Result<(Seq<char>, Seq<u8>), VolcError> {
    if d.len() < 4 {
        Err(VolcError::TextMissingLength { field })
    } else {
        let len = be_u32(d.take(4));
        let rest = d.skip(4);
        if rest.len() < len {
            Err(
                VolcError::TextTruncated {
                    field,
                    declared: len as usize,
                    available: rest.len() as usize,
                },
            )
        } else if !valid_utf8(rest.take(len)) {
            Err(VolcError::TextNotUtf8 { field })
        } else {
            Ok((decode_utf8(rest.take(len)), rest.skip(len)))
        }
    }
}

/// The payload with its length before it.
pub open spec fn payload_read(d: Seq<u8>) -> Result<Seq<u8>, VolcError> {
    if d.len() < 4 {
        Err(VolcError::MissingPayloadSize)
    } else {
        let len = be_u32(d.take(4));
        let rest = d.skip(4);
        if rest.len() < len {
            Err(
                VolcError::PayloadTruncated {
                    declared: len as usize,
                    available: rest.len() as usize,
                },
            )
        } else {
            Ok(rest.take(len))
        }
    }
}

/// What follows the header. Its length, in words of four bytes, stands in the low
/// four bits of the first byte; a length under one word counts as one.
pub open spec fn after_header(data: Seq<u8>) -> Result<Seq<u8>, VolcError> {
    let more = (data[0] & 0x0f) * 4 - 4;
    let rest = data.skip(4);
    if more <= 0 {
        Ok(rest)
    } else if rest.len() < more {
        Err(VolcError::HeaderTruncated)
    } else {
        Ok(rest.skip(more))
    }
}

/// The error code, which only error messages hold, and what follows.
pub open spec fn error_code_read(msg_type: MsgType, d: Seq<u8>) -> Result<
    (u32, Seq<u8>),
    VolcError,
> {
    if msg_type != MsgType::Error {
        Ok((0u32, d))
    } else if d.len() < 4 {
        Err(VolcError::MissingErrorCode)
    } else {
        Ok((be_u32(d.take(4)) as u32, d.skip(4)))
    }
}

/// What follows the sequence number, which only flags 1 and 3 announce.
pub open spec fn after_sequence(flag: u8, d: Seq<u8>) -> Result<Seq<u8>, VolcError> {
    if flag != 0b0001 && flag != 0b0011 {
        Ok(d)
    } else if d.len() < 4 {
        Err(VolcError::MissingSequence)
    } else {
        Ok(d.skip(4))
    }
}

/// The event, the session id and what follows them.
pub open spec fn event_read(flag: u8, d: Seq<u8>) -> Result<
    (EventType, Option<Seq<char>>, Seq<u8>),
    VolcError,
> {
    if flag != WITH_EVENT {
        Ok((EventType::Unnamed, None, d))
    } else if d.len() < 4 {
        Err(VolcError::MissingEvent)
    } else {
        let event = event_of(be_i32(d.take(4)));
        let rest = d.skip(4);
        if has_session_id(event) {
            match text_read(rest, TextField::SessionId) {
                Ok((id, rest)) => Ok((event, Some(id), rest)),
                Err(e) => Err(e),
            }
        } else if has_connect_id(event) {
            match text_read(rest, TextField::ConnectId) {
                Ok((_, rest)) => Ok((event, None, rest)),
                Err(e) => Err(e),
            }
        } else {
            Ok((event, None, rest))
        }
    }
}

/// What follows the header, read by the type and the flag that stand in it.
pub open spec fn body_read(msg_type: MsgType, flag: u8, d: Seq<u8>) -> Result<VolcView, VolcError> {
    match error_code_read(msg_type, d) {
        Err(e) => Err(e),
        Ok((error_code, d)) => match after_sequence(flag, d) {
            Err(e) => Err(e),
            Ok(d) => match event_read(flag, d) {
                Err(e) => Err(e),
                Ok((event, session_id, d)) => match payload_read(d) {
                    Err(e) => Err(e),
                    Ok(payload) => Ok(
                        VolcView { msg_type, flag, event, session_id, payload, error_code },
                    ),
                },
            },
        },
    }
}

/// What a message holds, by its wire form.
pub open spec fn decoded(data: Seq<u8>) -> Result<VolcView, VolcError> {
    if data.len() < 4 {
        Err(VolcError::TooShort { len: data.len() as usize })
    } else {
        match after_header(data) {
            Err(e) => Err(e),
            Ok(d) => body_read(MsgType::of_code(data[1] >> 4), data[1] & 0x0f, d),
        }
    }
}

/// Reads a text with its length before it.
fn read_string(data: &mut Bytes, field: TextField) -> (r: Result<String, VolcError>)
    ensures
        match r {
            Ok(s) => text_read(bytes_content(*old(data)), field) == Ok::<
                (Seq<char>, Seq<u8>),
                VolcError,
            >((s@, bytes_content(*final(data)))),
            Err(e) => text_read(bytes_content(*old(data)), field) == Err::<
                (Seq<char>, Seq<u8>),
                VolcError,
            >(e),
        },
{
    if bytes_len(data) < 4 {
        return Err(VolcError::TextMissingLength { field });
    }
    let len: usize = bytes_get_u32(data) as usize;
    if bytes_len(data) < len {
        return Err(
            VolcError::TextTruncated { field, declared: len, available: bytes_len(data) },
        );
    }
    let bytes = bytes_copy_to_bytes(data, len);
    match utf8_string(bytes_to_vec(&bytes)) {
        Some(s) => Ok(s),
        None => Err(VolcError::TextNotUtf8 { field }),
    }
}

impl VolcMessage {
    pub open spec fn view(self) -> VolcView {
        VolcView {
            msg_type: self.msg_type,
            flag: self.flag,
            event: self.event,
            session_id: opt_text(self.session_id),
            payload: bytes_content(self.payload),
            error_code: self.error_code,
        }
    }

    /// A request.
    pub fn full_client(event: EventType, session_id: Option<String>, payload: Bytes) -> (r: Self)
        ensures
            r@ == (VolcView {
                msg_type: MsgType::FullClientRequest,
                flag: WITH_EVENT,
                event,
                session_id: opt_text(session_id),
                payload: bytes_content(payload),
                error_code: 0,
            }),
    {
        VolcMessage {
            msg_type: MsgType::FullClientRequest,
            flag: WITH_EVENT,
            event,
            session_id,
            payload,
            error_code: 0,
        }
    }

    /// Writes the message.
    pub fn encode(self) -> (r: Bytes)
        ensures
            bytes_content(r) == encoded(self@),
    {
        let mut out = BytesMut::new();
        put_u8(&mut out, 0x11);
        put_u8(&mut out, (self.msg_type.code() << 4) | self.flag);
        put_u8(&mut out, 0x10);
        put_u8(&mut out, 0x00);
        if self.flag == WITH_EVENT {
            put_i32(&mut out, self.event.code());
            if event_has_session_id(self.event) {
                let id = match &self.session_id {
                    Some(s) => s.as_str(),
                    None => "",
                };
                proof {
                    reveal_strlit("");
                    assert(""@ =~= seq![]);
                }
                let id_bytes = id.as_bytes();
                put_u32(&mut out, (id_bytes.len() as u64 % 0x1_0000_0000) as u32);
                out.extend_from_slice(id_bytes);
            }
        }
        let payload = bytes_as_slice(&self.payload);
        put_u32(&mut out, (payload.len() as u64 % 0x1_0000_0000) as u32);
        out.extend_from_slice(payload);
        proof {
            assert(bytes_mut_content(out) =~= encoded(self@));
        }
        out.freeze()
    }

    /// Reads a message.
    pub fn decode(data: Bytes) -> (r: Result<Self, VolcError>)
        ensures
            match r {
                Ok(m) => decoded(bytes_content(data)) == Ok::<VolcView, VolcError>(m@),
                Err(e) => decoded(bytes_content(data)) == Err::<VolcView, VolcError>(e),
            },
    {
        let ghost whole = bytes_content(data);
        let mut data = data;
        if bytes_len(&data) < 4 {
            return Err(VolcError::TooShort { len: bytes_len(&data) });
        }
        let version_and_header: u8 = bytes_get_u8(&mut data);
        let type_and_flag: u8 = bytes_get_u8(&mut data);
        let _serialization_and_compression: u8 = bytes_get_u8(&mut data);
        let _reserved: u8 = bytes_get_u8(&mut data);
        proof {
            assert(bytes_content(data) =~= whole.skip(4));
            assert(version_and_header & 0x0f <= 15) by (bit_vector);
        }
        let header_size: usize = (version_and_header & 0x0f) as usize * 4;
        if header_size > 4 {
            if bytes_len(&data) < header_size - 4 {
                return Err(VolcError::HeaderTruncated);
            }
            bytes_advance(&mut data, header_size - 4);
        }
        VolcMessage::decode_body(MsgType::of_code(type_and_flag >> 4), type_and_flag & 0x0f, data)
    }

    /// Reads what follows the header.
    fn decode_body(msg_type: MsgType, flag: u8, data: Bytes) -> (r: Result<Self, VolcError>)
        ensures
            match r {
                Ok(m) => body_read(msg_type, flag, bytes_content(data)) == Ok::<
                    VolcView,
                    VolcError,
                >(m@),
                Err(e) => body_read(msg_type, flag, bytes_content(data)) == Err::<
                    VolcView,
                    VolcError,
                >(e),
            },
    {
        let mut data = data;
        let mut error_code: u32 = 0;
        if msg_type == MsgType::Error {
            if bytes_len(&data) < 4 {
                return Err(VolcError::MissingErrorCode);
            }
            error_code = bytes_get_u32(&mut data);
        }
        if flag == 0b0001 || flag == 0b0011 {
            if bytes_len(&data) < 4 {
                return Err(VolcError::MissingSequence);
            }
            let _sequence: i32 = bytes_get_i32(&mut data);
        }
        let mut event = EventType::Unnamed;
        let mut session_id: Option<String> = None;
        if flag == WITH_EVENT {
            if bytes_len(&data) < 4 {
                return Err(VolcError::MissingEvent);
            }
            let number: i32 = bytes_get_i32(&mut data);
            event = EventType::of_code(number);
            proof {
                lemma_event_of(number, event);
            }
            if event_has_session_id(event) {
                match read_string(&mut data, TextField::SessionId) {
                    Ok(s) => {
                        session_id = Some(s);
                    },
                    Err(e) => return Err(e),
                }
            } else if event == EventType::ConnectionStarted || event == EventType::ConnectionFailed
                || event == EventType::ConnectionFinished {
                match read_string(&mut data, TextField::ConnectId) {
                    Ok(_) => {},
                    Err(e) => return Err(e),
                }
            }
        }
        if bytes_len(&data) < 4 {
            return Err(VolcError::MissingPayloadSize);
        }
        let payload_size: usize = bytes_get_u32(&mut data) as usize;
        if bytes_len(&data) < payload_size {
            return Err(
                VolcError::PayloadTruncated {
                    declared: payload_size,
                    available: bytes_len(&data),
                },
            );
        }
        let payload = bytes_copy_to_bytes(&mut data, payload_size);
        Ok(VolcMessage { msg_type, flag, event, session_id, payload, error_code })
    }
}

/// A request reads back as it was written, as long as its lengths fit in their
/// fields. A session id that an event has to carry but that was left out reads
/// back as the empty text, and one that the event does not carry is lost.
#[verifier::spinoff_prover]
#[verifier::rlimit(60)]
pub proof fn law_request_roundtrip(event: EventType, session_id: Option<Seq<char>>, payload: Seq<u8>)
    requires
        !has_connect_id(event),
        payload.len() < 0x1_0000_0000,
        encode_utf8(or_text(session_id, seq![])).len() < 0x1_0000_0000,
    ensures
        ({
            let m = VolcView {
                msg_type: MsgType::FullClientRequest,
                flag: WITH_EVENT,
                event,
                session_id,
                payload,
                error_code: 0,
            };
            decoded(encoded(m)) == Ok::<VolcView, VolcError>(
                VolcView {
                    session_id: if has_session_id(event) {
                        Some(or_text(session_id, seq![]))
                    } else {
                        None
                    },
                    ..m
                },
            )
        }),
{
    let m = VolcView {
        msg_type: MsgType::FullClientRequest,
        flag: WITH_EVENT,
        event,
        session_id,
        payload,
        error_code: 0,
    };
    let data = encoded(m);
    let text = or_text(session_id, seq![]);
    let id = encode_utf8(text);
    let tail = length_field(payload.len()) + payload;
    let rest = if has_session_id(event) {
        length_field(id.len()) + id + tail
    } else {
        tail
    };
    let body = i32_be(event.code()) + rest;
    assert((1u8 << 4) | 0b0100u8 == 0x14u8) by (bit_vector);
    assert(0x14u8 >> 4 == 1u8) by (bit_vector);
    assert(0x14u8 & 0x0f == 0b0100u8) by (bit_vector);
    assert(0x11u8 & 0x0f == 1u8) by (bit_vector);
    assert(data.skip(4) =~= body);
    assert(data[0] == 0x11u8);
    assert(data[1] == 0x14u8);
    assert(after_header(data) == Ok::<Seq<u8>, VolcError>(body));
    assert(event_read(WITH_EVENT, body) == Ok::<
        (EventType, Option<Seq<char>>, Seq<u8>),
        VolcError,
    >(
        (
            event,
            if has_session_id(event) {
                Some(text)
            } else {
                None
            },
            tail,
        ),
    )) by {
        crate::buf::lemma_i32_be(event.code());
        law_event_codes(event);
        assert(body.take(4) =~= i32_be(event.code()));
        assert(body.skip(4) =~= rest);
        if has_session_id(event) {
            lemma_text_read(text, tail, TextField::SessionId);
        }
    }
    lemma_payload_read(payload);
}

/// A text reads back as it was written.
#[verifier::spinoff_prover]
#[verifier::rlimit(60)]
proof fn lemma_text_read(text: Seq<char>, tail: Seq<u8>, field: TextField)
    requires
        encode_utf8(text).len() < 0x1_0000_0000,
    ensures
        ({
            let id = encode_utf8(text);
            text_read(length_field(id.len()) + id + tail, field) == Ok::<
                (Seq<char>, Seq<u8>),
                VolcError,
            >((text, tail))
        }),
{
    let id = encode_utf8(text);
    let d = length_field(id.len()) + id + tail;
    crate::buf::lemma_u32_be(id.len() as u32);
    vstd::utf8::encode_utf8_valid_utf8(text);
    vstd::utf8::encode_utf8_decode_utf8(text);
    assert(d.take(4) =~= length_field(id.len()));
    assert(d.skip(4).take(id.len() as int) =~= id);
    assert(d.skip(4).skip(id.len() as int) =~= tail);
}

/// A payload reads back as it was written.
proof fn lemma_payload_read(payload: Seq<u8>)
    requires
        payload.len() < 0x1_0000_0000,
    ensures
        payload_read(length_field(payload.len()) + payload) == Ok::<Seq<u8>, VolcError>(payload),
{
    let d = length_field(payload.len()) + payload;
    crate::buf::lemma_u32_be(payload.len() as u32);
    assert(d.take(4) =~= length_field(payload.len()));
    assert(d.skip(4) =~= payload);
    assert(payload.take(payload.len() as int) =~= payload);
}

// ---------------------------------------------------------------------------
// Requests
// ---------------------------------------------------------------------------

/// The headers that open a connection.
pub fn connect_headers(config: &VolcengineTtsConfig, connect_id: &str) -> (r: Vec<(String, String)>)
    ensures
        pairs(r@) == seq![
            ("X-Api-Key"@, config.api_key@),
            ("X-Api-Resource-Id"@, config.resource_id@),
            ("X-Api-Connect-Id"@, connect_id@),
            ("X-Control-Require-Usage-Tokens-Return"@, "*"@),
        ],
{
    let r = vec![
        pair("X-Api-Key", config.api_key.as_str()),
        pair("X-Api-Resource-Id", config.resource_id.as_str()),
        pair("X-Api-Connect-Id", connect_id),
        pair("X-Control-Require-Usage-Tokens-Return", "*"),
    ];
    proof {
        assert(pairs(r@) =~= seq![
            ("X-Api-Key"@, config.api_key@),
            ("X-Api-Resource-Id"@, config.resource_id@),
            ("X-Api-Connect-Id"@, connect_id@),
            ("X-Control-Require-Usage-Tokens-Return"@, "*"@),
        ]);
    }
    r
}

/// The headers that open a connection, with a connection id of its own.
pub fn connect_request(config: &VolcengineTtsConfig) -> (r: Vec<(String, String)>)
    ensures
        r@.len() == 4,
        is_id(r@[2].1@),
        pairs(r@) == seq![
            ("X-Api-Key"@, config.api_key@),
            ("X-Api-Resource-Id"@, config.resource_id@),
            ("X-Api-Connect-Id"@, r@[2].1@),
            ("X-Control-Require-Usage-Tokens-Return"@, "*"@),
        ],
{
    let id = new_id();
    let r = connect_headers(config, id.as_str());
    proof {
        assert(pairs(r@).len() == r@.len());
        assert(pairs(r@)[2] == ("X-Api-Connect-Id"@, id@));
    }
    r
}

/// The two bytes `{}`.
pub open spec fn empty_payload() -> Seq<u8> {
    seq![0x7bu8, 0x7du8]
}

/// An empty payload.
fn no_payload() -> (r: Bytes)
    ensures
        bytes_content(r) == empty_payload(),
{
    let v: Vec<u8> = vec![0x7bu8, 0x7du8];
    proof {
        assert(v@ =~= empty_payload());
    }
    bytes_from_vec(v)
}

/// What a request holds.
pub open spec fn request(event: EventType, session_id: Option<Seq<char>>, payload: Seq<u8>) -> VolcView {
    VolcView {
        msg_type: MsgType::FullClientRequest,
        flag: WITH_EVENT,
        event,
        session_id,
        payload,
        error_code: 0,
    }
}

/// How the audio is asked for.
pub open spec fn audio_tree(config: VolcengineTtsConfig) -> JsonTree {
    empty_object().with("format"@, JsonTree::Str(config.encoding.format_text())).with(
        "sample_rate"@,
        JsonTree::Int(SERVER_SAMPLE_RATE as int),
    )
}

/// How the audio is asked for.
fn audio_json(config: &VolcengineTtsConfig) -> (r: Json)
    ensures
        r.tree() == audio_tree(*config),
{
    Json::object().with("format", Json::str(config.encoding.request_format())).with(
        "sample_rate",
        Json::UInt(SERVER_SAMPLE_RATE as u64),
    )
}

/// The parameters that a session starts with.
pub open spec fn template_tree(config: VolcengineTtsConfig) -> JsonTree {
    empty_object().with("speaker"@, JsonTree::Str(config.voice_type@)).with(
        "audio_params"@,
        audio_tree(config),
    )
}

/// The parameters that a session starts with.
pub fn request_template(config: &VolcengineTtsConfig) -> (r: Json)
    ensures
        r.tree() == template_tree(*config),
{
    Json::object().with("speaker", Json::str(config.voice_type.as_str())).with(
        "audio_params",
        audio_json(config),
    )
}

/// The payload of an event with parameters.
pub open spec fn event_tree(event: EventType, params: JsonTree) -> JsonTree {
    empty_object().with("event"@, JsonTree::Int(event.code() as int)).with("req_params"@, params)
}

/// The bytes of the payload of an event with parameters.
fn event_payload(event: EventType, params: Json) -> (r: Bytes)
    ensures
        bytes_content(r) == encode_utf8(json_text(event_tree(event, params.tree()))),
{
    let json = Json::object().with("event", Json::Int(event.code() as i64)).with(
        "req_params",
        params,
    );
    bytes_from_vec(json.to_bytes())
}

/// The first message of a connection.
pub fn start_connection() -> (r: VolcMessage)
    ensures
        r@ == request(EventType::StartConnection, None, empty_payload()),
{
    VolcMessage::full_client(EventType::StartConnection, None, no_payload())
}

/// What starts a session.
pub open spec fn start_session_view(config: VolcengineTtsConfig, session_id: Seq<char>) -> VolcView {
    request(
        EventType::StartSession,
        Some(session_id),
        encode_utf8(json_text(event_tree(EventType::StartSession, template_tree(config)))),
    )
}

/// The message that starts a session.
pub fn start_session(config: &VolcengineTtsConfig, session_id: &str) -> (r: VolcMessage)
    ensures
        r@ == start_session_view(*config, session_id@),
{
    let payload = event_payload(EventType::StartSession, request_template(config));
    VolcMessage::full_client(EventType::StartSession, Some(session_id.to_owned()), payload)
}

/// The parameters of a request to speak one character.
pub open spec fn task_tree(config: VolcengineTtsConfig, ch: char) -> JsonTree {
    empty_object().with("text"@, JsonTree::Str(seq![ch])).with(
        "speaker"@,
        JsonTree::Str(config.voice_type@),
    ).with("audio_params"@, audio_tree(config))
}

/// What asks for one character to be spoken.
pub open spec fn task_view(config: VolcengineTtsConfig, session_id: Seq<char>, ch: char) -> VolcView {
    request(
        EventType::TaskRequest,
        Some(session_id),
        encode_utf8(json_text(event_tree(EventType::TaskRequest, task_tree(config, ch)))),
    )
}

/// The message that asks for one character to be spoken.
fn task_request(config: &VolcengineTtsConfig, session_id: &str, ch: char) -> (r: VolcMessage)
    ensures
        r@ == task_view(*config, session_id@, ch),
{
    let mut text = String::new();
    text.push(ch);
    proof {
        assert(text@ =~= seq![ch]);
    }
    let params = Json::object().with("text", Json::Str(text)).with(
        "speaker",
        Json::str(config.voice_type.as_str()),
    ).with("audio_params", audio_json(config));
    let payload = event_payload(EventType::TaskRequest, params);
    VolcMessage::full_client(EventType::TaskRequest, Some(session_id.to_owned()), payload)
}

/// The message that ends a session.
pub fn finish_session(session_id: &str) -> (r: VolcMessage)
    ensures
        r@ == request(EventType::FinishSession, Some(session_id@), empty_payload()),
{
    VolcMessage::full_client(EventType::FinishSession, Some(session_id.to_owned()), no_payload())
}

/// What some messages hold.
pub open spec fn message_views(v: Seq<VolcMessage>) -> Seq<VolcView> {
    v.map_values(|m: VolcMessage| m@)
}

/// What has to be sent for a piece of text: one request for each character, and
/// none for a piece that is white space throughout.
pub open spec fn text_views(config: VolcengineTtsConfig, session_id: Seq<char>, text: Seq<char>) -> Seq<
    VolcView,
> {
    if trimmed(text).len() == 0 {
        seq![]
    } else {
        text.map_values(|c: char| task_view(config, session_id, c))
    }
}

/// The messages that have to be sent for a piece of text.
pub fn text_requests(config: &VolcengineTtsConfig, session_id: &str, text: &str) -> (r: Vec<
    VolcMessage,
>)
    ensures
        message_views(r@) == text_views(*config, session_id@, text@),
{
    let mut r: Vec<VolcMessage> = Vec::new();
    if is_blank(text) {
        proof {
            assert(message_views(r@) =~= seq![]);
        }
        return r;
    }
    let chars = to_chars(text);
    for i in 0..chars.len()
        invariant
            chars@ == text@,
            r@.len() == i,
            forall|j: int|
                0 <= j < i ==> (#[trigger] r@[j])@ == task_view(*config, session_id@, text@[j]),
    {
        r.push(task_request(config, session_id, chars[i]));
    }
    proof {
        assert(message_views(r@) =~= text_views(*config, session_id@, text@));
    }
    r
}

// ---------------------------------------------------------------------------
// Answers
// ---------------------------------------------------------------------------

/// Why speech synthesis failed.
#[derive(Debug)]
pub enum TtsError {
    /// A message could not be read.
    Message(VolcError),
    /// The service closed the connection.
    Closed(String),
    /// The connection ended before the session did.
    EndedEarly,
    /// The session failed.
    SessionFailed(String),
    /// The service reports an error.
    Service { code: u32, text: String },
    /// The audio container could not be read.
    Container(OggError),
}

/// What a failure says.
pub enum TtsErrorView {
    Message(VolcError),
    Closed(Seq<char>),
    EndedEarly,
    SessionFailed(Seq<char>),
    Service { code: u32, text: Seq<char> },
    Container(OggError),
}

impl TtsError {
    pub open spec fn view(self) -> TtsErrorView {
        match self {
            TtsError::Message(e) => TtsErrorView::Message(e),
            TtsError::Closed(s) => TtsErrorView::Closed(s@),
            TtsError::EndedEarly => TtsErrorView::EndedEarly,
            TtsError::SessionFailed(s) => TtsErrorView::SessionFailed(s@),
            TtsError::Service { code, text } => TtsErrorView::Service { code, text: text@ },
            TtsError::Container(e) => TtsErrorView::Container(e),
        }
    }
}

/// What a websocket message holds; `Ok(None)` if it is of no concern.
pub open spec fn ws_decoded(frame: WsFrame) -> Result<Option<VolcView>, TtsErrorView> {
    match frame {
        WsFrame::Binary(data) => match decoded(bytes_content(data)) {
            Ok(m) => Ok(Some(m)),
            Err(e) => Err(TtsErrorView::Message(e)),
        },
        WsFrame::Text(text) => match decoded(encode_utf8(text@)) {
            Ok(m) => Ok(Some(m)),
            Err(e) => Err(TtsErrorView::Message(e)),
        },
        WsFrame::Control => Ok(None),
        WsFrame::Close(text) => Err(TtsErrorView::Closed(text@)),
    }
}

/// Reads a websocket message.
pub fn decode_ws_message(frame: WsFrame) -> (r: Result<Option<VolcMessage>, TtsError>)
    ensures
        match r {
            Ok(Some(m)) => ws_decoded(frame) == Ok::<Option<VolcView>, TtsErrorView>(Some(m@)),
            Ok(None) => ws_decoded(frame) == Ok::<Option<VolcView>, TtsErrorView>(None),
            Err(e) => ws_decoded(frame) == Err::<Option<VolcView>, TtsErrorView>(e@),
        },
{
    match frame {
        WsFrame::Binary(data) => match VolcMessage::decode(data) {
            Ok(m) => Ok(Some(m)),
            Err(e) => Err(TtsError::Message(e)),
        },
        WsFrame::Text(text) => match VolcMessage::decode(
            Bytes::copy_from_slice(text.as_str().as_bytes()),
        ) {
            Ok(m) => Ok(Some(m)),
            Err(e) => Err(TtsError::Message(e)),
        },
        WsFrame::Control => Ok(None),
        WsFrame::Close(text) => Err(TtsError::Closed(text)),
    }
}

/// What a message does while a certain event is waited for: `Ok(Some(_))` is the
/// event, `Ok(None)` has to be skipped. `None` stands for the end of the
/// connection.
pub open spec fn waited(frame: Option<WsFrame>, msg_type: MsgType, event: EventType) -> Result<
    Option<VolcView>,
    TtsErrorView,
> {
    match frame {
        None => Err(TtsErrorView::EndedEarly),
        Some(frame) => match ws_decoded(frame) {
            Ok(Some(m)) => if m.msg_type == MsgType::Error {
                Err(TtsErrorView::Service { code: m.error_code, text: lossy_text(m.payload) })
            } else if m.msg_type == msg_type && m.event == event {
                Ok(Some(m))
            } else {
                Ok(None)
            },
            Ok(None) => Ok(None),
            Err(e) => Err(e),
        },
    }
}

/// Looks at a message while a certain event is waited for.
pub fn wait_for_event(frame: Option<WsFrame>, msg_type: MsgType, event: EventType) -> (r: Result<
    Option<VolcMessage>,
    TtsError,
>)
    ensures
        match r {
            Ok(Some(m)) => waited(frame, msg_type, event) == Ok::<
                Option<VolcView>,
                TtsErrorView,
            >(Some(m@)),
            Ok(None) => waited(frame, msg_type, event) == Ok::<Option<VolcView>, TtsErrorView>(
                None,
            ),
            Err(e) => waited(frame, msg_type, event) == Err::<Option<VolcView>, TtsErrorView>(e@),
        },
{
    let frame = match frame {
        Some(f) => f,
        None => return Err(TtsError::EndedEarly),
    };
    match decode_ws_message(frame) {
        Ok(Some(m)) => {
            if m.msg_type == MsgType::Error {
                return Err(
                    TtsError::Service {
                        code: m.error_code,
                        text: utf8_lossy(bytes_as_slice(&m.payload)),
                    },
                );
            }
            if m.msg_type == msg_type && m.event == event {
                Ok(Some(m))
            } else {
                Ok(None)
            }
        },
        Ok(None) => Ok(None),
        Err(e) => Err(e),
    }
}

/// Turns the messages of a session into events.
#[derive(Debug)]
pub struct TtsReader {
    encoding: VolcengineAudioEncoding,
    demuxer: OggOpusPacketizer,
    timestamp: u32,
}

/// Where a reader stands.
pub struct Reader {
    pub encoding: VolcengineAudioEncoding,
    pub demuxer: Demux,
    pub timestamp: u32,
}

/// What came of one message.
#[derive(Debug)]
pub struct TtsStep {
    pub events: Vec<TtsEvent>,
    /// The session is over.
    pub finished: bool,
}

/// `n` frames later; the last timestamp is never passed.
pub open spec fn later(timestamp: u32, n: int) -> u32 {
    if timestamp + n * SERVER_FRAME_DURATION_MS as int > u32::MAX {
        u32::MAX
    } else {
        (timestamp + n * SERVER_FRAME_DURATION_MS as int) as u32
    }
}

/// Packets as events, one frame apart.
pub open spec fn audio_events(timestamp: u32, packets: Seq<Seq<u8>>) -> Seq<TtsView> {
    Seq::new(
        packets.len(),
        |i: int| TtsView::Audio { timestamp: later(timestamp, i), payload: packets[i] },
    )
}

/// What audio does.
pub open spec fn audio_read(s: Reader, payload: Seq<u8>) -> (Reader, Seq<TtsView>) {
    match s.encoding {
        VolcengineAudioEncoding::OggOpus => {
            let (demuxer, packets) = pushed(s.demuxer, payload);
            (
                Reader { demuxer, timestamp: later(s.timestamp, packets.len() as int), ..s },
                audio_events(s.timestamp, packets),
            )
        },
        VolcengineAudioEncoding::RawOpus => (
            Reader { timestamp: later(s.timestamp, 1), ..s },
            audio_events(s.timestamp, seq![payload]),
        ),
    }
}

/// What a message does: the events that it brings and whether the session is over.
pub open spec fn message_read(s: Reader, m: VolcView) -> Result<
    (Reader, Seq<TtsView>, bool),
    TtsErrorView,
> {
    match m.msg_type {
        MsgType::AudioOnlyServer => {
            let (next, events) = audio_read(s, m.payload);
            Ok((next, events, false))
        },
        MsgType::FullServerResponse => if m.event == EventType::SessionFailed {
            Err(TtsErrorView::SessionFailed(lossy_text(m.payload)))
        } else if m.event == EventType::TtsSentenceStart {
            Ok((s, seq![TtsView::SentenceStart(seq![])], false))
        } else {
            Ok((s, seq![], m.event == EventType::SessionFinished))
        },
        MsgType::Error => Err(
            TtsErrorView::Service { code: m.error_code, text: lossy_text(m.payload) },
        ),
        _ => Ok((s, seq![], false)),
    }
}

/// What a websocket message does; `None` stands for the end of the connection.
pub open spec fn frame_read(s: Reader, frame: Option<WsFrame>) -> Result<
    (Reader, Seq<TtsView>, bool),
    TtsErrorView,
> {
    match frame {
        None => Err(TtsErrorView::EndedEarly),
        Some(frame) => match ws_decoded(frame) {
            Ok(Some(m)) => message_read(s, m),
            Ok(None) => Ok((s, seq![], false)),
            Err(e) => Err(e),
        },
    }
}

impl TtsReader {
    pub closed spec fn view(self) -> Reader {
        Reader {
            encoding: self.encoding,
            demuxer: self.demuxer@,
            timestamp: self.timestamp,
        }
    }

    /// A reader at the start of a session.
    pub fn new(encoding: VolcengineAudioEncoding) -> (r: Self)
        ensures
            r@ == (Reader {
                encoding,
                demuxer: Demux {
                    buffer: seq![],
                    pending: seq![],
                    head_seen: false,
                    tags_seen: false,
                },
                timestamp: 0,
            }),
    {
        TtsReader { encoding, demuxer: OggOpusPacketizer::new(), timestamp: 0 }
    }

    /// Takes in the next websocket message of the session.
    pub fn on_frame(&mut self, frame: Option<WsFrame>) -> (r: Result<TtsStep, TtsError>)
        ensures
            match r {
                Ok(step) => frame_read(old(self)@, frame) == Ok::<
                    (Reader, Seq<TtsView>, bool),
                    TtsErrorView,
                >((final(self)@, tts_views(step.events@), step.finished)),
                Err(e) => {
                    &&& frame_read(old(self)@, frame) == Err::<
                        (Reader, Seq<TtsView>, bool),
                        TtsErrorView,
                    >(e@)
                    &&& final(self)@ == old(self)@
                },
            },
    {
        let frame = match frame {
            Some(f) => f,
            None => return Err(TtsError::EndedEarly),
        };
        match decode_ws_message(frame) {
            Ok(Some(m)) => self.on_message(m),
            Ok(None) => {
                let events: Vec<TtsEvent> = Vec::new();
                proof {
                    assert(tts_views(events@) =~= seq![]);
                }
                Ok(TtsStep { events, finished: false })
            },
            Err(e) => Err(e),
        }
    }

    /// Takes in the next message of the session.
    pub fn on_message(&mut self, m: VolcMessage) -> (r: Result<TtsStep, TtsError>)
        ensures
            match r {
                Ok(step) => message_read(old(self)@, m@) == Ok::<
                    (Reader, Seq<TtsView>, bool),
                    TtsErrorView,
                >((final(self)@, tts_views(step.events@), step.finished)),
                Err(e) => {
                    &&& message_read(old(self)@, m@) == Err::<
                        (Reader, Seq<TtsView>, bool),
                        TtsErrorView,
                    >(e@)
                    &&& final(self)@ == old(self)@
                },
            },
    {
        let mut events: Vec<TtsEvent> = Vec::new();
        proof {
            assert(tts_views(events@) =~= seq![]);
        }
        match m.msg_type {
            MsgType::AudioOnlyServer => {
                let packets = match self.encoding {
                    VolcengineAudioEncoding::OggOpus => match self.demuxer.push(
                        bytes_as_slice(&m.payload),
                    ) {
                        Ok(packets) => packets,
                        Err(e) => return Err(TtsError::Container(e)),
                    },
                    VolcengineAudioEncoding::RawOpus => {
                        let packets = vec![bytes_clone(&m.payload)];
                        proof {
                            assert(packet_bytes(packets@) =~= seq![bytes_content(m.payload)]);
                        }
                        packets
                    },
                };
                let events = self.on_packets(packets);
                Ok(TtsStep { events, finished: false })
            },
            MsgType::FullServerResponse => {
                if m.event == EventType::TtsSentenceStart {
                    let text = String::new();
                    proof {
                        assert(text@ =~= seq![]);
                    }
                    events.push(TtsEvent::SentenceStart(text));
                    proof {
                        assert(tts_views(events@) =~= seq![TtsView::SentenceStart(seq![])]);
                    }
                }
                if m.event == EventType::SessionFailed {
                    return Err(
                        TtsError::SessionFailed(utf8_lossy(bytes_as_slice(&m.payload))),
                    );
                }
                Ok(TtsStep { events, finished: m.event == EventType::SessionFinished })
            },
            MsgType::Error => Err(
                TtsError::Service {
                    code: m.error_code,
                    text: utf8_lossy(bytes_as_slice(&m.payload)),
                },
            ),
            _ => Ok(TtsStep { events, finished: false }),
        }
    }

    /// Gives packets their timestamps.
    fn on_packets(&mut self, packets: Vec<Bytes>) -> (r: Vec<TtsEvent>)
        ensures
            tts_views(r@) == audio_events(old(self)@.timestamp, packet_bytes(packets@)),
            final(self)@ == (Reader {
                timestamp: later(old(self)@.timestamp, packets@.len() as int),
                ..old(self)@
            }),
    {
        let mut events: Vec<TtsEvent> = Vec::new();
        let ghost first = self.timestamp;
        for payload in it: packets
            invariant
                it.seq() == packets@,
                events@.len() == it.index(),
                self.timestamp == later(first, it.index() as int),
                self@ == (Reader { timestamp: self.timestamp, ..old(self)@ }),
                forall|j: int|
                    0 <= j < events@.len() ==> (#[trigger] events@[j])@ == (TtsView::Audio {
                        timestamp: later(first, j),
                        payload: bytes_content(packets@[j]),
                    }),
        {
            events.push(TtsEvent::Audio(AudioFrame { timestamp: self.timestamp, payload }));
            self.timestamp = self.timestamp.saturating_add(SERVER_FRAME_DURATION_MS);
        }
        proof {
            assert(tts_views(events@) =~= audio_events(first, packet_bytes(packets@)));
        }
        events
    }
}

// ---------------------------------------------------------------------------
// A session
// ---------------------------------------------------------------------------

/// How far a synthesis has come.
#[derive(Debug, Clone, Copy, PartialEq, Eq, Structural)]
pub enum Phase {
    /// The connection was asked for.
    Connecting,
    /// The session was asked for.
    Starting,
    /// Text goes out and audio comes in.
    Streaming,
    /// The service has finished the session.
    Finished,
}

/// A synthesis from the first message of its connection on.
#[derive(Debug)]
pub struct Synthesis {
    pub config: VolcengineTtsConfig,
    pub session_id: String,
    pub phase: Phase,
    pub reader: TtsReader,
}

/// What has to be done after a message.
#[derive(Debug)]
pub enum SynthesisAction {
    /// Nothing; wait for the next message.
    Wait,
    /// Send this message, then wait.
    Send(Bytes),
    /// Start to send the text.
    StartWriter,
    /// Pass these events on.
    Events(Vec<TtsEvent>),
    /// Pass these events on and wait for the writer; the session is over.
    Finish(Vec<TtsEvent>),
}

/// What an action does.
pub enum SynthesisView {
    Wait,
    Send(Seq<u8>),
    StartWriter,
    Events(Seq<TtsView>),
    Finish(Seq<TtsView>),
}

impl SynthesisAction {
    pub open spec fn view(self) -> SynthesisView {
        match self {
            SynthesisAction::Wait => SynthesisView::Wait,
            SynthesisAction::Send(b) => SynthesisView::Send(bytes_content(b)),
            SynthesisAction::StartWriter => SynthesisView::StartWriter,
            SynthesisAction::Events(v) => SynthesisView::Events(tts_views(v@)),
            SynthesisAction::Finish(v) => SynthesisView::Finish(tts_views(v@)),
        }
    }
}

/// What a message does to a synthesis: the next phase, the reader after it and
/// what has to be done.
pub open spec fn synthesis_step(
    config: VolcengineTtsConfig,
    session_id: Seq<char>,
    phase: Phase,
    reader: Reader,
    frame: Option<WsFrame>,
) -> Result<(Phase, Reader, SynthesisView), TtsErrorView> {
    match phase {
        Phase::Connecting => match waited(
            frame,
            MsgType::FullServerResponse,
            EventType::ConnectionStarted,
        ) {
            Ok(Some(_)) => Ok(
                (
                    Phase::Starting,
                    reader,
                    SynthesisView::Send(encoded(start_session_view(config, session_id))),
                ),
            ),
            Ok(None) => Ok((phase, reader, SynthesisView::Wait)),
            Err(e) => Err(e),
        },
        Phase::Starting => match waited(
            frame,
            MsgType::FullServerResponse,
            EventType::SessionStarted,
        ) {
            Ok(Some(_)) => Ok((Phase::Streaming, reader, SynthesisView::StartWriter)),
            Ok(None) => Ok((phase, reader, SynthesisView::Wait)),
            Err(e) => Err(e),
        },
        Phase::Streaming => match frame_read(reader, frame) {
            Ok((next, events, true)) => Ok((Phase::Finished, next, SynthesisView::Finish(events))),
            Ok((next, events, false)) => Ok((phase, next, SynthesisView::Events(events))),
            Err(e) => Err(e),
        },
        Phase::Finished => Ok((phase, reader, SynthesisView::Wait)),
    }
}

impl Synthesis {
    /// A synthesis whose connection was just opened, and the message that asks for
    /// it.
    pub fn with_session_id(config: VolcengineTtsConfig, session_id: String) -> (r: (Self, Bytes))
        ensures
            r.0.config == config,
            r.0.session_id == session_id,
            r.0.phase == Phase::Connecting,
            r.0.reader@ == (Reader {
                encoding: config.encoding,
                demuxer: Demux {
                    buffer: seq![],
                    pending: seq![],
                    head_seen: false,
                    tags_seen: false,
                },
                timestamp: 0,
            }),
            bytes_content(r.1) == encoded(
                request(EventType::StartConnection, None, empty_payload()),
            ),
    {
        let reader = TtsReader::new(config.encoding);
        let first = start_connection().encode();
        (Synthesis { config, session_id, phase: Phase::Connecting, reader }, first)
    }

    /// A synthesis with a session id of its own.
    pub fn new(config: VolcengineTtsConfig) -> (r: (Self, Bytes))
        ensures
            r.0.config == config,
            is_id(r.0.session_id@),
            r.0.phase == Phase::Connecting,
            r.0.reader@ == (Reader {
                encoding: config.encoding,
                demuxer: Demux {
                    buffer: seq![],
                    pending: seq![],
                    head_seen: false,
                    tags_seen: false,
                },
                timestamp: 0,
            }),
            bytes_content(r.1) == encoded(
                request(EventType::StartConnection, None, empty_payload()),
            ),
    {
        Synthesis::with_session_id(config, new_id())
    }

    /// How long to wait for the next message, in seconds.
    pub fn timeout_secs(&self) -> (r: u64)
        ensures
            r == (if self.phase == Phase::Connecting || self.phase == Phase::Starting {
                15u64
            } else {
                60u64
            }),
    {
        match self.phase {
            Phase::Connecting => 15,
            Phase::Starting => 15,
            _ => 60,
        }
    }

    /// Takes in the next websocket message; `None` stands for the end of the
    /// connection.
    pub fn on_frame(&mut self, frame: Option<WsFrame>) -> (r: Result<SynthesisAction, TtsError>)
        ensures
            final(self).config == old(self).config,
            final(self).session_id == old(self).session_id,
            match r {
                Ok(action) => synthesis_step(
                    old(self).config,
                    old(self).session_id@,
                    old(self).phase,
                    old(self).reader@,
                    frame,
                ) == Ok::<(Phase, Reader, SynthesisView), TtsErrorView>(
                    (final(self).phase, final(self).reader@, action@),
                ),
                Err(e) => {
                    &&& synthesis_step(
                        old(self).config,
                        old(self).session_id@,
                        old(self).phase,
                        old(self).reader@,
                        frame,
                    ) == Err::<(Phase, Reader, SynthesisView), TtsErrorView>(e@)
                    &&& final(self).phase == old(self).phase
                    &&& final(self).reader@ == old(self).reader@
                },
            },
    {
        match self.phase {
            Phase::Connecting => match wait_for_event(
                frame,
                MsgType::FullServerResponse,
                EventType::ConnectionStarted,
            ) {
                Ok(Some(_)) => {
                    self.phase = Phase::Starting;
                    let message = start_session(&self.config, self.session_id.as_str());
                    Ok(SynthesisAction::Send(message.encode()))
                },
                Ok(None) => Ok(SynthesisAction::Wait),
                Err(e) => Err(e),
            },
            Phase::Starting => match wait_for_event(
                frame,
                MsgType::FullServerResponse,
                EventType::SessionStarted,
            ) {
                Ok(Some(_)) => {
                    self.phase = Phase::Streaming;
                    Ok(SynthesisAction::StartWriter)
                },
                Ok(None) => Ok(SynthesisAction::Wait),
                Err(e) => Err(e),
            },
            Phase::Streaming => match self.reader.on_frame(frame) {
                Ok(step) => {
                    if step.finished {
                        self.phase = Phase::Finished;
                        Ok(SynthesisAction::Finish(step.events))
                    } else {
                        Ok(SynthesisAction::Events(step.events))
                    }
                },
                Err(e) => Err(e),
            },
            Phase::Finished => Ok(SynthesisAction::Wait),
        }
    }
}

/// How Ogg audio is cut into messages makes no difference to the frames that come
/// of it, nor to their timestamps.
pub proof fn law_audio_in_pieces(s: Reader, a: Seq<u8>, b: Seq<u8>)
    requires
        s.encoding == VolcengineAudioEncoding::OggOpus,
    ensures
        ({
            let (middle, first) = audio_read(s, a);
            let (end, second) = audio_read(middle, b);
            audio_read(s, a + b) == (end, first + second)
        }),
{
    law_push_in_pieces(s.demuxer, a, b);
    let (middle, first) = pushed(s.demuxer, a);
    let (end, second) = pushed(middle, b);
    let n = first.len() as int;
    let next = later(s.timestamp, n);
    assert forall|i: int| 0 <= i implies #[trigger] later(next, i) == later(s.timestamp, n + i) by {
    }
    assert(audio_events(s.timestamp, first + second) =~= audio_events(s.timestamp, first)
        + audio_events(next, second));
}

/// The numbers of the events and of the kinds of message, and what other numbers
/// stand for.
pub proof fn law_numbers_of_events(n: int, code: u8)
    ensures
        event_of(1) == EventType::StartConnection,
        event_of(2) == EventType::FinishConnection,
        event_of(50) == EventType::ConnectionStarted,
        event_of(51) == EventType::ConnectionFailed,
        event_of(52) == EventType::ConnectionFinished,
        event_of(100) == EventType::StartSession,
        event_of(102) == EventType::FinishSession,
        event_of(150) == EventType::SessionStarted,
        event_of(152) == EventType::SessionFinished,
        event_of(153) == EventType::SessionFailed,
        event_of(200) == EventType::TaskRequest,
        event_of(350) == EventType::TtsSentenceStart,
        !(n == 1 || n == 2 || n == 50 || n == 51 || n == 52 || n == 100 || n == 102 || n == 150
            || n == 152 || n == 153 || n == 200 || n == 350) ==> event_of(n) == EventType::Unnamed,
        MsgType::spec_of_code(1) == MsgType::FullClientRequest,
        MsgType::spec_of_code(9) == MsgType::FullServerResponse,
        MsgType::spec_of_code(11) == MsgType::AudioOnlyServer,
        MsgType::spec_of_code(15) == MsgType::Error,
        !(code == 1 || code == 9 || code == 11 || code == 15) ==> MsgType::spec_of_code(code)
            == MsgType::Unknown,
{
    law_event_codes(EventType::StartConnection);
    law_event_codes(EventType::FinishConnection);
    law_event_codes(EventType::ConnectionStarted);
    law_event_codes(EventType::ConnectionFailed);
    law_event_codes(EventType::ConnectionFinished);
    law_event_codes(EventType::StartSession);
    law_event_codes(EventType::FinishSession);
    law_event_codes(EventType::SessionStarted);
    law_event_codes(EventType::SessionFinished);
    law_event_codes(EventType::SessionFailed);
    law_event_codes(EventType::TaskRequest);
    law_event_codes(EventType::TtsSentenceStart);
    law_event_codes(EventType::Unnamed);
}

/// A request is four bytes of header, the number of its event, the session id with its
/// length before it, and the payload with its length before it. The request that opens
/// a connection names no session.
#[verifier::spinoff_prover]
pub proof fn law_requests_are_framed(
    id: Seq<char>,
    id_length: Seq<u8>,
    payload: Seq<u8>,
    length: Seq<u8>,
)
    requires
        writes_u32(id_length, encode_utf8(id).len() as int),
        writes_u32(length, payload.len() as int),
    ensures
        encoded(request(EventType::StartConnection, None, payload)) == seq![
            0x11u8,
            0x14u8,
            0x10u8,
            0x00u8,
        ] + seq![0u8, 0u8, 0u8, 1u8] + length + payload,
        encoded(request(EventType::StartSession, Some(id), payload)) == seq![
            0x11u8,
            0x14u8,
            0x10u8,
            0x00u8,
        ] + seq![0u8, 0u8, 0u8, 100u8] + id_length + encode_utf8(id) + length + payload,
        encoded(request(EventType::FinishSession, Some(id), payload)) == seq![
            0x11u8,
            0x14u8,
            0x10u8,
            0x00u8,
        ] + seq![0u8, 0u8, 0u8, 102u8] + id_length + encode_utf8(id) + length + payload,
        encoded(request(EventType::TaskRequest, Some(id), payload)) == seq![
            0x11u8,
            0x14u8,
            0x10u8,
            0x00u8,
        ] + seq![0u8, 0u8, 0u8, 200u8] + id_length + encode_utf8(id) + length + payload,
{
    let id_bytes = encode_utf8(id);
    lemma_u32_bytes(id_length, id_bytes.len() as u32);
    lemma_u32_bytes(length, payload.len() as u32);
    assert(length_field(id_bytes.len()) == id_length);
    assert(length_field(payload.len()) == length);
    lemma_request_is_framed(EventType::StartSession, Some(id), payload, seq![0u8, 0u8, 0u8, 100u8]);
    lemma_request_is_framed(EventType::FinishSession, Some(id), payload, seq![0u8, 0u8, 0u8, 102u8]);
    lemma_request_is_framed(EventType::TaskRequest, Some(id), payload, seq![0u8, 0u8, 0u8, 200u8]);
    lemma_request_is_framed(EventType::StartConnection, None, payload, seq![0u8, 0u8, 0u8, 1u8]);
}

/// The parts of a request follow one another.
proof fn lemma_request_is_framed(
    event: EventType,
    id: Option<Seq<char>>,
    payload: Seq<u8>,
    number: Seq<u8>,
)
    requires
        event.code() >= 0,
        writes_u32(number, event.code() as int),
    ensures
        ({
            let head = seq![0x11u8, 0x14u8, 0x10u8, 0x00u8] + number;
            let id_bytes = encode_utf8(or_text(id, seq![]));
            encoded(request(event, id, payload)) == if has_session_id(event) {
                head + length_field(id_bytes.len()) + id_bytes + length_field(payload.len())
                    + payload
            } else {
                head + length_field(payload.len()) + payload
            }
        }),
{
    assert((1u8 << 4) | 4u8 == 0x14u8) by (bit_vector);
    lemma_u32_bytes(number, event.code() as u32);
    let id_bytes = encode_utf8(or_text(id, seq![]));
    let head = seq![0x11u8, 0x14u8, 0x10u8, 0x00u8] + number;
    if has_session_id(event) {
        assert(encoded(request(event, id, payload)) =~= head + length_field(id_bytes.len())
            + id_bytes + length_field(payload.len()) + payload);
    } else {
        assert(encoded(request(event, id, payload)) =~= head + length_field(payload.len())
            + payload);
    }
}

/// What stands after a measured run does not matter to it.
proof fn lemma_measured(length: Seq<u8>, content: Seq<u8>, rest: Seq<u8>)
    requires
        writes_u32(length, content.len() as int),
    ensures
        ({
            let d = length + content + rest;
            &&& d.len() >= 4
            &&& be_u32(d.take(4)) == content.len()
            &&& d.skip(4).len() >= content.len()
            &&& d.skip(4).take(content.len() as int) == content
            &&& d.skip(4).skip(content.len() as int) == rest
        }),
{
    let d = length + content + rest;
    assert(d.take(4) =~= length);
    assert(d.skip(4).take(content.len() as int) =~= content);
    assert(d.skip(4).skip(content.len() as int) =~= rest);
}

/// A message of the service about a session: its kind and the mark of an event stand in
/// the second byte, then come the number of the event, the session id and the payload,
/// each of the two with its length before it. What follows is not read.
#[verifier::spinoff_prover]
#[verifier::rlimit(60)]
pub proof fn law_session_messages_are_read(
    n: int,
    number: Seq<u8>,
    id: Seq<char>,
    id_length: Seq<u8>,
    payload: Seq<u8>,
    length: Seq<u8>,
    rest: Seq<u8>,
)
    requires
        0 <= n < 0x8000_0000,
        !(n == 1 || n == 2 || n == 50 || n == 51 || n == 52),
        writes_u32(number, n),
        writes_u32(id_length, encode_utf8(id).len() as int),
        writes_u32(length, payload.len() as int),
    ensures
        decoded(
            seq![0x11u8, 0x94u8, 0x10u8, 0x00u8] + number + id_length + encode_utf8(id) + length
                + payload + rest,
        ) == Ok::<VolcView, VolcError>(
            VolcView {
                msg_type: MsgType::FullServerResponse,
                flag: 4,
                event: event_of(n),
                session_id: Some(id),
                payload,
                error_code: 0,
            },
        ),
        decoded(
            seq![0x11u8, 0xb4u8, 0x10u8, 0x00u8] + number + id_length + encode_utf8(id) + length
                + payload + rest,
        ) == Ok::<VolcView, VolcError>(
            VolcView {
                msg_type: MsgType::AudioOnlyServer,
                flag: 4,
                event: event_of(n),
                session_id: Some(id),
                payload,
                error_code: 0,
            },
        ),
{
    assert(0x94u8 >> 4 == 9u8 && 0x94u8 & 0x0f == 4u8 && 0xb4u8 >> 4 == 11u8 && 0xb4u8 & 0x0f
        == 4u8 && 0x11u8 & 0x0f == 1u8) by (bit_vector);
    law_numbers_of_events(n, 0);
    let id_bytes = encode_utf8(id);
    vstd::utf8::encode_utf8_valid_utf8(id);
    vstd::utf8::encode_utf8_decode_utf8(id);
    let tail = length + payload + rest;
    let after = id_length + id_bytes + tail;
    let body = number + after;
    lemma_measured(length, payload, rest);
    lemma_measured(id_length, id_bytes, tail);
    assert(payload_read(tail) == Ok::<Seq<u8>, VolcError>(payload));
    assert(text_read(after, TextField::SessionId) == Ok::<(Seq<char>, Seq<u8>), VolcError>(
        (id, tail),
    ));
    assert(body.take(4) =~= number);
    assert(body.skip(4) =~= after);
    assert(be_i32(number) == n);
    assert(event_read(4, body) == Ok::<(EventType, Option<Seq<char>>, Seq<u8>), VolcError>(
        (event_of(n), Some(id), tail),
    ));
    let response = seq![0x11u8, 0x94u8, 0x10u8, 0x00u8] + number + id_length + id_bytes + length
        + payload + rest;
    let audio = seq![0x11u8, 0xb4u8, 0x10u8, 0x00u8] + number + id_length + id_bytes + length
        + payload + rest;
    assert(response.skip(4) =~= body);
    assert(audio.skip(4) =~= body);
    assert(response[0] == 0x11u8 && response[1] == 0x94u8);
    assert(audio[0] == 0x11u8 && audio[1] == 0xb4u8);
}

/// A message of the service about its connection: the number of the event, a connection
/// id and the payload. The id is not kept.
#[verifier::spinoff_prover]
#[verifier::rlimit(60)]
pub proof fn law_connection_messages_are_read(
    n: int,
    number: Seq<u8>,
    id: Seq<char>,
    id_length: Seq<u8>,
    payload: Seq<u8>,
    length: Seq<u8>,
    rest: Seq<u8>,
)
    requires
        n == 50 || n == 51 || n == 52,
        writes_u32(number, n),
        writes_u32(id_length, encode_utf8(id).len() as int),
        writes_u32(length, payload.len() as int),
    ensures
        decoded(
            seq![0x11u8, 0x94u8, 0x10u8, 0x00u8] + number + id_length + encode_utf8(id) + length
                + payload + rest,
        ) == Ok::<VolcView, VolcError>(
            VolcView {
                msg_type: MsgType::FullServerResponse,
                flag: 4,
                event: event_of(n),
                session_id: None,
                payload,
                error_code: 0,
            },
        ),
{
    assert(0x94u8 >> 4 == 9u8 && 0x94u8 & 0x0f == 4u8 && 0x11u8 & 0x0f == 1u8) by (bit_vector);
    law_numbers_of_events(n, 0);
    let id_bytes = encode_utf8(id);
    vstd::utf8::encode_utf8_valid_utf8(id);
    let tail = length + payload + rest;
    let after = id_length + id_bytes + tail;
    let body = number + after;
    lemma_measured(length, payload, rest);
    lemma_measured(id_length, id_bytes, tail);
    assert(payload_read(tail) == Ok::<Seq<u8>, VolcError>(payload));
    assert(text_read(after, TextField::ConnectId) is Ok);
    assert(body.take(4) =~= number);
    assert(body.skip(4) =~= after);
    assert(be_i32(number) == n);
    assert(event_read(4, body) == Ok::<(EventType, Option<Seq<char>>, Seq<u8>), VolcError>(
        (event_of(n), None, tail),
    ));
    let response = seq![0x11u8, 0x94u8, 0x10u8, 0x00u8] + number + id_length + id_bytes + length
        + payload + rest;
    assert(response.skip(4) =~= body);
    assert(response[0] == 0x11u8 && response[1] == 0x94u8);
}

/// Messages that name no event: audio, with or without a sequence number before its
/// length, and errors, with their code. A longer header is passed over.
#[verifier::spinoff_prover]
#[verifier::rlimit(60)]
pub proof fn law_plain_messages_are_read(
    code: u32,
    code_bytes: Seq<u8>,
    four: Seq<u8>,
    payload: Seq<u8>,
    length: Seq<u8>,
    rest: Seq<u8>,
)
    requires
        writes_u32(code_bytes, code as int),
        four.len() == 4,
        writes_u32(length, payload.len() as int),
    ensures
        ({
            let audio = |flag: u8|
                Ok::<VolcView, VolcError>(
                    VolcView {
                        msg_type: MsgType::AudioOnlyServer,
                        flag,
                        event: EventType::Unnamed,
                        session_id: None,
                        payload,
                        error_code: 0,
                    },
                );
            let tail = length + payload + rest;
            &&& decoded(seq![0x11u8, 0xb0u8, 0x10u8, 0x00u8] + tail) == audio(0)
            &&& decoded(seq![0x11u8, 0xb1u8, 0x10u8, 0x00u8] + four + tail) == audio(1)
            &&& decoded(seq![0x11u8, 0xb2u8, 0x10u8, 0x00u8] + tail) == audio(2)
            &&& decoded(seq![0x11u8, 0xb3u8, 0x10u8, 0x00u8] + four + tail) == audio(3)
            &&& decoded(seq![0x12u8, 0xb0u8, 0x10u8, 0x00u8] + four + tail) == audio(0)
            &&& decoded(seq![0x11u8, 0xf0u8, 0x10u8, 0x00u8] + code_bytes + tail) == Ok::<
                VolcView,
                VolcError,
            >(
                VolcView {
                    msg_type: MsgType::Error,
                    flag: 0,
                    event: EventType::Unnamed,
                    session_id: None,
                    payload,
                    error_code: code,
                },
            )
        }),
{
    assert(0xb0u8 >> 4 == 11u8 && 0xb1u8 >> 4 == 11u8 && 0xb2u8 >> 4 == 11u8 && 0xb3u8 >> 4
        == 11u8 && 0xf0u8 >> 4 == 15u8) by (bit_vector);
    assert(0xb0u8 & 0x0f == 0u8 && 0xb1u8 & 0x0f == 1u8 && 0xb2u8 & 0x0f == 2u8 && 0xb3u8 & 0x0f
        == 3u8 && 0xf0u8 & 0x0f == 0u8 && 0x11u8 & 0x0f == 1u8 && 0x12u8 & 0x0f == 2u8)
        by (bit_vector);
    let tail = length + payload + rest;
    lemma_measured(length, payload, rest);
    assert(payload_read(tail) == Ok::<Seq<u8>, VolcError>(payload));
    assert((four + tail).skip(4) =~= tail);
    assert((code_bytes + tail).skip(4) =~= tail);
    assert((code_bytes + tail).take(4) =~= code_bytes);
    let d0 = seq![0x11u8, 0xb0u8, 0x10u8, 0x00u8] + tail;
    assert(d0.skip(4) =~= tail && d0[0] == 0x11u8 && d0[1] == 0xb0u8);
    let d1 = seq![0x11u8, 0xb1u8, 0x10u8, 0x00u8] + four + tail;
    assert(d1.skip(4) =~= four + tail && d1[0] == 0x11u8 && d1[1] == 0xb1u8);
    let d2 = seq![0x11u8, 0xb2u8, 0x10u8, 0x00u8] + tail;
    assert(d2.skip(4) =~= tail && d2[0] == 0x11u8 && d2[1] == 0xb2u8);
    let d3 = seq![0x11u8, 0xb3u8, 0x10u8, 0x00u8] + four + tail;
    assert(d3.skip(4) =~= four + tail && d3[0] == 0x11u8 && d3[1] == 0xb3u8);
    let d4 = seq![0x12u8, 0xb0u8, 0x10u8, 0x00u8] + four + tail;
    assert(d4.skip(4) =~= four + tail && d4[0] == 0x12u8 && d4[1] == 0xb0u8);
    let d5 = seq![0x11u8, 0xf0u8, 0x10u8, 0x00u8] + code_bytes + tail;
    assert(d5.skip(4) =~= code_bytes + tail && d5[0] == 0x11u8 && d5[1] == 0xf0u8);
    assert(be_u32(code_bytes) as u32 == code);
}

/// A message is cut short where its bytes end before its payload does, and four bytes are
/// the least that can be read.
#[verifier::spinoff_prover]
pub proof fn law_cut_messages_are_refused(data: Seq<u8>, declared: int, length: Seq<u8>, rest: Seq<u8>)
    requires
        writes_u32(length, declared),
        rest.len() < declared,
    ensures
        data.len() < 4 ==> decoded(data) == Err::<VolcView, VolcError>(
            VolcError::TooShort { len: data.len() as usize },
        ),
        decoded(seq![0x11u8, 0xb0u8, 0x10u8, 0x00u8] + length + rest) == Err::<
            VolcView,
            VolcError,
        >(
            VolcError::PayloadTruncated {
                declared: declared as usize,
                available: rest.len() as usize,
            },
        ),
        decoded(seq![0x11u8, 0xb0u8, 0x10u8, 0x00u8]) == Err::<VolcView, VolcError>(
            VolcError::MissingPayloadSize,
        ),
        decoded(seq![0x11u8, 0xf0u8, 0x10u8, 0x00u8]) == Err::<VolcView, VolcError>(
            VolcError::MissingErrorCode,
        ),
        decoded(seq![0x11u8, 0xb1u8, 0x10u8, 0x00u8]) == Err::<VolcView, VolcError>(
            VolcError::MissingSequence,
        ),
        decoded(seq![0x11u8, 0xb4u8, 0x10u8, 0x00u8]) == Err::<VolcView, VolcError>(
            VolcError::MissingEvent,
        ),
        decoded(seq![0x12u8, 0xb4u8, 0x10u8, 0x00u8]) == Err::<VolcView, VolcError>(
            VolcError::HeaderTruncated,
        ),
{
    assert(0xb0u8 >> 4 == 11u8 && 0xb1u8 >> 4 == 11u8 && 0xb4u8 >> 4 == 11u8 && 0xf0u8 >> 4
        == 15u8) by (bit_vector);
    assert(0xb0u8 & 0x0f == 0u8 && 0xb1u8 & 0x0f == 1u8 && 0xb4u8 & 0x0f == 4u8 && 0xf0u8 & 0x0f
        == 0u8 && 0x11u8 & 0x0f == 1u8 && 0x12u8 & 0x0f == 2u8) by (bit_vector);
    let d = seq![0x11u8, 0xb0u8, 0x10u8, 0x00u8] + length + rest;
    assert(d.skip(4).take(4) =~= length);
    assert(d.skip(4).skip(4) =~= rest);
}

/// What is asked of the service: the voice and the form of the audio when a session
/// starts, and with each character that has to be spoken.
pub proof fn law_requests_carry_the_settings(config: VolcengineTtsConfig, id: Seq<char>, ch: char)
    ensures
        ({
            let format = match config.encoding {
                VolcengineAudioEncoding::OggOpus => "ogg_opus"@,
                VolcengineAudioEncoding::RawOpus => "opus"@,
            };
            let audio = JsonTree::Object(
                map![
                    "format"@ => JsonTree::Str(format),
                    "sample_rate"@ => JsonTree::Int(24_000),
                ],
            );
            let start = JsonTree::Object(
                map![
                    "event"@ => JsonTree::Int(100),
                    "req_params"@ => JsonTree::Object(
                        map![
                            "speaker"@ => JsonTree::Str(config.voice_type@),
                            "audio_params"@ => audio,
                        ],
                    ),
                ],
            );
            let task = JsonTree::Object(
                map![
                    "event"@ => JsonTree::Int(200),
                    "req_params"@ => JsonTree::Object(
                        map![
                            "text"@ => JsonTree::Str(seq![ch]),
                            "speaker"@ => JsonTree::Str(config.voice_type@),
                            "audio_params"@ => audio,
                        ],
                    ),
                ],
            );
            &&& start_session_view(config, id).payload == encode_utf8(json_text(start))
            &&& start_session_view(config, id) == request(
                EventType::StartSession,
                Some(id),
                encode_utf8(json_text(start)),
            )
            &&& task_view(config, id, ch) == request(
                EventType::TaskRequest,
                Some(id),
                encode_utf8(json_text(task)),
            )
            &&& empty_payload() == seq![123u8, 125u8]
        }),
{
}

/// Every character of a text is asked for on its own and in order, white space too. A
/// text that is white space throughout asks for nothing.
pub proof fn law_every_character_is_asked_for(
    config: VolcengineTtsConfig,
    id: Seq<char>,
    text: Seq<char>,
)
    ensures
        ({
            let r = text_views(config, id, text);
            if exists|i: int| 0 <= i < text.len() && !is_white_space(#[trigger] text[i]) {
                &&& r.len() == text.len()
                &&& forall|i: int|
                    0 <= i < text.len() ==> #[trigger] r[i] == task_view(config, id, text[i])
            } else {
                r.len() == 0
            }
        }),
{
    law_blank(text);
}

/// What a websocket message holds: the message of the service in a binary or a text
/// message, and nothing in one that only keeps the connection up.
pub proof fn law_websocket_messages(data: Bytes, text: String, m: VolcView, e: VolcError)
    ensures
        decoded(bytes_content(data)) == Ok::<VolcView, VolcError>(m) ==> ws_decoded(
            WsFrame::Binary(data),
        ) == Ok::<Option<VolcView>, TtsErrorView>(Some(m)),
        decoded(bytes_content(data)) == Err::<VolcView, VolcError>(e) ==> ws_decoded(
            WsFrame::Binary(data),
        ) == Err::<Option<VolcView>, TtsErrorView>(TtsErrorView::Message(e)),
        decoded(encode_utf8(text@)) == Ok::<VolcView, VolcError>(m) ==> ws_decoded(
            WsFrame::Text(text),
        ) == Ok::<Option<VolcView>, TtsErrorView>(Some(m)),
        decoded(encode_utf8(text@)) == Err::<VolcView, VolcError>(e) ==> ws_decoded(
            WsFrame::Text(text),
        ) == Err::<Option<VolcView>, TtsErrorView>(TtsErrorView::Message(e)),
        ws_decoded(WsFrame::Control) == Ok::<Option<VolcView>, TtsErrorView>(None),
        ws_decoded(WsFrame::Close(text)) == Err::<Option<VolcView>, TtsErrorView>(
            TtsErrorView::Closed(text@),
        ),
{
}

/// Audio is passed on packet by packet: what each message brings keeps its order, and
/// frames are 60 ms apart until the timestamp can grow no more.
pub proof fn law_audio_is_passed_on(s: Reader, m: VolcView, packets: Seq<Seq<u8>>, i: int)
    requires
        m.msg_type == MsgType::AudioOnlyServer,
        packets == (match s.encoding {
            VolcengineAudioEncoding::OggOpus => pushed(s.demuxer, m.payload).1,
            VolcengineAudioEncoding::RawOpus => seq![m.payload],
        }),
    ensures
        message_read(s, m) matches Ok((next, events, finished)) && {
            let reaches = |n: int, t: u32|
                (s.timestamp + 60 * n <= 0xffff_ffff ==> t == s.timestamp + 60 * n) && (s.timestamp
                    + 60 * n > 0xffff_ffff ==> t == 0xffff_ffffu32);
            &&& !finished
            &&& next.encoding == s.encoding
            &&& s.encoding == VolcengineAudioEncoding::RawOpus ==> next.demuxer == s.demuxer
            &&& s.encoding == VolcengineAudioEncoding::OggOpus ==> next.demuxer == pushed(
                s.demuxer,
                m.payload,
            ).0
            &&& events.len() == packets.len()
            &&& 0 <= i < packets.len() ==> events[i] is Audio && events[i]->payload == packets[i]
                && reaches(i, events[i]->timestamp)
            &&& reaches(packets.len() as int, next.timestamp)
        },
{
}

/// What the other messages of a session do. A failed session and an error of the service
/// end in that error; the start of a sentence is passed on without its text; the service
/// says when the session is over; nothing else does anything.
pub proof fn law_session_messages(s: Reader, m: VolcView)
    ensures
        m.msg_type == MsgType::Error ==> message_read(s, m) == Err::<
            (Reader, Seq<TtsView>, bool),
            TtsErrorView,
        >(TtsErrorView::Service { code: m.error_code, text: lossy_text(m.payload) }),
        m.msg_type == MsgType::FullServerResponse && m.event == EventType::SessionFailed
            ==> message_read(s, m) == Err::<(Reader, Seq<TtsView>, bool), TtsErrorView>(
            TtsErrorView::SessionFailed(lossy_text(m.payload)),
        ),
        m.msg_type == MsgType::FullServerResponse && m.event == EventType::TtsSentenceStart
            ==> message_read(s, m) == Ok::<(Reader, Seq<TtsView>, bool), TtsErrorView>(
            (s, seq![TtsView::SentenceStart(seq![])], false),
        ),
        m.msg_type == MsgType::FullServerResponse && m.event == EventType::SessionFinished
            ==> message_read(s, m) == Ok::<(Reader, Seq<TtsView>, bool), TtsErrorView>(
            (s, seq![], true),
        ),
        (m.msg_type == MsgType::FullServerResponse && m.event != EventType::SessionFailed && m.event
            != EventType::TtsSentenceStart && m.event != EventType::SessionFinished) || m.msg_type
            == MsgType::FullClientRequest || m.msg_type == MsgType::Unknown ==> message_read(s, m)
            == Ok::<(Reader, Seq<TtsView>, bool), TtsErrorView>((s, seq![], false)),
{
}

/// A synthesis waits for the connection, then for the session, and speaks only after
/// that. Messages about anything else are passed over; an error of the service or the end
/// of the connection is final.
pub proof fn law_synthesis_starts(
    config: VolcengineTtsConfig,
    id: Seq<char>,
    reader: Reader,
    frame: WsFrame,
    m: VolcView,
)
    requires
        ws_decoded(frame) == Ok::<Option<VolcView>, TtsErrorView>(Some(m)),
    ensures
        ({
            let connecting = synthesis_step(config, id, Phase::Connecting, reader, Some(frame));
            let starting = synthesis_step(config, id, Phase::Starting, reader, Some(frame));
            let service = Err::<(Phase, Reader, SynthesisView), TtsErrorView>(
                TtsErrorView::Service { code: m.error_code, text: lossy_text(m.payload) },
            );
            &&& m.msg_type == MsgType::Error ==> connecting == service && starting == service
            &&& m.msg_type != MsgType::Error ==> {
                &&& connecting == Ok::<(Phase, Reader, SynthesisView), TtsErrorView>(
                    if m.msg_type == MsgType::FullServerResponse && m.event
                        == EventType::ConnectionStarted {
                        (
                            Phase::Starting,
                            reader,
                            SynthesisView::Send(encoded(start_session_view(config, id))),
                        )
                    } else {
                        (Phase::Connecting, reader, SynthesisView::Wait)
                    },
                )
                &&& starting == Ok::<(Phase, Reader, SynthesisView), TtsErrorView>(
                    if m.msg_type == MsgType::FullServerResponse && m.event
                        == EventType::SessionStarted {
                        (Phase::Streaming, reader, SynthesisView::StartWriter)
                    } else {
                        (Phase::Starting, reader, SynthesisView::Wait)
                    },
                )
            }
        }),
{
}

/// While text goes out, every event that a message brings is passed on, and the
/// synthesis is over as soon as the service says so.
pub proof fn law_synthesis_streams(
    config: VolcengineTtsConfig,
    id: Seq<char>,
    reader: Reader,
    frame: WsFrame,
    m: VolcView,
    next: Reader,
    events: Seq<TtsView>,
    e: TtsErrorView,
)
    requires
        ws_decoded(frame) == Ok::<Option<VolcView>, TtsErrorView>(Some(m)),
    ensures
        ({
            let step = synthesis_step(config, id, Phase::Streaming, reader, Some(frame));
            &&& message_read(reader, m) == Ok::<(Reader, Seq<TtsView>, bool), TtsErrorView>(
                (next, events, true),
            ) ==> step == Ok::<(Phase, Reader, SynthesisView), TtsErrorView>(
                (Phase::Finished, next, SynthesisView::Finish(events)),
            )
            &&& message_read(reader, m) == Ok::<(Reader, Seq<TtsView>, bool), TtsErrorView>(
                (next, events, false),
            ) ==> step == Ok::<(Phase, Reader, SynthesisView), TtsErrorView>(
                (Phase::Streaming, next, SynthesisView::Events(events)),
            )
            &&& message_read(reader, m) == Err::<(Reader, Seq<TtsView>, bool), TtsErrorView>(e)
                ==> step == Err::<(Phase, Reader, SynthesisView), TtsErrorView>(e)
        }),
{
}

/// In every phase but the last, the end of the connection is an error, and so is what
/// cannot be read; a message that only keeps the connection up changes nothing. A
/// synthesis that is over takes no notice of anything.
pub proof fn law_synthesis_is_cut(
    config: VolcengineTtsConfig,
    id: Seq<char>,
    phase: Phase,
    reader: Reader,
    frame: WsFrame,
    e: TtsErrorView,
)
    ensures
        phase != Phase::Finished ==> {
            &&& synthesis_step(config, id, phase, reader, None) == Err::<
                (Phase, Reader, SynthesisView),
                TtsErrorView,
            >(TtsErrorView::EndedEarly)
            &&& ws_decoded(frame) == Err::<Option<VolcView>, TtsErrorView>(e) ==> synthesis_step(
                config,
                id,
                phase,
                reader,
                Some(frame),
            ) == Err::<(Phase, Reader, SynthesisView), TtsErrorView>(e)
            &&& ws_decoded(frame) == Ok::<Option<VolcView>, TtsErrorView>(None) ==> synthesis_step(
                config,
                id,
                phase,
                reader,
                Some(frame),
            ) == Ok::<(Phase, Reader, SynthesisView), TtsErrorView>(
                (
                    phase,
                    reader,
                    if phase == Phase::Streaming {
                        SynthesisView::Events(seq![])
                    } else {
                        SynthesisView::Wait
                    },
                ),
            )
        },
        synthesis_step(config, id, Phase::Finished, reader, Some(frame)) == Ok::<
            (Phase, Reader, SynthesisView),
            TtsErrorView,
        >((Phase::Finished, reader, SynthesisView::Wait)),
{
}

/// The settings of the service: which variables are read, which names of the encoding
/// are known, and what stands in for a variable that is not set.
#[verifier::spinoff_prover]
pub proof fn law_settings(env: Env, c: VolcengineTtsConfig)
    requires
        tts_configured(env, Ok(Some(c))),
    ensures
        tts_provider(env) == "volcengine"@ || tts_provider(env) == "volc"@,
        env.nonempty("VOLCENGINE_TTS_VOICE_TYPE"@) == Some(c.voice_type@),
        env.nonempty("VOLCENGINE_TTS_API_KEY"@) matches Some(key) ==> c.api_key@ == key,
        env.nonempty("VOLCENGINE_TTS_API_KEY"@) is None ==> env.nonempty("VOLCENGINE_API_KEY"@)
            == Some(c.api_key@),
        env.nonempty("VOLCENGINE_TTS_RESOURCE_ID"@) matches Some(x) ==> c.resource_id@ == x,
        env.nonempty("VOLCENGINE_TTS_RESOURCE_ID"@) is None ==> c.resource_id@ == "seed-tts-2.0"@,
        env.nonempty("VOLCENGINE_TTS_ENDPOINT"@) matches Some(x) ==> c.endpoint@ == x,
        env.nonempty("VOLCENGINE_TTS_ENDPOINT"@) is None ==> c.endpoint@
            == "wss://openspeech.bytedance.com/api/v3/tts/bidirection"@,
        env.nonempty("VOLCENGINE_TTS_ENCODING"@) is None ==> c.encoding
            == VolcengineAudioEncoding::OggOpus,
        env.nonempty("VOLCENGINE_TTS_ENCODING"@) matches Some(x) ==> if x == "ogg_opus"@ || x
            == "ogg-opus"@ || x == "ogg"@ {
            c.encoding == VolcengineAudioEncoding::OggOpus
        } else {
            (x == "opus"@ || x == "raw_opus"@ || x == "raw-opus"@) && c.encoding
                == VolcengineAudioEncoding::RawOpus
        },
{
}

/// Without a voice, without a key or with an encoding that is not known there are no
/// settings, and the first of these that is missing is named. Another provider needs
/// none of them.
#[verifier::spinoff_prover]
pub proof fn law_settings_are_asked_for(
    env: Env,
    r: Result<Option<VolcengineTtsConfig>, ConfigError>,
)
    requires
        tts_configured(env, r),
    ensures
        env.var("XIAOZHI_TTS_PROVIDER"@) is None ==> r == Ok::<
            Option<VolcengineTtsConfig>,
            ConfigError,
        >(None),
        env.var("XIAOZHI_TTS_PROVIDER"@) matches Some(x) ==> tts_provider(env)
            == crate::text::lowered(x),
        ({
            let wanted = tts_provider(env) == "volcengine"@ || tts_provider(env) == "volc"@;
            let voice = env.nonempty("VOLCENGINE_TTS_VOICE_TYPE"@);
            let key = env.nonempty("VOLCENGINE_TTS_API_KEY"@) is Some || env.nonempty(
                "VOLCENGINE_API_KEY"@,
            ) is Some;
            let encoding = env.nonempty("VOLCENGINE_TTS_ENCODING"@);
            let known = encoding matches Some(x) ==> (x == "ogg_opus"@ || x == "ogg-opus"@ || x
                == "ogg"@ || x == "opus"@ || x == "raw_opus"@ || x == "raw-opus"@);
            if !wanted {
                r == Ok::<Option<VolcengineTtsConfig>, ConfigError>(None)
            } else if voice is None {
                r matches Err(e) && e.message@
                    == "missing required env VOLCENGINE_TTS_VOICE_TYPE"@
            } else if !key {
                r matches Err(e) && e.message@
                    == "missing required env; expected one of VOLCENGINE_TTS_API_KEY, VOLCENGINE_API_KEY"@
            } else if !known {
                r matches Err(e) && e.message@ == "unsupported VOLCENGINE_TTS_ENCODING="@
                    + encoding->0 + "; expected ogg_opus or raw_opus"@
            } else {
                r matches Ok(Some(_))
            }
        }),
{
    reveal_strlit("mock");
    reveal_strlit("volc");
    reveal_strlit("volcengine");
    let name = crate::text::lowered("mock"@);
    assert(name.len() == 4);
    assert(name[0] != 'v');
    assert("volc"@[0] == 'v');
}

/// A session id or a connection id is refused where it is missing, cut short or not
/// UTF-8.
#[verifier::spinoff_prover]
pub proof fn law_ids_are_checked(
    n: int,
    number: Seq<u8>,
    length: Seq<u8>,
    declared: int,
    rest: Seq<u8>,
    few: Seq<u8>,
)
    requires
        0 <= n < 0x8000_0000,
        n != 1,
        n != 2,
        writes_u32(number, n),
        writes_u32(length, declared),
        few.len() < 4,
    ensures
        ({
            let field = if n == 50 || n == 51 || n == 52 {
                TextField::ConnectId
            } else {
                TextField::SessionId
            };
            let head = seq![0x11u8, 0x94u8, 0x10u8, 0x00u8] + number;
            &&& decoded(head + few) == Err::<VolcView, VolcError>(
                VolcError::TextMissingLength { field },
            )
            &&& rest.len() < declared ==> decoded(head + length + rest) == Err::<
                VolcView,
                VolcError,
            >(
                VolcError::TextTruncated {
                    field,
                    declared: declared as usize,
                    available: rest.len() as usize,
                },
            )
            &&& rest.len() >= declared && !valid_utf8(rest.take(declared)) ==> decoded(
                head + length + rest,
            ) == Err::<VolcView, VolcError>(VolcError::TextNotUtf8 { field })
        }),
{
    assert(0x94u8 >> 4 == 9u8 && 0x94u8 & 0x0f == 4u8 && 0x11u8 & 0x0f == 1u8) by (bit_vector);
    law_numbers_of_events(n, 0);
    let head = seq![0x11u8, 0x94u8, 0x10u8, 0x00u8] + number;
    let a = head + few;
    assert(a.skip(4) =~= number + few);
    assert((number + few).take(4) =~= number);
    assert((number + few).skip(4) =~= few);
    assert(a[0] == 0x11u8 && a[1] == 0x94u8);
    assert(be_i32(number) == n);
    let b = head + length + rest;
    let tail = length + rest;
    assert(b.skip(4) =~= number + tail);
    assert((number + tail).take(4) =~= number);
    assert((number + tail).skip(4) =~= tail);
    assert(tail.take(4) =~= length);
    assert(tail.skip(4) =~= rest);
    assert(b[0] == 0x11u8 && b[1] == 0x94u8);
}

} // verus!
