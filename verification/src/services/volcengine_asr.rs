//! Speech recognition over the Volcengine websocket protocol.
use crate::audio::opus_decode::{pcm_bytes, pcm_i16_to_le_bytes};
use crate::buf::{
    be_u32, bytes_advance, bytes_as_slice, bytes_content, bytes_copy_to_bytes, bytes_from_vec,
    bytes_get_i32, bytes_get_u32, bytes_get_u8, bytes_len, bytes_mut_content, bytes_to_vec,
    put_u32, put_u8, writes_u32,
};
use crate::cut::cut;
use crate::env::{bool_or, or, or_bool, or_text, or_uint, uint_or, ConfigError, Env};
use crate::ids::{is_id, new_id};
use crate::json::{empty_object, json_parsed, json_text, trees, Json, JsonTree};
use crate::services::volcengine::length_field;
use crate::services::WsFrame;
use crate::text::{
    lossy_text, lowered, opt_text, pair, pairs, same, to_ascii_lowercase, utf8_lossy,
};
use bytes::{Bytes, BytesMut};
use flate2::{read::GzDecoder, write::GzEncoder, Compression};
use std::io::{Read, Write};
use vstd::prelude::*;
use vstd::utf8::encode_utf8;

verus! {

pub const CLIENT_FULL_REQUEST: u8 = 0x1;

pub const CLIENT_AUDIO_REQUEST: u8 = 0x2;

pub const SERVER_FULL_RESPONSE: u8 = 0x9;

pub const SERVER_ERROR_RESPONSE: u8 = 0xf;

pub const FLAG_NO_SEQUENCE: u8 = 0x0;

pub const FLAG_LAST_PACKAGE: u8 = 0x2;

pub const SERIALIZATION_NONE: u8 = 0x0;

pub const SERIALIZATION_JSON: u8 = 0x1;

pub const COMPRESSION_GZIP: u8 = 0x1;

pub const ASR_SAMPLE_RATE: u32 = 16_000;

/// How many seconds the service may take to accept a request or to finish a text.
pub const REPLY_TIMEOUT_SECS: u64 = 15;

/// How many seconds the service may be silent while it recognizes.
pub const RESULT_TIMEOUT_SECS: u64 = 60;

/// How to reach the service.
#[derive(Clone, Debug)]
pub struct VolcengineAsrConfig {
    pub api_key: Option<String>,
    pub app_id: Option<String>,
    pub access_key: Option<String>,
    pub resource_id: String,
    pub endpoint: String,
    pub language: String,
    pub chunk_ms: u32,
    pub enable_itn: bool,
    pub enable_punc: bool,
    pub enable_ddc: bool,
}

/// The provider of speech recognition that was asked for, in lower case.
pub open spec fn asr_provider(env: Env) -> Seq<char> {
    lowered(or_text(env.var("XIAOZHI_ASR_PROVIDER"@), "mock"@))
}

/// Volcengine was asked for.
pub open spec fn asr_wanted(env: Env) -> bool {
    let provider = asr_provider(env);
    provider == "volcengine"@ || provider == "volc"@ || provider == "doubao"@
}

pub open spec fn asr_api_key(env: Env) -> Option<Seq<char>> {
    env.either("VOLCENGINE_ASR_API_KEY"@, "VOLCENGINE_API_KEY"@)
}

pub open spec fn asr_app_id(env: Env) -> Option<Seq<char>> {
    env.either("VOLCENGINE_ASR_APP_ID"@, "VOLCENGINE_APP_ID"@)
}

pub open spec fn asr_access_key(env: Env) -> Option<Seq<char>> {
    env.either3(
        "VOLCENGINE_ASR_ACCESS_KEY"@,
        "VOLCENGINE_ASR_ACCESS_TOKEN"@,
        "VOLCENGINE_ACCESS_TOKEN"@,
    )
}

/// There is a key, or an application with its key.
pub open spec fn asr_credentials(env: Env) -> bool {
    asr_api_key(env) is Some || (asr_app_id(env) is Some && asr_access_key(env) is Some)
}

/// A number of milliseconds, kept within what the service accepts.
pub open spec fn chunk_ms_of(n: nat) -> nat {
    if n < 60 {
        60
    } else if n > 400 {
        400
    } else {
        n
    }
}

/// What the settings come to.
pub open spec fn asr_configured(env: Env, r: Result<Option<VolcengineAsrConfig>, ConfigError>) -> bool {
    match r {
        Ok(None) => !asr_wanted(env),
        Ok(Some(c)) => {
            &&& asr_wanted(env)
            &&& asr_credentials(env)
            &&& opt_text(c.api_key) == asr_api_key(env)
            &&& opt_text(c.app_id) == asr_app_id(env)
            &&& opt_text(c.access_key) == asr_access_key(env)
            &&& c.resource_id@ == or_text(
                env.nonempty("VOLCENGINE_ASR_RESOURCE_ID"@),
                "volc.bigasr.sauc.duration"@,
            )
            &&& c.endpoint@ == or_text(
                env.nonempty("VOLCENGINE_ASR_ENDPOINT"@),
                "wss://openspeech.bytedance.com/api/v3/sauc/bigmodel_async"@,
            )
            &&& c.language@ == or_text(
                env.nonempty("VOLCENGINE_ASR_LANGUAGE"@),
                "zh-CN"@,
            )
            &&& c.chunk_ms == chunk_ms_of(
                or_uint(env.var("VOLCENGINE_ASR_CHUNK_MS"@), u32::MAX as nat, 180),
            )
            &&& c.enable_itn == or_bool(env.var("VOLCENGINE_ASR_ENABLE_ITN"@), true)
            &&& c.enable_punc == or_bool(env.var("VOLCENGINE_ASR_ENABLE_PUNC"@), true)
            &&& c.enable_ddc == or_bool(env.var("VOLCENGINE_ASR_ENABLE_DDC"@), false)
        },
        Err(e) => asr_wanted(env) && !asr_credentials(env) && e.message@
            == "missing Volcengine ASR credentials; set VOLCENGINE_ASR_API_KEY or VOLCENGINE_ASR_APP_ID + VOLCENGINE_ASR_ACCESS_KEY"@,
    }
}

impl VolcengineAsrConfig {
    /// The settings of the service; `None` if another provider was asked for.
    pub fn from_env(env: &Env) -> (r: Result<Option<Self>, ConfigError>)
        ensures
            asr_configured(*env, r),
    {
        let provider = or(env.get("XIAOZHI_ASR_PROVIDER"), "mock");
        let provider = to_ascii_lowercase(provider.as_str());
        let provider = provider.as_str();
        if !same(provider, "volcengine") && !same(provider, "volc") && !same(provider, "doubao") {
            return Ok(None);
        }
        let api_key = env.get_either("VOLCENGINE_ASR_API_KEY", "VOLCENGINE_API_KEY");
        let app_id = env.get_either("VOLCENGINE_ASR_APP_ID", "VOLCENGINE_APP_ID");
        let access_key = env.get_either3(
            "VOLCENGINE_ASR_ACCESS_KEY",
            "VOLCENGINE_ASR_ACCESS_TOKEN",
            "VOLCENGINE_ACCESS_TOKEN",
        );
        if api_key.is_none() && (app_id.is_none() || access_key.is_none()) {
            return Err(
                ConfigError {
                    message:
                        "missing Volcengine ASR credentials; set VOLCENGINE_ASR_API_KEY or VOLCENGINE_ASR_APP_ID + VOLCENGINE_ASR_ACCESS_KEY".to_owned(),
                },
            );
        }
        let ms: u64 = uint_or(env.get("VOLCENGINE_ASR_CHUNK_MS"), u32::MAX as u64, 180);
        let chunk_ms: u32 = if ms < 60 {
            60
        } else if ms > 400 {
            400
        } else {
            ms as u32
        };
        Ok(
            Some(
                VolcengineAsrConfig {
                    api_key,
                    app_id,
                    access_key,
                    resource_id: or(
                        env.get_nonempty("VOLCENGINE_ASR_RESOURCE_ID"),
                        "volc.bigasr.sauc.duration",
                    ),
                    endpoint: or(
                        env.get_nonempty("VOLCENGINE_ASR_ENDPOINT"),
                        "wss://openspeech.bytedance.com/api/v3/sauc/bigmodel_async",
                    ),
                    language: or(env.get_nonempty("VOLCENGINE_ASR_LANGUAGE"), "zh-CN"),
                    chunk_ms,
                    enable_itn: bool_or(env.get("VOLCENGINE_ASR_ENABLE_ITN"), true),
                    enable_punc: bool_or(env.get("VOLCENGINE_ASR_ENABLE_PUNC"), true),
                    enable_ddc: bool_or(env.get("VOLCENGINE_ASR_ENABLE_DDC"), false),
                },
            ),
        )
    }
}

/// Speech recognition by Volcengine.
#[derive(Clone, Debug)]
pub struct VolcengineAsr {
    pub config: VolcengineAsrConfig,
}

impl VolcengineAsr {
    pub fn new(config: VolcengineAsrConfig) -> (r: Self)
        ensures
            r.config == config,
    {
        VolcengineAsr { config }
    }
}

// ---------------------------------------------------------------------------
// Compression
// ---------------------------------------------------------------------------

/// What `GzEncoder` makes of some bytes at the default level; `None` where it fails.
pub uninterp spec fn gzipped(data: Seq<u8>) -> Option<Seq<u8>>;

/// What `GzDecoder` reads from some bytes; `None` where it fails.
pub uninterp spec fn gunzipped(data: Seq<u8>) -> Option<Seq<u8>>;

/// `GzEncoder` of `flate2` at the default level, writing to a vector: the output
/// depends on the bytes alone, and `GzDecoder` reads the bytes back from it. On which
/// bytes it succeeds is not said.
#[verifier::external_body]
fn gzip_vec(data: &[u8]) -> (r: Option<Vec<u8>>)
    ensures
        match r {
            Some(out) => gzipped(data@) == Some(out@) && gunzipped(out@) == Some(data@),
            None => gzipped(data@) is None,
        },
{
    let mut encoder = GzEncoder::new(Vec::new(), Compression::default());
    encoder.write_all(data).ok()?;
    encoder.finish().ok()
}

/// `GzDecoder` of `flate2`, read to its end: what comes out, or that it fails,
/// depends on the bytes alone.
#[verifier::external_body]
fn gunzip_vec(data: &[u8]) -> (r: Option<Vec<u8>>)
    ensures
        match r {
            Some(out) => gunzipped(data@) == Some(out@),
            None => gunzipped(data@) is None,
        },
{
    let mut out = Vec::new();
    GzDecoder::new(data).read_to_end(&mut out).ok()?;
    Some(out)
}

/// Why recognition failed.
#[derive(Debug)]
pub enum AsrError {
    TooShort { len: usize },
    InvalidHeaderSize { size: usize },
    HeaderTruncated,
    ErrorTruncated,
    MissingSequence,
    MissingEvent,
    MissingPayloadSize,
    PayloadTruncated { declared: usize, available: usize },
    /// The payload could not be decompressed.
    Gunzip,
    /// The payload is not JSON.
    NotJson,
    /// Data could not be compressed.
    Gzip,
    /// The service closed the connection.
    Closed(String),
    /// The connection ended before the first response.
    EndedEarly,
    /// The service reports an error.
    Service { code: u32, payload: Json },
    /// The service refuses the request.
    Refused { payload: Json },
}

/// What a failure says.
pub enum AsrErrorView {
    TooShort { len: int },
    InvalidHeaderSize { size: int },
    HeaderTruncated,
    ErrorTruncated,
    MissingSequence,
    MissingEvent,
    MissingPayloadSize,
    PayloadTruncated { declared: int, available: int },
    Gunzip,
    NotJson,
    Gzip,
    Closed(Seq<char>),
    EndedEarly,
    Service { code: u32, payload: JsonTree },
    Refused { payload: JsonTree },
}

impl AsrError {
    pub open spec fn view(self) -> AsrErrorView {
        match self {
            AsrError::TooShort { len } => AsrErrorView::TooShort { len: len as int },
            AsrError::InvalidHeaderSize { size } => AsrErrorView::InvalidHeaderSize {
                size: size as int,
            },
            AsrError::HeaderTruncated => AsrErrorView::HeaderTruncated,
            AsrError::ErrorTruncated => AsrErrorView::ErrorTruncated,
            AsrError::MissingSequence => AsrErrorView::MissingSequence,
            AsrError::MissingEvent => AsrErrorView::MissingEvent,
            AsrError::MissingPayloadSize => AsrErrorView::MissingPayloadSize,
            AsrError::PayloadTruncated { declared, available } => AsrErrorView::PayloadTruncated {
                declared: declared as int,
                available: available as int,
            },
            AsrError::Gunzip => AsrErrorView::Gunzip,
            AsrError::NotJson => AsrErrorView::NotJson,
            AsrError::Gzip => AsrErrorView::Gzip,
            AsrError::Closed(text) => AsrErrorView::Closed(text@),
            AsrError::EndedEarly => AsrErrorView::EndedEarly,
            AsrError::Service { code, payload } => AsrErrorView::Service {
                code,
                payload: payload.tree(),
            },
            AsrError::Refused { payload } => AsrErrorView::Refused { payload: payload.tree() },
        }
    }
}

/// Compresses data.
pub fn gzip(data: &[u8]) -> (r: Result<Bytes, AsrError>)
    ensures
        match r {
            Ok(b) => gzipped(data@) == Some(bytes_content(b)) && gunzipped(bytes_content(b))
                == Some(data@),
            Err(e) => gzipped(data@) is None && e@ == AsrErrorView::Gzip,
        },
{
    match gzip_vec(data) {
        Some(out) => Ok(bytes_from_vec(out)),
        None => Err(AsrError::Gzip),
    }
}

// ---------------------------------------------------------------------------
// Requests
// ---------------------------------------------------------------------------

/// A message to the service.
#[derive(Debug)]
pub struct AsrMessage {
    pub message_type: u8,
    pub flags: u8,
    pub serialization: u8,
    pub compression: u8,
    pub payload: Bytes,
}

/// The wire form of a message.
pub open spec fn message_bytes(
    message_type: u8,
    flags: u8,
    serialization: u8,
    compression: u8,
    payload: Seq<u8>,
) -> Seq<u8> {
    seq![0x11u8, (message_type << 4) | flags, (serialization << 4) | compression, 0u8]
        + length_field(payload.len()) + payload
}

impl AsrMessage {
    /// The request that starts a recognition.
    pub fn client_full(payload: Bytes) -> (r: Self)
        ensures
            r == (AsrMessage {
                message_type: CLIENT_FULL_REQUEST,
                flags: FLAG_NO_SEQUENCE,
                serialization: SERIALIZATION_JSON,
                compression: COMPRESSION_GZIP,
                payload,
            }),
    {
        AsrMessage {
            message_type: CLIENT_FULL_REQUEST,
            flags: FLAG_NO_SEQUENCE,
            serialization: SERIALIZATION_JSON,
            compression: COMPRESSION_GZIP,
            payload,
        }
    }

    /// A run of audio.
    pub fn audio(payload: Bytes, is_last: bool) -> (r: Self)
        ensures
            r == (AsrMessage {
                message_type: CLIENT_AUDIO_REQUEST,
                flags: if is_last {
                    FLAG_LAST_PACKAGE
                } else {
                    FLAG_NO_SEQUENCE
                },
                serialization: SERIALIZATION_NONE,
                compression: COMPRESSION_GZIP,
                payload,
            }),
    {
        AsrMessage {
            message_type: CLIENT_AUDIO_REQUEST,
            flags: if is_last {
                FLAG_LAST_PACKAGE
            } else {
                FLAG_NO_SEQUENCE
            },
            serialization: SERIALIZATION_NONE,
            compression: COMPRESSION_GZIP,
            payload,
        }
    }

    /// Writes the message.
    pub fn encode(self) -> (r: Bytes)
        ensures
            bytes_content(r) == message_bytes(
                self.message_type,
                self.flags,
                self.serialization,
                self.compression,
                bytes_content(self.payload),
            ),
    {
        let mut out = BytesMut::new();
        put_u8(&mut out, 0x11);
        put_u8(&mut out, (self.message_type << 4) | self.flags);
        put_u8(&mut out, (self.serialization << 4) | self.compression);
        put_u8(&mut out, 0);
        let payload = bytes_as_slice(&self.payload);
        put_u32(&mut out, (payload.len() as u64 % 0x1_0000_0000) as u32);
        out.extend_from_slice(payload);
        proof {
            assert(bytes_mut_content(out) =~= message_bytes(
                self.message_type,
                self.flags,
                self.serialization,
                self.compression,
                bytes_content(self.payload),
            ));
        }
        out.freeze()
    }
}

/// The headers that say who asks.
pub open spec fn credential_pairs(config: VolcengineAsrConfig) -> Seq<(Seq<char>, Seq<char>)> {
    match opt_text(config.api_key) {
        Some(key) => seq![("X-Api-Key"@, key)],
        None => seq![
            ("X-Api-App-Key"@, or_text(opt_text(config.app_id), ""@)),
            ("X-Api-Access-Key"@, or_text(opt_text(config.access_key), ""@)),
        ],
    }
}

/// The headers that open a connection.
pub open spec fn header_pairs(config: VolcengineAsrConfig, request_id: Seq<char>) -> Seq<
    (Seq<char>, Seq<char>),
> {
    credential_pairs(config) + seq![
        ("X-Api-Resource-Id"@, config.resource_id@),
        ("X-Api-Connect-Id"@, request_id),
        ("X-Api-Request-Id"@, request_id),
        ("X-Api-Sequence"@, "-1"@),
    ]
}

/// A text that may be missing.
fn text_or_empty(v: &Option<String>) -> (r: &str)
    ensures
        r@ == or_text(opt_text(*v), ""@),
{
    match v {
        Some(s) => s.as_str(),
        None => "",
    }
}

/// The headers that open a connection.
pub fn connect_headers(config: &VolcengineAsrConfig, request_id: &str) -> (r: Vec<
    (String, String),
>)
    ensures
        pairs(r@) == header_pairs(*config, request_id@),
{
    let mut r: Vec<(String, String)> = Vec::new();
    match &config.api_key {
        Some(key) => {
            r.push(pair("X-Api-Key", key.as_str()));
        },
        None => {
            r.push(pair("X-Api-App-Key", text_or_empty(&config.app_id)));
            r.push(pair("X-Api-Access-Key", text_or_empty(&config.access_key)));
        },
    }
    r.push(pair("X-Api-Resource-Id", config.resource_id.as_str()));
    r.push(pair("X-Api-Connect-Id", request_id));
    r.push(pair("X-Api-Request-Id", request_id));
    r.push(pair("X-Api-Sequence", "-1"));
    proof {
        assert(pairs(r@) =~= header_pairs(*config, request_id@));
    }
    r
}

/// The headers that open a connection, with a request id of its own.
pub fn connect_request(config: &VolcengineAsrConfig) -> (r: Vec<(String, String)>)
    ensures
        exists|id: Seq<char>|
            is_id(id) && pairs(r@) == #[trigger] header_pairs(*config, id),
{
    let id = new_id();
    connect_headers(config, id.as_str())
}

/// What a recognition starts with.
pub open spec fn init_tree(config: VolcengineAsrConfig, uid: Seq<char>) -> JsonTree {
    empty_object().with("user"@, empty_object().with("uid"@, JsonTree::Str(uid))).with(
        "audio"@,
        empty_object().with("format"@, JsonTree::Str("pcm"@)).with(
            "rate"@,
            JsonTree::Int(ASR_SAMPLE_RATE as int),
        ).with("bits"@, JsonTree::Int(16)).with("channel"@, JsonTree::Int(1)).with(
            "language"@,
            JsonTree::Str(config.language@),
        ),
    ).with(
        "request"@,
        empty_object().with("model_name"@, JsonTree::Str("bigmodel"@)).with(
            "enable_itn"@,
            JsonTree::Bool(config.enable_itn),
        ).with("enable_punc"@, JsonTree::Bool(config.enable_punc)).with(
            "enable_ddc"@,
            JsonTree::Bool(config.enable_ddc),
        ).with("result_type"@, JsonTree::Str("single"@)).with(
            "show_utterances"@,
            JsonTree::Bool(false),
        ),
    )
}

/// What a recognition starts with.
pub fn init_request(config: &VolcengineAsrConfig, uid: &str) -> (r: Json)
    ensures
        r.tree() == init_tree(*config, uid@),
{
    let user = Json::object().with("uid", Json::str(uid));
    let audio = Json::object().with("format", Json::str("pcm")).with(
        "rate",
        Json::UInt(ASR_SAMPLE_RATE as u64),
    ).with("bits", Json::UInt(16)).with("channel", Json::UInt(1)).with(
        "language",
        Json::str(config.language.as_str()),
    );
    let request = Json::object().with("model_name", Json::str("bigmodel")).with(
        "enable_itn",
        Json::Bool(config.enable_itn),
    ).with("enable_punc", Json::Bool(config.enable_punc)).with(
        "enable_ddc",
        Json::Bool(config.enable_ddc),
    ).with("result_type", Json::str("single")).with("show_utterances", Json::Bool(false));
    Json::object().with("user", user).with("audio", audio).with("request", request)
}

/// The first message of a connection, if what it carries can be compressed.
pub open spec fn init_bytes(config: VolcengineAsrConfig, uid: Seq<char>) -> Option<Seq<u8>> {
    match gzipped(encode_utf8(json_text(init_tree(config, uid)))) {
        Some(payload) => Some(
            message_bytes(
                CLIENT_FULL_REQUEST,
                FLAG_NO_SEQUENCE,
                SERIALIZATION_JSON,
                COMPRESSION_GZIP,
                payload,
            ),
        ),
        None => None,
    }
}

/// The first message of a connection, for a given user.
pub fn init_message_for(config: &VolcengineAsrConfig, uid: &str) -> (r: Result<Bytes, AsrError>)
    ensures
        match r {
            Ok(b) => init_bytes(*config, uid@) == Some(bytes_content(b)),
            Err(e) => init_bytes(*config, uid@) is None && e@ == AsrErrorView::Gzip,
        },
{
    let text = init_request(config, uid).to_bytes();
    match gzip(text.as_slice()) {
        Ok(payload) => Ok(AsrMessage::client_full(payload).encode()),
        Err(e) => Err(e),
    }
}

/// The first message of a connection.
pub fn init_message(config: &VolcengineAsrConfig) -> (r: Result<Bytes, AsrError>)
    ensures
        match r {
            Ok(b) => exists|uid: Seq<char>|
                is_id(uid) && #[trigger] init_bytes(*config, uid) == Some(bytes_content(b)),
            Err(e) => e@ == AsrErrorView::Gzip && exists|uid: Seq<char>|
                is_id(uid) && #[trigger] init_bytes(*config, uid) is None,
        },
{
    let uid = new_id();
    init_message_for(config, uid.as_str())
}

/// The message that carries a run of audio, if that can be compressed.
pub open spec fn audio_bytes(chunk: Seq<u8>, is_last: bool) -> Option<Seq<u8>> {
    match gzipped(chunk) {
        Some(payload) => Some(
            message_bytes(
                CLIENT_AUDIO_REQUEST,
                if is_last {
                    FLAG_LAST_PACKAGE
                } else {
                    FLAG_NO_SEQUENCE
                },
                SERIALIZATION_NONE,
                COMPRESSION_GZIP,
                payload,
            ),
        ),
        None => None,
    }
}

/// The message that carries a run of audio. Behind its header, compressed, stands
/// that run.
pub fn audio_message(chunk: &Bytes, is_last: bool) -> (r: Result<Bytes, AsrError>)
    ensures
        match r {
            Ok(b) => {
                &&& audio_bytes(bytes_content(*chunk), is_last) == Some(bytes_content(b))
                &&& gunzipped(bytes_content(b).skip(8)) == Some(bytes_content(*chunk))
            },
            Err(e) => audio_bytes(bytes_content(*chunk), is_last) is None && e@
                == AsrErrorView::Gzip,
        },
{
    match gzip(bytes_as_slice(chunk)) {
        Ok(payload) => {
            let ghost compressed = bytes_content(payload);
            let message = AsrMessage::audio(payload, is_last).encode();
            proof {
                assert(bytes_content(message).skip(8) =~= compressed);
            }
            Ok(message)
        },
        Err(e) => Err(e),
    }
}

// ---------------------------------------------------------------------------
// Responses
// ---------------------------------------------------------------------------

/// A response of the service.
#[derive(Debug)]
pub struct AsrResponse {
    pub message_type: u8,
    pub is_last_package: bool,
    pub payload: Json,
    pub error_code: u32,
}

/// What a response holds.
pub struct ResponseView {
    pub message_type: u8,
    pub is_last_package: bool,
    pub payload: JsonTree,
    pub error_code: u32,
}

/// The bytes of a payload, decompressed if they are compressed.
pub open spec fn unpacked(payload: Seq<u8>, compression: u8) -> Option<Seq<u8>> {
    if compression == COMPRESSION_GZIP {
        gunzipped(payload)
    } else {
        Some(payload)
    }
}

/// What the bytes of a payload stand for.
pub open spec fn payload_tree(plain: Seq<u8>, serialization: u8) -> Result<JsonTree, AsrErrorView> {
    if serialization == SERIALIZATION_JSON {
        match json_parsed(plain) {
            Some(t) => Ok(t),
            None => Err(AsrErrorView::NotJson),
        }
    } else if plain.len() == 0 {
        Ok(JsonTree::Null)
    } else {
        Ok(JsonTree::Str(lossy_text(plain)))
    }
}

/// The payload, with its length before it.
pub open spec fn payload_read(d: Seq<u8>, serialization: u8, compression: u8) -> Result<
    JsonTree,
    AsrErrorView,
> {
    if d.len() < 4 {
        Err(AsrErrorView::MissingPayloadSize)
    } else {
        let len = be_u32(d.take(4));
        let rest = d.skip(4);
        if rest.len() < len {
            Err(AsrErrorView::PayloadTruncated { declared: len, available: rest.len() as int })
        } else {
            match unpacked(rest.take(len), compression) {
                Some(plain) => payload_tree(plain, serialization),
                None => Err(AsrErrorView::Gunzip),
            }
        }
    }
}

/// What follows the header, whose length in words of four bytes stands in the low
/// four bits of the first byte.
pub open spec fn after_header(data: Seq<u8>) -> Result<Seq<u8>, AsrErrorView> {
    let size = (data[0] & 0x0f) * 4;
    let rest = data.skip(4);
    if size < 4 {
        Err(AsrErrorView::InvalidHeaderSize { size })
    } else if rest.len() < size - 4 {
        Err(AsrErrorView::HeaderTruncated)
    } else {
        Ok(rest.skip(size - 4))
    }
}

/// What follows the sequence number and the event, which flags announce.
pub open spec fn after_numbers(flags: u8, d: Seq<u8>) -> Result<Seq<u8>, AsrErrorView> {
    if flags & 0x01 != 0 && d.len() < 4 {
        Err(AsrErrorView::MissingSequence)
    } else {
        let d = if flags & 0x01 != 0 {
            d.skip(4)
        } else {
            d
        };
        if flags & 0x04 != 0 && d.len() < 4 {
            Err(AsrErrorView::MissingEvent)
        } else if flags & 0x04 != 0 {
            Ok(d.skip(4))
        } else {
            Ok(d)
        }
    }
}

/// What follows the header, read by the fields that stand in it.
pub open spec fn body_read(
    message_type: u8,
    flags: u8,
    serialization: u8,
    compression: u8,
    d: Seq<u8>,
) -> Result<ResponseView, AsrErrorView> {
    let is_last_package = flags & FLAG_LAST_PACKAGE != 0;
    if message_type == SERVER_ERROR_RESPONSE {
        if d.len() < 8 {
            Err(AsrErrorView::ErrorTruncated)
        } else {
            match payload_read(d.skip(4), serialization, compression) {
                Ok(payload) => Ok(
                    ResponseView {
                        message_type,
                        is_last_package,
                        payload,
                        error_code: be_u32(d.take(4)) as u32,
                    },
                ),
                Err(e) => Err(e),
            }
        }
    } else if message_type != SERVER_FULL_RESPONSE {
        Ok(
            ResponseView {
                message_type,
                is_last_package,
                payload: JsonTree::Null,
                error_code: 0,
            },
        )
    } else {
        match after_numbers(flags, d) {
            Ok(d) => match payload_read(d, serialization, compression) {
                Ok(payload) => Ok(
                    ResponseView { message_type, is_last_package, payload, error_code: 0 },
                ),
                Err(e) => Err(e),
            },
            Err(e) => Err(e),
        }
    }
}

/// What a response holds, by its wire form.
pub open spec fn decoded(data: Seq<u8>) -> Result<ResponseView, AsrErrorView> {
    if data.len() < 4 {
        Err(AsrErrorView::TooShort { len: data.len() as int })
    } else {
        match after_header(data) {
            Ok(d) => body_read(data[1] >> 4, data[1] & 0x0f, data[2] >> 4, data[2] & 0x0f, d),
            Err(e) => Err(e),
        }
    }
}

/// What the bytes of a payload stand for.
pub fn payload_value(plain: &[u8], serialization: u8) -> (r: Result<Json, AsrError>)
    ensures
        match r {
            Ok(j) => payload_tree(plain@, serialization) == Ok::<JsonTree, AsrErrorView>(j.tree()),
            Err(e) => payload_tree(plain@, serialization) == Err::<JsonTree, AsrErrorView>(e@),
        },
{
    if serialization == SERIALIZATION_JSON {
        match Json::parse(plain) {
            Ok(j) => Ok(j),
            Err(_) => Err(AsrError::NotJson),
        }
    } else if plain.len() == 0 {
        Ok(Json::Null)
    } else {
        Ok(Json::Str(utf8_lossy(plain)))
    }
}

/// Reads a payload with its length before it.
fn read_payload(data: &mut Bytes, serialization: u8, compression: u8) -> (r: Result<Json, AsrError>)
    ensures
        match r {
            Ok(j) => payload_read(bytes_content(*old(data)), serialization, compression) == Ok::<
                JsonTree,
                AsrErrorView,
            >(j.tree()),
            Err(e) => payload_read(bytes_content(*old(data)), serialization, compression) == Err::<
                JsonTree,
                AsrErrorView,
            >(e@),
        },
{
    if bytes_len(data) < 4 {
        return Err(AsrError::MissingPayloadSize);
    }
    let payload_size: usize = bytes_get_u32(data) as usize;
    if bytes_len(data) < payload_size {
        return Err(
            AsrError::PayloadTruncated { declared: payload_size, available: bytes_len(data) },
        );
    }
    let bytes = bytes_copy_to_bytes(data, payload_size);
    let mut payload = bytes_to_vec(&bytes);
    if compression == COMPRESSION_GZIP {
        match gunzip_vec(payload.as_slice()) {
            Some(plain) => {
                payload = plain;
            },
            None => return Err(AsrError::Gunzip),
        }
    }
    payload_value(payload.as_slice(), serialization)
}

impl AsrResponse {
    pub open spec fn view(self) -> ResponseView {
        ResponseView {
            message_type: self.message_type,
            is_last_package: self.is_last_package,
            payload: self.payload.tree(),
            error_code: self.error_code,
        }
    }

    /// Reads a response.
    pub fn decode(data: Bytes) -> (r: Result<Self, AsrError>)
        ensures
            match r {
                Ok(m) => decoded(bytes_content(data)) == Ok::<ResponseView, AsrErrorView>(m@),
                Err(e) => decoded(bytes_content(data)) == Err::<ResponseView, AsrErrorView>(e@),
            },
    {
        let ghost whole = bytes_content(data);
        let mut data = data;
        if bytes_len(&data) < 4 {
            return Err(AsrError::TooShort { len: bytes_len(&data) });
        }
        let version_and_header: u8 = bytes_get_u8(&mut data);
        let type_and_flags: u8 = bytes_get_u8(&mut data);
        let serialization_and_compression: u8 = bytes_get_u8(&mut data);
        let _reserved: u8 = bytes_get_u8(&mut data);
        proof {
            assert(bytes_content(data) =~= whole.skip(4));
            assert(version_and_header & 0x0f <= 15) by (bit_vector);
        }
        let header_size: usize = (version_and_header & 0x0f) as usize * 4;
        if header_size < 4 {
            return Err(AsrError::InvalidHeaderSize { size: header_size });
        }
        if header_size > 4 {
            if bytes_len(&data) < header_size - 4 {
                return Err(AsrError::HeaderTruncated);
            }
            bytes_advance(&mut data, header_size - 4);
        }
        proof {
            assert(bytes_content(data) =~= whole.skip(4).skip(header_size - 4));
        }
        AsrResponse::decode_body(
            type_and_flags >> 4,
            type_and_flags & 0x0f,
            serialization_and_compression >> 4,
            serialization_and_compression & 0x0f,
            data,
        )
    }

    /// Reads what follows the header.
    fn decode_body(
        message_type: u8,
        flags: u8,
        serialization: u8,
        compression: u8,
        data: Bytes,
    ) -> (r: Result<Self, AsrError>)
        ensures
            match r {
                Ok(m) => body_read(
                    message_type,
                    flags,
                    serialization,
                    compression,
                    bytes_content(data),
                ) == Ok::<ResponseView, AsrErrorView>(m@),
                Err(e) => body_read(
                    message_type,
                    flags,
                    serialization,
                    compression,
                    bytes_content(data),
                ) == Err::<ResponseView, AsrErrorView>(e@),
            },
    {
        let mut data = data;
        let is_last_package = flags & FLAG_LAST_PACKAGE != 0;
        if message_type == SERVER_ERROR_RESPONSE {
            if bytes_len(&data) < 8 {
                return Err(AsrError::ErrorTruncated);
            }
            let error_code: u32 = bytes_get_u32(&mut data);
            return match read_payload(&mut data, serialization, compression) {
                Ok(payload) => Ok(
                    AsrResponse { message_type, is_last_package, payload, error_code },
                ),
                Err(e) => Err(e),
            };
        }
        if message_type != SERVER_FULL_RESPONSE {
            return Ok(
                AsrResponse { message_type, is_last_package, payload: Json::Null, error_code: 0 },
            );
        }
        if flags & 0x01 != 0 {
            if bytes_len(&data) < 4 {
                return Err(AsrError::MissingSequence);
            }
            let _sequence: i32 = bytes_get_i32(&mut data);
        }
        if flags & 0x04 != 0 {
            if bytes_len(&data) < 4 {
                return Err(AsrError::MissingEvent);
            }
            let _event: i32 = bytes_get_i32(&mut data);
        }
        match read_payload(&mut data, serialization, compression) {
            Ok(payload) => Ok(
                AsrResponse { message_type, is_last_package, payload, error_code: 0 },
            ),
            Err(e) => Err(e),
        }
    }
}

/// What a websocket message holds; `Ok(None)` if it is of no concern.
pub open spec fn ws_decoded(frame: WsFrame) -> Result<Option<ResponseView>, AsrErrorView> {
    match frame {
        WsFrame::Binary(data) => match decoded(bytes_content(data)) {
            Ok(m) => Ok(Some(m)),
            Err(e) => Err(e),
        },
        WsFrame::Text(text) => match decoded(encode_utf8(text@)) {
            Ok(m) => Ok(Some(m)),
            Err(e) => Err(e),
        },
        WsFrame::Control => Ok(None),
        WsFrame::Close(text) => Err(AsrErrorView::Closed(text@)),
    }
}

/// Reads a websocket message.
pub fn decode_ws_message(frame: WsFrame) -> (r: Result<Option<AsrResponse>, AsrError>)
    ensures
        match r {
            Ok(Some(m)) => ws_decoded(frame) == Ok::<Option<ResponseView>, AsrErrorView>(Some(m@)),
            Ok(None) => ws_decoded(frame) == Ok::<Option<ResponseView>, AsrErrorView>(None),
            Err(e) => ws_decoded(frame) == Err::<Option<ResponseView>, AsrErrorView>(e@),
        },
{
    match frame {
        WsFrame::Binary(data) => match AsrResponse::decode(data) {
            Ok(m) => Ok(Some(m)),
            Err(e) => Err(e),
        },
        WsFrame::Text(text) => match AsrResponse::decode(
            Bytes::copy_from_slice(text.as_str().as_bytes()),
        ) {
            Ok(m) => Ok(Some(m)),
            Err(e) => Err(e),
        },
        WsFrame::Control => Ok(None),
        WsFrame::Close(text) => Err(AsrError::Closed(text)),
    }
}

/// Whether the first response lets the recognition start: it is no error, and a
/// code, if there is one, is a good one.
pub open spec fn initial_checked(response: ResponseView) -> Result<(), AsrErrorView> {
    let code = response.payload.get_int("code"@, i64::MIN as int, i64::MAX as int);
    if response.message_type == SERVER_ERROR_RESPONSE {
        Err(AsrErrorView::Service { code: response.error_code, payload: response.payload })
    } else if code is Some && code != Some(20000000int) && code != Some(1000int) {
        Err(AsrErrorView::Refused { payload: response.payload })
    } else {
        Ok(())
    }
}

/// Checks the first response.
pub fn validate_initial_response(response: AsrResponse) -> (r: Result<(), AsrError>)
    ensures
        match r {
            Ok(()) => initial_checked(response@) == Ok::<(), AsrErrorView>(()),
            Err(e) => initial_checked(response@) == Err::<(), AsrErrorView>(e@),
        },
{
    if response.message_type == SERVER_ERROR_RESPONSE {
        return Err(
            AsrError::Service { code: response.error_code, payload: response.payload },
        );
    }
    let refused = match response.payload.get("code") {
        Some(j) => match j.as_i64() {
            Some(code) => code != 20000000 && code != 1000,
            None => false,
        },
        None => false,
    };
    if refused {
        return Err(AsrError::Refused { payload: response.payload });
    }
    Ok(())
}

/// What a message does while the first response is waited for: `Ok(true)` lets
/// the recognition start, `Ok(false)` has to be skipped.
pub open spec fn initial_waited(frame: Option<WsFrame>) -> Result<bool, AsrErrorView> {
    match frame {
        None => Err(AsrErrorView::EndedEarly),
        Some(frame) => match ws_decoded(frame) {
            Ok(Some(m)) => match initial_checked(m) {
                Ok(()) => Ok(true),
                Err(e) => Err(e),
            },
            Ok(None) => Ok(false),
            Err(e) => Err(e),
        },
    }
}

/// Looks at a message while the first response is waited for; `None` stands for
/// the end of the connection.
pub fn wait_initial_response(frame: Option<WsFrame>) -> (r: Result<bool, AsrError>)
    ensures
        match r {
            Ok(b) => initial_waited(frame) == Ok::<bool, AsrErrorView>(b),
            Err(e) => initial_waited(frame) == Err::<bool, AsrErrorView>(e@),
        },
{
    let frame = match frame {
        Some(f) => f,
        None => return Err(AsrError::EndedEarly),
    };
    match decode_ws_message(frame) {
        Ok(Some(m)) => match validate_initial_response(m) {
            Ok(()) => Ok(true),
            Err(e) => Err(e),
        },
        Ok(None) => Ok(false),
        Err(e) => Err(e),
    }
}

/// The last text in a list of results that is not empty.
pub open spec fn last_text(items: Seq<JsonTree>) -> Option<Seq<char>>
    decreases items.len(),
{
    if items.len() == 0 {
        None
    } else {
        match items.last().get_str("text"@) {
            Some(t) => if t.len() > 0 {
                Some(t)
            } else {
                last_text(items.drop_last())
            },
            None => last_text(items.drop_last()),
        }
    }
}

/// The text of a response: that of its result, or, where the result is a list, the
/// last in it that is not empty.
pub open spec fn response_text(payload: JsonTree) -> Option<Seq<char>> {
    match payload.get("result"@) {
        Some(result) => match result.get_str("text"@) {
            Some(t) => Some(t),
            None => match result {
                JsonTree::Array(items) => last_text(items),
                _ => None,
            },
        },
        None => None,
    }
}

/// The text of a response.
pub fn extract_text(payload: &Json) -> (r: Option<String>)
    ensures
        opt_text(r) == response_text(payload.tree()),
{
    let result = match payload.get("result") {
        Some(j) => j,
        None => return None,
    };
    match result.get_str("text") {
        Some(t) => return Some(t.to_owned()),
        None => {},
    }
    match result.as_array() {
        Some(items) => {
            let ghost all = trees(items@);
            let mut n: usize = items.len();
            proof {
                assert(all.take(n as int) =~= all);
            }
            while n > 0
                invariant
                    n <= items@.len(),
                    all == trees(items@),
                    response_text(payload.tree()) == last_text(all),
                    last_text(all) == last_text(all.take(n as int)),
                decreases n,
            {
                proof {
                    assert(all.take(n as int).drop_last() =~= all.take(n - 1));
                    assert(all.take(n as int).last() == items@[n - 1].tree());
                }
                match items[n - 1].get_str("text") {
                    Some(t) => if !t.is_empty() {
                        return Some(t.to_owned());
                    },
                    None => {},
                }
                n = n - 1;
            }
            None
        },
        None => None,
    }
}

/// Gathers the text of a recognition.
#[derive(Debug)]
pub struct AsrResults {
    pub latest_text: String,
}

/// What a response does to the text so far: the text after it, and whether it is
/// final.
pub open spec fn result_taken(latest: Seq<char>, response: ResponseView) -> Result<
    (Seq<char>, bool),
    AsrErrorView,
> {
    if response.message_type == SERVER_ERROR_RESPONSE {
        Err(AsrErrorView::Service { code: response.error_code, payload: response.payload })
    } else {
        let text = match response_text(response.payload) {
            Some(t) => if t.len() > 0 {
                t
            } else {
                latest
            },
            None => latest,
        };
        Ok((text, response.is_last_package))
    }
}

/// What a message does to the text so far. The end of the connection makes the
/// text final.
pub open spec fn result_read(latest: Seq<char>, frame: Option<WsFrame>) -> Result<
    (Seq<char>, bool),
    AsrErrorView,
> {
    match frame {
        None => Ok((latest, true)),
        Some(frame) => match ws_decoded(frame) {
            Ok(Some(m)) => result_taken(latest, m),
            Ok(None) => Ok((latest, false)),
            Err(e) => Err(e),
        },
    }
}

impl AsrResults {
    /// No text yet.
    pub fn new() -> (r: Self)
        ensures
            r.latest_text@ == Seq::<char>::empty(),
    {
        AsrResults { latest_text: String::new() }
    }

    /// Takes in the next response. `Ok(true)` says that the text is final.
    pub fn on_response(&mut self, response: AsrResponse) -> (r: Result<bool, AsrError>)
        ensures
            match r {
                Ok(done) => result_taken(old(self).latest_text@, response@) == Ok::<
                    (Seq<char>, bool),
                    AsrErrorView,
                >((final(self).latest_text@, done)),
                Err(e) => {
                    &&& result_taken(old(self).latest_text@, response@) == Err::<
                        (Seq<char>, bool),
                        AsrErrorView,
                    >(e@)
                    &&& final(self).latest_text@ == old(self).latest_text@
                },
            },
    {
        if response.message_type == SERVER_ERROR_RESPONSE {
            return Err(
                AsrError::Service { code: response.error_code, payload: response.payload },
            );
        }
        match extract_text(&response.payload) {
            Some(text) => if !text.as_str().is_empty() {
                self.latest_text = text;
            },
            None => {},
        }
        Ok(response.is_last_package)
    }

    /// Takes in the next websocket message; `None` stands for the end of the
    /// connection. `Ok(true)` says that the text is final.
    pub fn on_frame(&mut self, frame: Option<WsFrame>) -> (r: Result<bool, AsrError>)
        ensures
            match r {
                Ok(done) => result_read(old(self).latest_text@, frame) == Ok::<
                    (Seq<char>, bool),
                    AsrErrorView,
                >((final(self).latest_text@, done)),
                Err(e) => {
                    &&& result_read(old(self).latest_text@, frame) == Err::<
                        (Seq<char>, bool),
                        AsrErrorView,
                    >(e@)
                    &&& final(self).latest_text@ == old(self).latest_text@
                },
            },
    {
        let frame = match frame {
            Some(f) => f,
            None => return Ok(true),
        };
        match decode_ws_message(frame) {
            Ok(Some(m)) => self.on_response(m),
            Ok(None) => Ok(false),
            Err(e) => Err(e),
        }
    }
}

/// An empty text never replaces one that was recognized: the text stays what it
/// was, or becomes the text of the response.
pub proof fn law_text_is_kept(latest: Seq<char>, response: ResponseView)
    requires
        latest.len() > 0,
        result_taken(latest, response) is Ok,
    ensures
        (result_taken(latest, response)->Ok_0).0.len() > 0,
{
}

// ---------------------------------------------------------------------------
// The audio of a recognition
// ---------------------------------------------------------------------------

/// The audio that goes to a recognition: samples come in as they are recorded and
/// go out in runs of one length.
pub struct VolcengineAsrStream {
    pub pcm_buffer: BytesMut,
    pub chunk_bytes: usize,
    pub finished: bool,
}

/// The bytes of a run of some milliseconds.
pub open spec fn chunk_len(chunk_ms: u32) -> int {
    (ASR_SAMPLE_RATE as int * chunk_ms as int / 1000) * 2
}

impl VolcengineAsrStream {
    /// The bytes that did not go out yet.
    pub open spec fn pending(self) -> Seq<u8> {
        bytes_mut_content(self.pcm_buffer)
    }

    /// A recognition that was just started.
    pub fn new(config: &VolcengineAsrConfig) -> (r: Self)
        requires
            chunk_len(config.chunk_ms) <= usize::MAX,
        ensures
            r.pending() == Seq::<u8>::empty(),
            r.chunk_bytes == chunk_len(config.chunk_ms),
            !r.finished,
    {
        proof {
            assert(ASR_SAMPLE_RATE as int * config.chunk_ms as int <= 16_000 * 0xffff_ffff);
        }
        let samples: u64 = ASR_SAMPLE_RATE as u64 * config.chunk_ms as u64 / 1000;
        proof {
            assert(samples == ASR_SAMPLE_RATE as int * config.chunk_ms as int / 1000);
        }
        VolcengineAsrStream {
            pcm_buffer: BytesMut::new(),
            chunk_bytes: (samples * 2) as usize,
            finished: false,
        }
    }

    /// A recognition that was just started, if a run of audio has a length: one that is
    /// not zero and can be counted.
    pub fn try_new(config: &VolcengineAsrConfig) -> (r: Option<Self>)
        ensures
            match r {
                Some(s) => {
                    &&& 0 < chunk_len(config.chunk_ms) <= usize::MAX
                    &&& s.pending() == Seq::<u8>::empty()
                    &&& s.chunk_bytes == chunk_len(config.chunk_ms)
                    &&& !s.finished
                },
                None => !(0 < chunk_len(config.chunk_ms) <= usize::MAX),
            },
    {
        proof {
            assert(ASR_SAMPLE_RATE as int * config.chunk_ms as int <= 16_000 * 0xffff_ffff);
        }
        let samples: u64 = ASR_SAMPLE_RATE as u64 * config.chunk_ms as u64 / 1000;
        proof {
            assert(samples == ASR_SAMPLE_RATE as int * config.chunk_ms as int / 1000);
        }
        if samples == 0 || samples * 2 > usize::MAX as u64 {
            None
        } else {
            Some(Self::new(config))
        }
    }

    /// Takes in samples. Once the recognition is finished they are dropped.
    pub fn push_pcm(&mut self, samples: &[i16])
        ensures
            final(self).pending() == (if old(self).finished {
                old(self).pending()
            } else {
                old(self).pending() + pcm_bytes(samples@)
            }),
            final(self).chunk_bytes == old(self).chunk_bytes,
            final(self).finished == old(self).finished,
    {
        if self.finished {
            return ;
        }
        let pcm = pcm_i16_to_le_bytes(samples);
        self.pcm_buffer.extend_from_slice(pcm.as_slice());
    }

    /// The next run that is ready to go out. Taken until there is none, the runs
    /// and what stays pending are the cut of what was pending.
    pub fn next_chunk(&mut self) -> (r: Option<Bytes>)
        ensures
            final(self).chunk_bytes == old(self).chunk_bytes,
            final(self).finished == old(self).finished,
            match r {
                Some(chunk) => {
                    let n = old(self).chunk_bytes as int;
                    &&& !old(self).finished
                    &&& old(self).pending().len() >= n
                    &&& bytes_content(chunk) == old(self).pending().take(n)
                    &&& final(self).pending() == old(self).pending().skip(n)
                    &&& n > 0 ==> cut(old(self).pending(), n) == (
                        seq![bytes_content(chunk)] + cut(final(self).pending(), n).0,
                        cut(final(self).pending(), n).1,
                    )
                },
                None => (old(self).finished || old(self).pending().len() < old(self).chunk_bytes)
                    && final(self).pending() == old(self).pending(),
            },
    {
        if self.finished || self.pcm_buffer.len() < self.chunk_bytes {
            return None;
        }
        Some(self.pcm_buffer.split_to(self.chunk_bytes).freeze())
    }

    /// Ends the audio and gives what is left of it, the first time it is called.
    pub fn finish(&mut self) -> (r: Option<Bytes>)
        ensures
            final(self).finished,
            final(self).chunk_bytes == old(self).chunk_bytes,
            match r {
                Some(rest) => !old(self).finished && bytes_content(rest) == old(self).pending()
                    && final(self).pending() == Seq::<u8>::empty(),
                None => old(self).finished && final(self).pending() == old(self).pending(),
            },
    {
        if self.finished {
            return None;
        }
        self.finished = true;
        Some(self.pcm_buffer.split().freeze())
    }

    /// Gives the recognition up.
    pub fn abort(&mut self)
        ensures
            final(self).finished,
            final(self).chunk_bytes == old(self).chunk_bytes,
            final(self).pending() == old(self).pending(),
    {
        self.finished = true;
    }
}

/// The service accepts no run shorter than 60 ms nor longer than 400 ms, so a run
/// is never empty and never over 12800 bytes.
pub proof fn law_chunk_len(n: nat)
    ensures
        1920 <= chunk_len(chunk_ms_of(n) as u32) <= 12_800,
{
}

// ---------------------------------------------------------------------------
// What recognition is for
// ---------------------------------------------------------------------------

/// An object with a text.
pub open spec fn has_text(t: JsonTree, text: Seq<char>) -> bool {
    t matches JsonTree::Object(m) && m.contains_key("text"@) && m["text"@] == JsonTree::Str(text)
}

/// A response whose result is an object with a text, last or not, sets the text to it;
/// only an empty one leaves the text as it was.
pub proof fn law_result_sets_the_text(
    latest: Seq<char>,
    response: ResponseView,
    m: Map<Seq<char>, JsonTree>,
    text: Seq<char>,
)
    requires
        response.message_type != 0xf,
        response.payload == JsonTree::Object(m),
        m.contains_key("result"@),
        has_text(m["result"@], text),
    ensures
        result_taken(latest, response) == Ok::<(Seq<char>, bool), AsrErrorView>(
            (
                if text.len() > 0 {
                    text
                } else {
                    latest
                },
                response.is_last_package,
            ),
        ),
{
}

/// Where the result is a list, the last entry with a text that is not empty sets the
/// text.
pub proof fn law_last_result_sets_the_text(
    latest: Seq<char>,
    response: ResponseView,
    m: Map<Seq<char>, JsonTree>,
    items: Seq<JsonTree>,
    i: int,
    text: Seq<char>,
)
    requires
        response.message_type != 0xf,
        response.payload == JsonTree::Object(m),
        m.contains_key("result"@),
        m["result"@] == JsonTree::Array(items),
        0 <= i < items.len(),
        has_text(items[i], text),
        text.len() > 0,
        forall|j: int, t: Seq<char>|
            i < j < items.len() && #[trigger] has_text(items[j], t) ==> t.len() == 0,
    ensures
        result_taken(latest, response) == Ok::<(Seq<char>, bool), AsrErrorView>(
            (text, response.is_last_package),
        ),
{
    lemma_last_text(items, i, text);
}

proof fn lemma_last_text(items: Seq<JsonTree>, i: int, text: Seq<char>)
    requires
        0 <= i < items.len(),
        has_text(items[i], text),
        text.len() > 0,
        forall|j: int, t: Seq<char>|
            i < j < items.len() && #[trigger] has_text(items[j], t) ==> t.len() == 0,
    ensures
        last_text(items) == Some(text),
    decreases items.len(),
{
    let n = items.len() - 1;
    if i < n {
        let rest = items.drop_last();
        assert(rest[i] == items[i]);
        assert forall|j: int, t: Seq<char>|
            i < j < rest.len() && #[trigger] has_text(rest[j], t) implies t.len() == 0 by {
            assert(has_text(items[j], t));
        }
        lemma_last_text(rest, i, text);
        match items.last().get_str("text"@) {
            Some(t) => {
                assert(has_text(items[n], t));
            },
            None => {},
        }
    }
}

/// A response without a result leaves the text as it was.
pub proof fn law_no_result_keeps_the_text(latest: Seq<char>, response: ResponseView)
    requires
        response.message_type != 0xf,
        !(response.payload matches JsonTree::Object(m) && m.contains_key("result"@)),
    ensures
        result_taken(latest, response) == Ok::<(Seq<char>, bool), AsrErrorView>(
            (latest, response.is_last_package),
        ),
{
}

/// An error of the service ends the recognition, with its code and what it says.
pub proof fn law_service_errors_are_passed_on(latest: Seq<char>, response: ResponseView)
    requires
        response.message_type == 0xf,
    ensures
        result_taken(latest, response) == Err::<(Seq<char>, bool), AsrErrorView>(
            AsrErrorView::Service { code: response.error_code, payload: response.payload },
        ),
        initial_checked(response) == Err::<(), AsrErrorView>(
            AsrErrorView::Service { code: response.error_code, payload: response.payload },
        ),
{
}

/// The end of the connection makes the text so far final, and a message that is of no
/// concern changes nothing.
pub proof fn law_connection_end_is_final(latest: Seq<char>)
    ensures
        result_read(latest, None) == Ok::<(Seq<char>, bool), AsrErrorView>((latest, true)),
        result_read(latest, Some(WsFrame::Control)) == Ok::<(Seq<char>, bool), AsrErrorView>(
            (latest, false),
        ),
        initial_waited(None) == Err::<bool, AsrErrorView>(AsrErrorView::EndedEarly),
        initial_waited(Some(WsFrame::Control)) == Ok::<bool, AsrErrorView>(false),
{
}

/// A recognition starts when the first response carries no code, or one of the two
/// good ones.
pub proof fn law_first_response(
    response: ResponseView,
    m: Map<Seq<char>, JsonTree>,
    code: int,
)
    requires
        response.message_type != 0xf,
        response.payload == JsonTree::Object(m),
        i64::MIN <= code <= i64::MAX,
        m.contains_key("code"@) ==> m["code"@] == JsonTree::Int(code),
    ensures
        initial_checked(response) == (if !m.contains_key("code"@) || code == 20000000 || code
            == 1000 {
            Ok::<(), AsrErrorView>(())
        } else {
            Err::<(), AsrErrorView>(AsrErrorView::Refused { payload: response.payload })
        }),
{
}

proof fn lemma_flags(kind: u8, flags: u8)
    requires
        kind < 16,
        flags < 16,
    ensures
        ((kind * 16 + flags) as u8) >> 4 == kind,
        ((kind * 16 + flags) as u8) & 0x0f == flags,
        (flags & 0x01 != 0) == (flags % 2 == 1),
        (flags & 0x02 != 0) == (flags / 2 % 2 == 1),
        (flags & 0x04 != 0) == (flags / 4 % 2 == 1),
{
    assert(((kind * 16 + flags) as u8) >> 4 == kind && ((kind * 16 + flags) as u8) & 0x0f == flags
        && (flags & 0x01 != 0) == (flags % 2 == 1) && (flags & 0x02 != 0) == (flags / 2 % 2 == 1)
        && (flags & 0x04 != 0) == (flags / 4 % 2 == 1)) by (bit_vector)
        requires
            kind < 16,
            flags < 16,
    ;
}

/// A response of the service: four bytes of header, by the flags a sequence number and
/// an event of four bytes each, the length of the payload and the payload. The payload
/// is the JSON that it writes, decompressed first if it is compressed; the second flag
/// marks the last response.
#[verifier::spinoff_prover]
#[verifier::rlimit(60)]
pub proof fn law_responses_are_read(
    flags: u8,
    compressed: bool,
    numbers: Seq<u8>,
    length: Seq<u8>,
    payload: Seq<u8>,
    plain: Seq<u8>,
    tree: JsonTree,
)
    requires
        flags < 16,
        numbers.len() == (if flags % 2 == 1 {
            4int
        } else {
            0
        }) + (if flags / 4 % 2 == 1 {
            4int
        } else {
            0
        }),
        writes_u32(length, payload.len() as int),
        compressed ==> gunzipped(payload) == Some(plain),
        !compressed ==> payload == plain,
        json_parsed(plain) == Some(tree),
    ensures
        decoded(
            seq![
                0x11u8,
                (9 * 16 + flags) as u8,
                if compressed {
                    0x11u8
                } else {
                    0x10u8
                },
                0u8,
            ] + numbers + length + payload,
        ) == Ok::<ResponseView, AsrErrorView>(
            ResponseView {
                message_type: 9,
                is_last_package: flags / 2 % 2 == 1,
                payload: tree,
                error_code: 0,
            },
        ),
{
    let third = if compressed {
        0x11u8
    } else {
        0x10u8
    };
    let head = seq![0x11u8, (9 * 16 + flags) as u8, third, 0u8];
    let body = numbers + length + payload;
    let data = head + numbers + length + payload;
    lemma_flags(9, flags);
    lemma_flags(1, 1);
    lemma_flags(1, 0);
    assert(data[0] == 0x11u8 && data[1] == (9 * 16 + flags) as u8 && data[2] == third);
    assert(data.skip(4) =~= body);
    assert(body.skip(0) =~= body);
    lemma_payload_is_read(length + payload, length, payload, third & 0x0f, plain, tree);
    lemma_numbers_are_passed(flags, numbers, length + payload);
    assert(body =~= numbers + (length + payload));
}

proof fn lemma_numbers_are_passed(flags: u8, numbers: Seq<u8>, rest: Seq<u8>)
    requires
        flags < 16,
        numbers.len() == (if flags % 2 == 1 {
            4int
        } else {
            0
        }) + (if flags / 4 % 2 == 1 {
            4int
        } else {
            0
        }),
    ensures
        after_numbers(flags, numbers + rest) == Ok::<Seq<u8>, AsrErrorView>(rest),
{
    let body = numbers + rest;
    lemma_flags(9, flags);
    if flags % 2 == 1 && flags / 4 % 2 == 1 {
        assert(body.skip(4).skip(4) =~= rest);
    } else if flags % 2 == 1 || flags / 4 % 2 == 1 {
        assert(body.skip(4) =~= rest);
    } else {
        assert(body =~= rest);
    }
}

proof fn lemma_payload_is_read(
    d: Seq<u8>,
    length: Seq<u8>,
    payload: Seq<u8>,
    compression: u8,
    plain: Seq<u8>,
    tree: JsonTree,
)
    requires
        d == length + payload,
        writes_u32(length, payload.len() as int),
        compression == 1 ==> gunzipped(payload) == Some(plain),
        compression == 0 ==> payload == plain,
        compression == 0 || compression == 1,
        json_parsed(plain) == Some(tree),
    ensures
        payload_read(d, 1, compression) == Ok::<JsonTree, AsrErrorView>(tree),
{
    assert(d.take(4) =~= length);
    assert(d.skip(4) =~= payload);
    assert(payload.take(payload.len() as int) =~= payload);
}

/// An error of the service: four bytes of header, the code, the length of the payload
/// and the payload.
#[verifier::spinoff_prover]
pub proof fn law_errors_are_read(
    code: Seq<u8>,
    n: u32,
    length: Seq<u8>,
    payload: Seq<u8>,
    tree: JsonTree,
)
    requires
        writes_u32(code, n as int),
        writes_u32(length, payload.len() as int),
        json_parsed(payload) == Some(tree),
    ensures
        decoded(seq![0x11u8, 0xf0u8, 0x10u8, 0u8] + code + length + payload) == Ok::<
            ResponseView,
            AsrErrorView,
        >(
            ResponseView {
                message_type: 15,
                is_last_package: false,
                payload: tree,
                error_code: n,
            },
        ),
{
    let data = seq![0x11u8, 0xf0u8, 0x10u8, 0u8] + code + length + payload;
    let body = code + length + payload;
    lemma_flags(15, 0);
    lemma_flags(1, 1);
    lemma_flags(1, 0);
    assert(data[0] == 0x11u8 && data[1] == 0xf0u8 && data[2] == 0x10u8);
    assert(data.skip(4) =~= body);
    assert(body.skip(0) =~= body);
    assert(body.take(4) =~= code);
    assert(body.skip(4) =~= length + payload);
    lemma_payload_is_read(length + payload, length, payload, 0, payload, tree);
}

/// A message to the service: four bytes of header, the length of the compressed payload
/// and the payload. The request that starts a recognition is JSON; audio is raw, and the
/// last run of it is marked.
#[verifier::spinoff_prover]
pub proof fn law_messages_are_framed(
    config: VolcengineAsrConfig,
    uid: Seq<char>,
    chunk: Seq<u8>,
    is_last: bool,
    length: Seq<u8>,
    payload: Seq<u8>,
)
    requires
        payload.len() <= u32::MAX,
        writes_u32(length, payload.len() as int),
    ensures
        gzipped(chunk) == Some(payload) ==> audio_bytes(chunk, is_last) == Some(
            seq![
                0x11u8,
                if is_last {
                    0x22u8
                } else {
                    0x20u8
                },
                0x01u8,
                0x00u8,
            ] + length + payload,
        ),
        gzipped(encode_utf8(json_text(init_tree(config, uid)))) == Some(payload) ==> init_bytes(
            config,
            uid,
        ) == Some(seq![0x11u8, 0x10u8, 0x11u8, 0x00u8] + length + payload),
{
    assert((2u8 << 4) | 2u8 == 0x22u8) by (bit_vector);
    assert((2u8 << 4) | 0u8 == 0x20u8) by (bit_vector);
    assert((0u8 << 4) | 1u8 == 0x01u8) by (bit_vector);
    assert((1u8 << 4) | 0u8 == 0x10u8) by (bit_vector);
    assert((1u8 << 4) | 1u8 == 0x11u8) by (bit_vector);
    assert(length_field(payload.len()) =~= length);
    if gzipped(chunk) == Some(payload) {
        assert(audio_bytes(chunk, is_last)->0 =~= seq![
            0x11u8,
            if is_last {
                0x22u8
            } else {
                0x20u8
            },
            0x01u8,
            0x00u8,
        ] + length + payload);
    }
}

/// The request that starts a recognition: 16-bit mono PCM at 16 kHz, and each setting in
/// its own place.
#[verifier::spinoff_prover]
pub proof fn law_request_carries_the_settings(config: VolcengineAsrConfig, uid: Seq<char>)
    ensures
        ({
            let t = init_tree(config, uid);
            let user = t.get("user"@);
            let audio = t.get("audio"@);
            let request = t.get("request"@);
            &&& user is Some && user->0.get_str("uid"@) == Some(uid)
            &&& audio is Some && audio->0.get_str("format"@) == Some("pcm"@)
            &&& audio->0.get("rate"@) == Some(JsonTree::Int(16_000))
            &&& audio->0.get("bits"@) == Some(JsonTree::Int(16))
            &&& audio->0.get("channel"@) == Some(JsonTree::Int(1))
            &&& audio->0.get_str("language"@) == Some(config.language@)
            &&& request is Some && request->0.get_str("model_name"@) == Some("bigmodel"@)
            &&& request->0.get_bool("enable_itn"@) == Some(config.enable_itn)
            &&& request->0.get_bool("enable_punc"@) == Some(config.enable_punc)
            &&& request->0.get_bool("enable_ddc"@) == Some(config.enable_ddc)
            &&& request->0.get_str("result_type"@) == Some("single"@)
            &&& request->0.get_bool("show_utterances"@) == Some(false)
        }),
{
    reveal_strlit("user");
    reveal_strlit("audio");
    reveal_strlit("request");
    reveal_strlit("uid");
    reveal_strlit("format");
    reveal_strlit("rate");
    reveal_strlit("bits");
    reveal_strlit("channel");
    reveal_strlit("language");
    reveal_strlit("model_name");
    reveal_strlit("enable_itn");
    reveal_strlit("enable_punc");
    reveal_strlit("enable_ddc");
    reveal_strlit("result_type");
    reveal_strlit("show_utterances");
    assert("enable_itn"@[7] == 'i' && "enable_punc"@[7] == 'p' && "enable_ddc"@[7] == 'd');
    assert("model_name"@[0] == 'm' && "result_type"@[0] == 'r' && "show_utterances"@[0] == 's'
        && "enable_itn"@[0] == 'e' && "enable_punc"@[0] == 'e' && "enable_ddc"@[0] == 'e');
    assert("user"@[0] == 'u' && "audio"@[0] == 'a' && "request"@[0] == 'r');
    assert("format"@[0] == 'f' && "rate"@[0] == 'r' && "bits"@[0] == 'b' && "channel"@[0] == 'c'
        && "language"@[0] == 'l');
}

/// Audio goes out in runs of the configured length: 16-bit samples, 16 of them in a
/// millisecond. A length that the service does not accept is moved to the nearest one that
/// it does.
pub proof fn law_runs_of_audio(ms: u32, n: nat)
    ensures
        chunk_len(ms) == 32 * ms,
        60 <= chunk_ms_of(n) <= 400,
        60 <= n <= 400 ==> chunk_ms_of(n) == n,
        n < 60 ==> chunk_ms_of(n) == 60,
        n > 400 ==> chunk_ms_of(n) == 400,
{
}

/// The settings of the service: which variables are read, and what stands in for one that
/// is not set. A key has to be there, or an application with its key.
#[verifier::spinoff_prover]
pub proof fn law_settings(env: Env, r: Result<Option<VolcengineAsrConfig>, ConfigError>)
    requires
        asr_configured(env, r),
    ensures
        ({
            let first = |a: Seq<char>, b: Seq<char>|
                match env.nonempty(a) {
                    Some(x) => Some(x),
                    None => env.nonempty(b),
                };
            let provider = asr_provider(env);
            let wanted = provider == "volcengine"@ || provider == "volc"@ || provider
                == "doubao"@;
            let key = first("VOLCENGINE_ASR_API_KEY"@, "VOLCENGINE_API_KEY"@);
            let app = first("VOLCENGINE_ASR_APP_ID"@, "VOLCENGINE_APP_ID"@);
            let access = match first("VOLCENGINE_ASR_ACCESS_KEY"@, "VOLCENGINE_ASR_ACCESS_TOKEN"@) {
                Some(x) => Some(x),
                None => env.nonempty("VOLCENGINE_ACCESS_TOKEN"@),
            };
            if !wanted {
                r == Ok::<Option<VolcengineAsrConfig>, ConfigError>(None)
            } else if key is None && (app is None || access is None) {
                r matches Err(e) && e.message@
                    == "missing Volcengine ASR credentials; set VOLCENGINE_ASR_API_KEY or VOLCENGINE_ASR_APP_ID + VOLCENGINE_ASR_ACCESS_KEY"@
            } else {
                r matches Ok(Some(c)) && {
                    let ms = env.var("VOLCENGINE_ASR_CHUNK_MS"@);
                    let itn = env.var("VOLCENGINE_ASR_ENABLE_ITN"@);
                    let punc = env.var("VOLCENGINE_ASR_ENABLE_PUNC"@);
                    let ddc = env.var("VOLCENGINE_ASR_ENABLE_DDC"@);
                    &&& opt_text(c.api_key) == key
                    &&& opt_text(c.app_id) == app
                    &&& opt_text(c.access_key) == access
                    &&& c.resource_id@ == match env.nonempty("VOLCENGINE_ASR_RESOURCE_ID"@) {
                        Some(x) => x,
                        None => "volc.bigasr.sauc.duration"@,
                    }
                    &&& c.endpoint@ == match env.nonempty("VOLCENGINE_ASR_ENDPOINT"@) {
                        Some(x) => x,
                        None => "wss://openspeech.bytedance.com/api/v3/sauc/bigmodel_async"@,
                    }
                    &&& c.language@ == match env.nonempty("VOLCENGINE_ASR_LANGUAGE"@) {
                        Some(x) => x,
                        None => "zh-CN"@,
                    }
                    &&& ms is None ==> c.chunk_ms == 180
                    &&& ms matches Some(x) ==> c.chunk_ms == chunk_ms_of(
                        or_uint(Some(x), 0xffff_ffff, 180),
                    )
                    &&& c.enable_itn == or_bool(itn, true)
                    &&& c.enable_punc == or_bool(punc, true)
                    &&& c.enable_ddc == or_bool(ddc, false)
                }
            }
        }),
        env.var("XIAOZHI_ASR_PROVIDER"@) is None ==> r == Ok::<
            Option<VolcengineAsrConfig>,
            ConfigError,
        >(None),
        env.var("XIAOZHI_ASR_PROVIDER"@) matches Some(x) ==> asr_provider(env) == lowered(x),
{
    reveal_strlit("mock");
    reveal_strlit("volc");
    reveal_strlit("volcengine");
    reveal_strlit("doubao");
    let name = lowered("mock"@);
    assert(name.len() == 4);
    assert(name[0] != 'v');
    assert("volc"@[0] == 'v');
}

/// The headers that open a connection: a key if there is one, and else the application
/// with its key; then the resource, and the id of the request twice.
pub proof fn law_headers(config: VolcengineAsrConfig, id: Seq<char>)
    ensures
        config.api_key matches Some(key) ==> header_pairs(config, id) == seq![
            ("X-Api-Key"@, key@),
            ("X-Api-Resource-Id"@, config.resource_id@),
            ("X-Api-Connect-Id"@, id),
            ("X-Api-Request-Id"@, id),
            ("X-Api-Sequence"@, "-1"@),
        ],
        config.api_key is None ==> (config.app_id matches Some(app) ==> (
        config.access_key matches Some(key) ==> header_pairs(config, id) == seq![
            ("X-Api-App-Key"@, app@),
            ("X-Api-Access-Key"@, key@),
            ("X-Api-Resource-Id"@, config.resource_id@),
            ("X-Api-Connect-Id"@, id),
            ("X-Api-Request-Id"@, id),
            ("X-Api-Sequence"@, "-1"@),
        ])),
{
    match config.api_key {
        Some(key) => {
            assert(header_pairs(config, id) =~= seq![
                ("X-Api-Key"@, key@),
                ("X-Api-Resource-Id"@, config.resource_id@),
                ("X-Api-Connect-Id"@, id),
                ("X-Api-Request-Id"@, id),
                ("X-Api-Sequence"@, "-1"@),
            ]);
        },
        None => if config.app_id is Some && config.access_key is Some {
            assert(header_pairs(config, id) =~= seq![
                ("X-Api-App-Key"@, config.app_id->0@),
                ("X-Api-Access-Key"@, config.access_key->0@),
                ("X-Api-Resource-Id"@, config.resource_id@),
                ("X-Api-Connect-Id"@, id),
                ("X-Api-Request-Id"@, id),
                ("X-Api-Sequence"@, "-1"@),
            ]);
        },
    }
}

/// What a payload stands for that is no JSON: nothing if it is empty, and else its text.
/// One that should be JSON and is none is an error, and so is one that should be
/// compressed and is not.
pub proof fn law_other_payloads(plain: Seq<u8>, payload: Seq<u8>, serialization: u8)
    ensures
        payload_tree(plain, 1) == (match json_parsed(plain) {
            Some(t) => Ok::<JsonTree, AsrErrorView>(t),
            None => Err::<JsonTree, AsrErrorView>(AsrErrorView::NotJson),
        }),
        serialization != 1 && plain.len() == 0 ==> payload_tree(plain, serialization) == Ok::<
            JsonTree,
            AsrErrorView,
        >(JsonTree::Null),
        serialization != 1 && plain.len() > 0 ==> payload_tree(plain, serialization) == Ok::<
            JsonTree,
            AsrErrorView,
        >(JsonTree::Str(lossy_text(plain))),
        unpacked(payload, 1) == gunzipped(payload),
        unpacked(payload, 0) == Some(payload),
{
}

/// A response of another kind has no payload, whatever it holds; only its mark of the last
/// response is read.
#[verifier::spinoff_prover]
pub proof fn law_other_responses(kind: u8, flags: u8, third: u8, rest: Seq<u8>)
    requires
        kind < 16,
        kind != 9,
        kind != 15,
        flags < 16,
    ensures
        decoded(seq![0x11u8, (kind * 16 + flags) as u8, third, 0u8] + rest) == Ok::<
            ResponseView,
            AsrErrorView,
        >(
            ResponseView {
                message_type: kind,
                is_last_package: flags / 2 % 2 == 1,
                payload: JsonTree::Null,
                error_code: 0,
            },
        ),
{
    let data = seq![0x11u8, (kind * 16 + flags) as u8, third, 0u8] + rest;
    lemma_flags(kind, flags);
    lemma_flags(1, 1);
    assert(data[0] == 0x11u8 && data[1] == (kind * 16 + flags) as u8);
    assert(data.skip(4).skip(0) =~= rest);
}

/// Responses that are cut short are refused.
#[verifier::spinoff_prover]
pub proof fn law_cut_responses_are_refused(
    data: Seq<u8>,
    declared: int,
    length: Seq<u8>,
    rest: Seq<u8>,
)
    requires
        writes_u32(length, declared),
        rest.len() < declared,
    ensures
        data.len() < 4 ==> decoded(data) == Err::<ResponseView, AsrErrorView>(
            AsrErrorView::TooShort { len: data.len() as int },
        ),
        decoded(seq![0x11u8, 0x90u8, 0x10u8, 0u8] + length + rest) == Err::<
            ResponseView,
            AsrErrorView,
        >(AsrErrorView::PayloadTruncated { declared, available: rest.len() as int }),
        decoded(seq![0x11u8, 0x90u8, 0x10u8, 0u8]) == Err::<ResponseView, AsrErrorView>(
            AsrErrorView::MissingPayloadSize,
        ),
        decoded(seq![0x11u8, 0x91u8, 0x10u8, 0u8]) == Err::<ResponseView, AsrErrorView>(
            AsrErrorView::MissingSequence,
        ),
        decoded(seq![0x11u8, 0x94u8, 0x10u8, 0u8]) == Err::<ResponseView, AsrErrorView>(
            AsrErrorView::MissingEvent,
        ),
        decoded(seq![0x11u8, 0xf0u8, 0x10u8, 0u8]) == Err::<ResponseView, AsrErrorView>(
            AsrErrorView::ErrorTruncated,
        ),
        decoded(seq![0x12u8, 0x90u8, 0x10u8, 0u8]) == Err::<ResponseView, AsrErrorView>(
            AsrErrorView::HeaderTruncated,
        ),
        decoded(seq![0x10u8, 0x90u8, 0x10u8, 0u8]) == Err::<ResponseView, AsrErrorView>(
            AsrErrorView::InvalidHeaderSize { size: 0 },
        ),
{
    lemma_flags(9, 0);
    lemma_flags(9, 1);
    lemma_flags(9, 4);
    lemma_flags(15, 0);
    lemma_flags(1, 0);
    lemma_flags(1, 1);
    lemma_flags(1, 2);
    let d = seq![0x11u8, 0x90u8, 0x10u8, 0u8] + length + rest;
    assert(d.skip(4).skip(0).take(4) =~= length);
    assert(d.skip(4).skip(0).skip(4) =~= rest);
}

/// A websocket message does what the response in it does. What cannot be read, and a
/// connection that the service closes, is an error.
pub proof fn law_messages_of_the_service(latest: Seq<char>, data: Bytes, text: String)
    ensures
        ({
            let read = result_read(latest, Some(WsFrame::Binary(data)));
            let first = initial_waited(Some(WsFrame::Binary(data)));
            match decoded(bytes_content(data)) {
                Ok(m) => {
                    &&& read == result_taken(latest, m)
                    &&& initial_checked(m) is Ok ==> first == Ok::<bool, AsrErrorView>(true)
                    &&& initial_checked(m) matches Err(e) ==> first == Err::<bool, AsrErrorView>(e)
                },
                Err(e) => read == Err::<(Seq<char>, bool), AsrErrorView>(e) && first == Err::<
                    bool,
                    AsrErrorView,
                >(e),
            }
        }),
        ({
            let read = result_read(latest, Some(WsFrame::Text(text)));
            let first = initial_waited(Some(WsFrame::Text(text)));
            match decoded(encode_utf8(text@)) {
                Ok(m) => {
                    &&& read == result_taken(latest, m)
                    &&& initial_checked(m) is Ok ==> first == Ok::<bool, AsrErrorView>(true)
                    &&& initial_checked(m) matches Err(e) ==> first == Err::<bool, AsrErrorView>(e)
                },
                Err(e) => read == Err::<(Seq<char>, bool), AsrErrorView>(e) && first == Err::<
                    bool,
                    AsrErrorView,
                >(e),
            }
        }),
        result_read(latest, Some(WsFrame::Close(text))) == Err::<(Seq<char>, bool), AsrErrorView>(
            AsrErrorView::Closed(text@),
        ),
        initial_waited(Some(WsFrame::Close(text))) == Err::<bool, AsrErrorView>(
            AsrErrorView::Closed(text@),
        ),
{
}

/// A result without a text, and a list without one, leave the text as it was.
pub proof fn law_silent_results_keep_the_text(
    latest: Seq<char>,
    response: ResponseView,
    m: Map<Seq<char>, JsonTree>,
    items: Seq<JsonTree>,
)
    requires
        response.message_type != 0xf,
        response.payload == JsonTree::Object(m),
        m.contains_key("result"@),
        (m["result"@] == JsonTree::Array(items) && forall|j: int, t: Seq<char>|
            0 <= j < items.len() && #[trigger] has_text(items[j], t) ==> t.len() == 0) || (!(
        m["result"@] is Array) && forall|t: Seq<char>| !#[trigger] has_text(m["result"@], t)),
    ensures
        result_taken(latest, response) == Ok::<(Seq<char>, bool), AsrErrorView>(
            (latest, response.is_last_package),
        ),
{
    if m["result"@] is Array {
        lemma_no_last_text(items);
    } else {
        match m["result"@].get_str("text"@) {
            Some(t) => {
                assert(has_text(m["result"@], t));
            },
            None => {},
        }
    }
}

proof fn lemma_no_last_text(items: Seq<JsonTree>)
    requires
        forall|j: int, t: Seq<char>|
            0 <= j < items.len() && #[trigger] has_text(items[j], t) ==> t.len() == 0,
    ensures
        last_text(items) is None,
    decreases items.len(),
{
    if items.len() > 0 {
        let n = items.len() - 1;
        let rest = items.drop_last();
        assert forall|j: int, t: Seq<char>|
            0 <= j < rest.len() && #[trigger] has_text(rest[j], t) implies t.len() == 0 by {
            assert(has_text(items[j], t));
        }
        lemma_no_last_text(rest);
        match items.last().get_str("text"@) {
            Some(t) => {
                assert(has_text(items[n], t));
            },
            None => {},
        }
    }
}

/// A payload that cannot be decompressed, or that is not JSON where it should be, is an
/// error of the response.
#[verifier::spinoff_prover]
pub proof fn law_unreadable_payloads(length: Seq<u8>, payload: Seq<u8>, plain: Seq<u8>)
    requires
        writes_u32(length, payload.len() as int),
    ensures
        gunzipped(payload) is None ==> decoded(
            seq![0x11u8, 0x90u8, 0x11u8, 0u8] + length + payload,
        ) == Err::<ResponseView, AsrErrorView>(AsrErrorView::Gunzip),
        gunzipped(payload) == Some(plain) && json_parsed(plain) is None ==> decoded(
            seq![0x11u8, 0x90u8, 0x11u8, 0u8] + length + payload,
        ) == Err::<ResponseView, AsrErrorView>(AsrErrorView::NotJson),
        json_parsed(payload) is None ==> decoded(
            seq![0x11u8, 0x90u8, 0x10u8, 0u8] + length + payload,
        ) == Err::<ResponseView, AsrErrorView>(AsrErrorView::NotJson),
        payload.len() > 0 ==> decoded(seq![0x11u8, 0x90u8, 0x00u8, 0u8] + length + payload) == Ok::<
            ResponseView,
            AsrErrorView,
        >(
            ResponseView {
                message_type: 9,
                is_last_package: false,
                payload: JsonTree::Str(lossy_text(payload)),
                error_code: 0,
            },
        ),
{
    lemma_flags(9, 0);
    lemma_flags(1, 1);
    lemma_flags(1, 0);
    lemma_flags(0, 0);
    let tail = length + payload;
    assert(tail.take(4) =~= length);
    assert(tail.skip(4) =~= payload);
    assert(payload.take(payload.len() as int) =~= payload);
    let a = seq![0x11u8, 0x90u8, 0x11u8, 0u8] + length + payload;
    assert(a.skip(4).skip(0) =~= tail);
    assert(a[0] == 0x11u8 && a[1] == 0x90u8 && a[2] == 0x11u8);
    let b = seq![0x11u8, 0x90u8, 0x10u8, 0u8] + length + payload;
    assert(b.skip(4).skip(0) =~= tail);
    assert(b[0] == 0x11u8 && b[1] == 0x90u8 && b[2] == 0x10u8);
    let c = seq![0x11u8, 0x90u8, 0x00u8, 0u8] + length + payload;
    assert(c.skip(4).skip(0) =~= tail);
    assert(c[0] == 0x11u8 && c[1] == 0x90u8 && c[2] == 0x00u8);
}

} // verus!
