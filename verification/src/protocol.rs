//! The device protocol: binary audio frames and JSON control messages.
use crate::buf::{
    be_u16, be_u32, bytes_as_slice, bytes_clone, bytes_content, bytes_from_vec, extend, push_u16,
    push_u32, read_u16, read_u32, u16_be, u32_be, writes_u16, writes_u32,
};
use crate::json::{empty_object, Json, JsonTree};
use crate::text::{concat, decimal, decimal_text, parse_uint, parsed_uint};
use bytes::Bytes;
use vstd::prelude::*;

verus! {

pub const SERVER_SAMPLE_RATE: u32 = 24_000;

pub const SERVER_CHANNELS: u8 = 1;

pub const SERVER_FRAME_DURATION_MS: u32 = 60;

/// One packet of audio.
#[derive(Debug)]
pub struct AudioFrame {
    pub timestamp: u32,
    pub payload: Bytes,
}

impl AudioFrame {
    /// The bytes of the packet.
    pub open spec fn bytes(self) -> Seq<u8> {
        bytes_content(self.payload)
    }
}

/// How audio is framed on the wire.
#[derive(Debug, Clone, Copy, PartialEq, Eq, Structural)]
pub enum BinaryProtocolVersion {
    V1,
    V2,
    V3,
}

impl BinaryProtocolVersion {
    /// The version that the text of a header names; `V1` unless it is 2 or 3.
    pub open spec fn of_header(value: Option<Seq<char>>) -> BinaryProtocolVersion {
        let number = match value {
            Some(v) => parsed_uint(v, 255),
            None => None,
        };
        if number == Some(2nat) {
            BinaryProtocolVersion::V2
        } else if number == Some(3nat) {
            BinaryProtocolVersion::V3
        } else {
            BinaryProtocolVersion::V1
        }
    }

    /// The version that a connection header asks for.
    pub fn from_header(value: Option<&str>) -> (r: Self)
        ensures
            r == Self::of_header(crate::text::opt_str(value)),
    {
        match value {
            Some(v) => match parse_uint(v, 255) {
                Some(2) => BinaryProtocolVersion::V2,
                Some(3) => BinaryProtocolVersion::V3,
                _ => BinaryProtocolVersion::V1,
            },
            None => BinaryProtocolVersion::V1,
        }
    }

    /// The version that a `hello` message asks for; any number but 1, 2 and 3
    /// keeps the fallback.
    pub fn from_hello(value: Option<u64>, fallback: Self) -> (r: Self)
        ensures
            value == Some(1u64) ==> r == BinaryProtocolVersion::V1,
            value == Some(2u64) ==> r == BinaryProtocolVersion::V2,
            value == Some(3u64) ==> r == BinaryProtocolVersion::V3,
            value != Some(1u64) && value != Some(2u64) && value != Some(3u64) ==> r == fallback,
    {
        match value {
            Some(2) => BinaryProtocolVersion::V2,
            Some(3) => BinaryProtocolVersion::V3,
            Some(1) => BinaryProtocolVersion::V1,
            _ => fallback,
        }
    }
}

/// Why a binary frame was refused.
#[derive(Debug, Clone, Copy, PartialEq, Eq, Structural)]
pub enum ProtocolError {
    ShortFrame { version: u8, len: usize },
    InvalidPayloadSize { declared: usize, available: usize },
}

impl ProtocolError {
    /// The message that describes the error.
    pub open spec fn message_text(self) -> Seq<char> {
        match self {
            ProtocolError::ShortFrame { version, len } => "binary frame too short for protocol v"@
                + decimal_text(version as nat) + ": "@ + decimal_text(len as nat) + " bytes"@,
            ProtocolError::InvalidPayloadSize { declared, available } => "declared payload size "@
                + decimal_text(declared as nat) + " exceeds frame length "@ + decimal_text(
                available as nat,
            ),
        }
    }

    /// The message that describes the error.
    pub fn message(&self) -> (r: String)
        ensures
            r@ == self.message_text(),
    {
        match self {
            ProtocolError::ShortFrame { version, len } => {
                let head = concat(
                    "binary frame too short for protocol v",
                    decimal(*version as u64).as_str(),
                );
                let head = concat(head.as_str(), ": ");
                let head = concat(head.as_str(), decimal(*len as u64).as_str());
                concat(head.as_str(), " bytes")
            },
            ProtocolError::InvalidPayloadSize { declared, available } => {
                let head = concat("declared payload size ", decimal(*declared as u64).as_str());
                let head = concat(head.as_str(), " exceeds frame length ");
                concat(head.as_str(), decimal(*available as u64).as_str())
            },
        }
    }
}

/// What the bytes after a header of `header` bytes hold, given the size that the
/// header declares.
pub open spec fn framed_payload(data: Seq<u8>, header: int, declared: int) -> Result<
    Seq<u8>,
    ProtocolError,
> {
    if declared > data.len() - header {
        Err(
            ProtocolError::InvalidPayloadSize {
                declared: declared as usize,
                available: (data.len() - header) as usize,
            },
        )
    } else {
        Ok(data.subrange(header, header + declared))
    }
}

/// The timestamp and the payload that a frame holds. `Ok(None)` stands for a
/// frame that is not audio.
pub open spec fn decoded_frame(version: BinaryProtocolVersion, data: Seq<u8>) -> Result<
    Option<(u32, Seq<u8>)>,
    ProtocolError,
> {
    match version {
        BinaryProtocolVersion::V1 => Ok(Some((0u32, data))),
        BinaryProtocolVersion::V2 => if data.len() < 16 {
            Err(ProtocolError::ShortFrame { version: 2, len: data.len() as usize })
        } else if be_u16(data.subrange(2, 4)) != 0 {
            Ok(None)
        } else {
            match framed_payload(data, 16, be_u32(data.subrange(12, 16))) {
                Ok(payload) => Ok(Some((be_u32(data.subrange(8, 12)) as u32, payload))),
                Err(e) => Err(e),
            }
        },
        BinaryProtocolVersion::V3 => if data.len() < 4 {
            Err(ProtocolError::ShortFrame { version: 3, len: data.len() as usize })
        } else if data[0] != 0 {
            Ok(None)
        } else {
            match framed_payload(data, 4, be_u16(data.subrange(2, 4))) {
                Ok(payload) => Ok(Some((0u32, payload))),
                Err(e) => Err(e),
            }
        },
    }
}

/// The wire form of a frame. The size field of version 2 holds the payload's
/// length modulo 2^32, that of version 3 its length modulo 2^16.
pub open spec fn encoded_frame(
    version: BinaryProtocolVersion,
    timestamp: u32,
    payload: Seq<u8>,
) -> Seq<u8> {
    match version {
        BinaryProtocolVersion::V1 => payload,
        BinaryProtocolVersion::V2 => u16_be(2) + u16_be(0) + u32_be(0) + u32_be(timestamp) + u32_be(
            (payload.len() as int % 0x1_0000_0000) as u32,
        ) + payload,
        BinaryProtocolVersion::V3 => seq![0u8, 0u8] + u16_be(
            (payload.len() as int % 0x1_0000) as u16,
        ) + payload,
    }
}

/// Reads a binary frame. A frame of another type than audio gives `Ok(None)`.
pub fn decode_audio_frame(version: BinaryProtocolVersion, data: &[u8]) -> (r: Result<
    Option<AudioFrame>,
    ProtocolError,
>)
    ensures
        match r {
            Ok(Some(frame)) => decoded_frame(version, data@) == Ok::<
                Option<(u32, Seq<u8>)>,
                ProtocolError,
            >(Some((frame.timestamp, frame.bytes()))),
            Ok(None) => decoded_frame(version, data@) == Ok::<
                Option<(u32, Seq<u8>)>,
                ProtocolError,
            >(None),
            Err(e) => decoded_frame(version, data@) == Err::<Option<(u32, Seq<u8>)>, ProtocolError>(e),
        },
{
    match version {
        BinaryProtocolVersion::V1 => Ok(
            Some(AudioFrame { timestamp: 0, payload: Bytes::copy_from_slice(data) }),
        ),
        BinaryProtocolVersion::V2 => {
            if data.len() < 16 {
                return Err(ProtocolError::ShortFrame { version: 2, len: data.len() });
            }
            if read_u16(data, 2) != 0 {
                return Ok(None);
            }
            let timestamp: u32 = read_u32(data, 8);
            let payload_size: usize = read_u32(data, 12) as usize;
            if payload_size > data.len() - 16 {
                return Err(
                    ProtocolError::InvalidPayloadSize {
                        declared: payload_size,
                        available: data.len() - 16,
                    },
                );
            }
            let payload = vstd::slice::slice_subrange(data, 16, 16 + payload_size);
            Ok(Some(AudioFrame { timestamp, payload: Bytes::copy_from_slice(payload) }))
        },
        BinaryProtocolVersion::V3 => {
            if data.len() < 4 {
                return Err(ProtocolError::ShortFrame { version: 3, len: data.len() });
            }
            if data[0] != 0 {
                return Ok(None);
            }
            let payload_size: usize = read_u16(data, 2) as usize;
            if payload_size > data.len() - 4 {
                return Err(
                    ProtocolError::InvalidPayloadSize {
                        declared: payload_size,
                        available: data.len() - 4,
                    },
                );
            }
            let payload = vstd::slice::slice_subrange(data, 4, 4 + payload_size);
            Ok(Some(AudioFrame { timestamp: 0, payload: Bytes::copy_from_slice(payload) }))
        },
    }
}

/// Writes an audio frame.
pub fn encode_audio_frame(version: BinaryProtocolVersion, frame: &AudioFrame) -> (r: Bytes)
    ensures
        bytes_content(r) == encoded_frame(version, frame.timestamp, frame.bytes()),
{
    match version {
        BinaryProtocolVersion::V1 => bytes_clone(&frame.payload),
        BinaryProtocolVersion::V2 => {
            let payload = bytes_as_slice(&frame.payload);
            let size: u32 = (payload.len() as u64 % 0x1_0000_0000) as u32;
            let mut out: Vec<u8> = Vec::new();
            push_u16(&mut out, 2);
            push_u16(&mut out, 0);
            push_u32(&mut out, 0);
            push_u32(&mut out, frame.timestamp);
            push_u32(&mut out, size);
            extend(&mut out, payload);
            proof {
                assert(out@ =~= encoded_frame(version, frame.timestamp, frame.bytes()));
            }
            bytes_from_vec(out)
        },
        BinaryProtocolVersion::V3 => {
            let payload = bytes_as_slice(&frame.payload);
            let size: u16 = (payload.len() as u64 % 0x1_0000) as u16;
            let mut out: Vec<u8> = Vec::new();
            out.push(0);
            out.push(0);
            push_u16(&mut out, size);
            extend(&mut out, payload);
            proof {
                assert(out@ =~= encoded_frame(version, frame.timestamp, frame.bytes()));
            }
            bytes_from_vec(out)
        },
    }
}

/// Version 1 carries the payload unchanged.
pub proof fn law_v1_roundtrip(timestamp: u32, payload: Seq<u8>)
    ensures
        decoded_frame(
            BinaryProtocolVersion::V1,
            encoded_frame(BinaryProtocolVersion::V1, timestamp, payload),
        ) == Ok::<Option<(u32, Seq<u8>)>, ProtocolError>(Some((0u32, payload))),
{
}

/// Version 2 gives back the timestamp and the payload that were written, as long
/// as the payload's length fits in its size field.
pub proof fn law_v2_roundtrip(timestamp: u32, payload: Seq<u8>)
    requires
        payload.len() < 0x1_0000_0000,
    ensures
        decoded_frame(
            BinaryProtocolVersion::V2,
            encoded_frame(BinaryProtocolVersion::V2, timestamp, payload),
        ) == Ok::<Option<(u32, Seq<u8>)>, ProtocolError>(Some((timestamp, payload))),
{
    let size = payload.len() as u32;
    let data = encoded_frame(BinaryProtocolVersion::V2, timestamp, payload);
    crate::buf::lemma_u16_be(0);
    crate::buf::lemma_u32_be(timestamp);
    crate::buf::lemma_u32_be(size);
    assert(data.subrange(2, 4) =~= u16_be(0));
    assert(data.subrange(8, 12) =~= u32_be(timestamp));
    assert(data.subrange(12, 16) =~= u32_be(size));
    assert(data.subrange(16, 16 + size as int) =~= payload);
}

/// Version 3 gives back the payload that was written, as long as its length fits
/// in the size field. The timestamp is not carried.
pub proof fn law_v3_roundtrip(timestamp: u32, payload: Seq<u8>)
    requires
        payload.len() < 0x1_0000,
    ensures
        decoded_frame(
            BinaryProtocolVersion::V3,
            encoded_frame(BinaryProtocolVersion::V3, timestamp, payload),
        ) == Ok::<Option<(u32, Seq<u8>)>, ProtocolError>(Some((0u32, payload))),
{
    let size = payload.len() as u16;
    let data = encoded_frame(BinaryProtocolVersion::V3, timestamp, payload);
    crate::buf::lemma_u16_be(size);
    assert(data.subrange(2, 4) =~= u16_be(size));
    assert(data.subrange(4, 4 + size as int) =~= payload);
}

/// A frame of version 2 holds two bytes that are not read, the type 0 of audio, four
/// bytes that are not read, the timestamp, the size of the payload and the payload.
#[verifier::spinoff_prover]
pub proof fn law_v2_frames_are_read(
    lead: Seq<u8>,
    reserved: Seq<u8>,
    stamp: Seq<u8>,
    timestamp: u32,
    size: Seq<u8>,
    payload: Seq<u8>,
    more: Seq<u8>,
)
    requires
        lead.len() == 2,
        reserved.len() == 4,
        writes_u32(stamp, timestamp as int),
        writes_u32(size, payload.len() as int),
    ensures
        decoded_frame(
            BinaryProtocolVersion::V2,
            lead + seq![0u8, 0u8] + reserved + stamp + size + payload + more,
        ) == Ok::<Option<(u32, Seq<u8>)>, ProtocolError>(Some((timestamp, payload))),
{
    let data = lead + seq![0u8, 0u8] + reserved + stamp + size + payload + more;
    assert(data.subrange(2, 4) =~= seq![0u8, 0u8]);
    assert(data.subrange(8, 12) =~= stamp);
    assert(data.subrange(12, 16) =~= size);
    assert(data.subrange(16, 16 + payload.len() as int) =~= payload);
}

/// A frame of version 3 holds the type 0 of audio, a byte that is not read, the size of
/// the payload and the payload.
#[verifier::spinoff_prover]
pub proof fn law_v3_frames_are_read(
    reserved: u8,
    size: Seq<u8>,
    payload: Seq<u8>,
    more: Seq<u8>,
)
    requires
        writes_u16(size, payload.len() as int),
    ensures
        decoded_frame(
            BinaryProtocolVersion::V3,
            seq![0u8, reserved] + size + payload + more,
        ) == Ok::<Option<(u32, Seq<u8>)>, ProtocolError>(Some((0u32, payload))),
{
    let data = seq![0u8, reserved] + size + payload + more;
    assert(data.subrange(2, 4) =~= size);
    assert(data.subrange(4, 4 + payload.len() as int) =~= payload);
}

/// A frame of another type is no audio, whatever else it holds.
pub proof fn law_other_types_are_no_audio(data: Seq<u8>)
    ensures
        data.len() >= 16 && (data[2] != 0 || data[3] != 0) ==> decoded_frame(
            BinaryProtocolVersion::V2,
            data,
        ) == Ok::<Option<(u32, Seq<u8>)>, ProtocolError>(None),
        data.len() >= 4 && data[0] != 0 ==> decoded_frame(BinaryProtocolVersion::V3, data) == Ok::<
            Option<(u32, Seq<u8>)>,
            ProtocolError,
        >(None),
{
}

/// A frame that is shorter than its header, or than the size in it says, is refused.
#[verifier::spinoff_prover]
pub proof fn law_short_frames_are_refused(data: Seq<u8>, declared: int)
    requires
        data.len() <= usize::MAX,
    ensures
        data.len() < 16 ==> decoded_frame(BinaryProtocolVersion::V2, data) == Err::<
            Option<(u32, Seq<u8>)>,
            ProtocolError,
        >(ProtocolError::ShortFrame { version: 2, len: data.len() as usize }),
        data.len() < 4 ==> decoded_frame(BinaryProtocolVersion::V3, data) == Err::<
            Option<(u32, Seq<u8>)>,
            ProtocolError,
        >(ProtocolError::ShortFrame { version: 3, len: data.len() as usize }),
        data.len() >= 16 && data[2] == 0 && data[3] == 0 && writes_u32(
            data.subrange(12, 16),
            declared,
        ) && declared > data.len() - 16 ==> decoded_frame(BinaryProtocolVersion::V2, data) == Err::<
            Option<(u32, Seq<u8>)>,
            ProtocolError,
        >(
            ProtocolError::InvalidPayloadSize {
                declared: declared as usize,
                available: (data.len() - 16) as usize,
            },
        ),
        data.len() >= 4 && data[0] == 0 && writes_u16(data.subrange(2, 4), declared) && declared
            > data.len() - 4 ==> decoded_frame(BinaryProtocolVersion::V3, data) == Err::<
            Option<(u32, Seq<u8>)>,
            ProtocolError,
        >(
            ProtocolError::InvalidPayloadSize {
                declared: declared as usize,
                available: (data.len() - 4) as usize,
            },
        ),
{
}

/// The frames that the server writes: version 1 is the packet alone, version 2 puts its
/// number, the type 0, the timestamp and the size before it, version 3 the type 0 and
/// the size.
#[verifier::spinoff_prover]
pub proof fn law_frames_are_written(
    timestamp: u32,
    stamp: Seq<u8>,
    size: Seq<u8>,
    payload: Seq<u8>,
)
    ensures
        encoded_frame(BinaryProtocolVersion::V1, timestamp, payload) == payload,
        writes_u32(stamp, timestamp as int) && writes_u32(size, payload.len() as int)
            ==> encoded_frame(BinaryProtocolVersion::V2, timestamp, payload) == seq![
            0u8,
            2u8,
            0u8,
            0u8,
            0u8,
            0u8,
            0u8,
            0u8,
        ] + stamp + size + payload,
        writes_u16(size, payload.len() as int) ==> encoded_frame(
            BinaryProtocolVersion::V3,
            timestamp,
            payload,
        ) == seq![0u8, 0u8] + size + payload,
{
    if writes_u32(stamp, timestamp as int) && writes_u32(size, payload.len() as int) {
        crate::buf::lemma_u32_bytes(stamp, timestamp);
        crate::buf::lemma_u32_bytes(size, payload.len() as u32);
        assert(u16_be(2) + u16_be(0) + u32_be(0) =~= seq![0u8, 2u8, 0u8, 0u8, 0u8, 0u8, 0u8, 0u8]);
    }
    if writes_u16(size, payload.len() as int) {
        crate::buf::lemma_u16_bytes(size, payload.len() as u16);
    }
}

/// The number 2 or 3 in the header asks for that version, and anything else for version
/// 1.
pub proof fn law_header_asks_for_a_version(n: nat)
    ensures
        BinaryProtocolVersion::of_header(Some(decimal_text(n))) == (if n == 2 {
            BinaryProtocolVersion::V2
        } else if n == 3 {
            BinaryProtocolVersion::V3
        } else {
            BinaryProtocolVersion::V1
        }),
        BinaryProtocolVersion::of_header(None) == BinaryProtocolVersion::V1,
{
    crate::text::law_decimal_limit(n, 255);
}

/// A control message from the device. `extra` holds the members that have no
/// field of their own.
#[derive(Debug, PartialEq)]
pub struct IncomingJson {
    pub session_id: Option<String>,
    pub typ: String,
    pub version: Option<u64>,
    pub extra: Json,
}

impl IncomingJson {
    /// The member `state`, if it is a string.
    pub fn state(&self) -> (r: Option<&str>)
        ensures
            crate::text::opt_str(r) == self.extra.tree().get_str("state"@),
    {
        self.extra.get_str("state")
    }

    /// The member `mode`, if it is a string.
    pub fn mode(&self) -> (r: Option<&str>)
        ensures
            crate::text::opt_str(r) == self.extra.tree().get_str("mode"@),
    {
        self.extra.get_str("mode")
    }
}

/// How the server's audio is encoded.
#[derive(Debug)]
pub struct AudioParams {
    pub format: &'static str,
    pub sample_rate: u32,
    pub channels: u8,
    pub frame_duration: u32,
}

impl AudioParams {
    /// The parameters as a JSON object.
    pub open spec fn tree(self) -> JsonTree {
        empty_object().with("format"@, JsonTree::Str(self.format@)).with(
            "sample_rate"@,
            JsonTree::Int(self.sample_rate as int),
        ).with("channels"@, JsonTree::Int(self.channels as int)).with(
            "frame_duration"@,
            JsonTree::Int(self.frame_duration as int),
        )
    }

    /// The parameters as a JSON object.
    pub fn to_json(&self) -> (r: Json)
        ensures
            r.tree() == self.tree(),
    {
        Json::object().with("format", Json::str(self.format)).with(
            "sample_rate",
            Json::UInt(self.sample_rate as u64),
        ).with("channels", Json::UInt(self.channels as u64)).with(
            "frame_duration",
            Json::UInt(self.frame_duration as u64),
        )
    }
}

/// The parameters of the audio that the server sends.
pub fn audio_params() -> (r: AudioParams)
    ensures
        r.format@ == "opus"@,
        r.sample_rate == SERVER_SAMPLE_RATE,
        r.channels == SERVER_CHANNELS,
        r.frame_duration == SERVER_FRAME_DURATION_MS,
{
    AudioParams {
        format: "opus",
        sample_rate: SERVER_SAMPLE_RATE,
        channels: SERVER_CHANNELS,
        frame_duration: SERVER_FRAME_DURATION_MS,
    }
}

/// The audio parameters as the `hello` message carries them.
pub open spec fn audio_params_tree() -> JsonTree {
    empty_object().with("format"@, JsonTree::Str("opus"@)).with(
        "sample_rate"@,
        JsonTree::Int(SERVER_SAMPLE_RATE as int),
    ).with("channels"@, JsonTree::Int(SERVER_CHANNELS as int)).with(
        "frame_duration"@,
        JsonTree::Int(SERVER_FRAME_DURATION_MS as int),
    )
}

/// The answer to a client's `hello`.
pub open spec fn hello_tree(session_id: Seq<char>) -> JsonTree {
    empty_object().with("type"@, JsonTree::Str("hello"@)).with(
        "transport"@,
        JsonTree::Str("websocket"@),
    ).with("session_id"@, JsonTree::Str(session_id)).with("audio_params"@, audio_params_tree())
}

/// The answer to a client's `hello`.
pub fn hello(session_id: &str) -> (r: Json)
    ensures
        r.tree() == hello_tree(session_id@),
{
    Json::object().with("type", Json::str("hello")).with("transport", Json::str("websocket")).with(
        "session_id",
        Json::str(session_id),
    ).with("audio_params", audio_params().to_json())
}

/// The start of every message of a session: its id and the message type.
pub open spec fn message_tree(session_id: Seq<char>, typ: Seq<char>) -> JsonTree {
    empty_object().with("session_id"@, JsonTree::Str(session_id)).with("type"@, JsonTree::Str(typ))
}

/// The start of every message of a session.
fn message(session_id: &str, typ: &str) -> (r: Json)
    ensures
        r is Object,
        r.tree() == message_tree(session_id@, typ@),
{
    Json::object().with("session_id", Json::str(session_id)).with("type", Json::str(typ))
}

/// What the user was heard to say.
pub open spec fn stt_tree(session_id: Seq<char>, text: Seq<char>) -> JsonTree {
    message_tree(session_id, "stt"@).with("text"@, JsonTree::Str(text))
}

/// What the user was heard to say.
pub fn stt(session_id: &str, text: &str) -> (r: Json)
    ensures
        r.tree() == stt_tree(session_id@, text@),
{
    message(session_id, "stt").with("text", Json::str(text))
}

/// The emotion to show.
pub open spec fn llm_emotion_tree(
    session_id: Seq<char>,
    emotion: Seq<char>,
    text: Seq<char>,
) -> JsonTree {
    message_tree(session_id, "llm"@).with("emotion"@, JsonTree::Str(emotion)).with(
        "text"@,
        JsonTree::Str(text),
    )
}

/// The emotion to show.
pub fn llm_emotion(session_id: &str, emotion: &str, text: &str) -> (r: Json)
    ensures
        r.tree() == llm_emotion_tree(session_id@, emotion@, text@),
{
    message(session_id, "llm").with("emotion", Json::str(emotion)).with("text", Json::str(text))
}

/// A message on the state of speech output.
pub open spec fn tts_tree(session_id: Seq<char>, state: Seq<char>) -> JsonTree {
    message_tree(session_id, "tts"@).with("state"@, JsonTree::Str(state))
}

/// Speech output starts.
pub fn tts_start(session_id: &str) -> (r: Json)
    ensures
        r.tree() == tts_tree(session_id@, "start"@),
{
    message(session_id, "tts").with("state", Json::str("start"))
}

/// A sentence of speech output starts.
pub open spec fn tts_sentence_start_tree(session_id: Seq<char>, text: Seq<char>) -> JsonTree {
    tts_tree(session_id, "sentence_start"@).with("text"@, JsonTree::Str(text))
}

/// A sentence of speech output starts.
pub fn tts_sentence_start(session_id: &str, text: &str) -> (r: Json)
    ensures
        r.tree() == tts_sentence_start_tree(session_id@, text@),
{
    message(session_id, "tts").with("state", Json::str("sentence_start")).with(
        "text",
        Json::str(text),
    )
}

/// Speech output stops.
pub fn tts_stop(session_id: &str) -> (r: Json)
    ensures
        r.tree() == tts_tree(session_id@, "stop"@),
{
    message(session_id, "tts").with("state", Json::str("stop"))
}

/// The session cannot go on.
pub open spec fn error_tree(session_id: Seq<char>, text: Seq<char>) -> JsonTree {
    message_tree(session_id, "error"@).with("message"@, JsonTree::Str(text))
}

/// The session cannot go on.
pub fn error(session_id: &str, text: &str) -> (r: Json)
    ensures
        r.tree() == error_tree(session_id@, text@),
{
    message(session_id, "error").with("message", Json::str(text))
}

/// The members of the messages to the device.
pub proof fn law_messages_have_these_members(id: Seq<char>, a: Seq<char>, b: Seq<char>)
    ensures
        hello_tree(id) == JsonTree::Object(
            map![
                "type"@ => JsonTree::Str("hello"@),
                "transport"@ => JsonTree::Str("websocket"@),
                "session_id"@ => JsonTree::Str(id),
                "audio_params"@ => JsonTree::Object(
                    map![
                        "format"@ => JsonTree::Str("opus"@),
                        "sample_rate"@ => JsonTree::Int(24_000),
                        "channels"@ => JsonTree::Int(1),
                        "frame_duration"@ => JsonTree::Int(60),
                    ],
                ),
            ],
        ),
        stt_tree(id, a) == JsonTree::Object(
            map![
                "session_id"@ => JsonTree::Str(id),
                "type"@ => JsonTree::Str("stt"@),
                "text"@ => JsonTree::Str(a),
            ],
        ),
        llm_emotion_tree(id, a, b) == JsonTree::Object(
            map![
                "session_id"@ => JsonTree::Str(id),
                "type"@ => JsonTree::Str("llm"@),
                "emotion"@ => JsonTree::Str(a),
                "text"@ => JsonTree::Str(b),
            ],
        ),
        tts_tree(id, a) == JsonTree::Object(
            map![
                "session_id"@ => JsonTree::Str(id),
                "type"@ => JsonTree::Str("tts"@),
                "state"@ => JsonTree::Str(a),
            ],
        ),
        tts_sentence_start_tree(id, a) == JsonTree::Object(
            map![
                "session_id"@ => JsonTree::Str(id),
                "type"@ => JsonTree::Str("tts"@),
                "state"@ => JsonTree::Str("sentence_start"@),
                "text"@ => JsonTree::Str(a),
            ],
        ),
        error_tree(id, a) == JsonTree::Object(
            map![
                "session_id"@ => JsonTree::Str(id),
                "type"@ => JsonTree::Str("error"@),
                "message"@ => JsonTree::Str(a),
            ],
        ),
{
}

/// A header that is no number asks for version 1.
pub proof fn law_other_headers(s: Seq<char>, i: int)
    requires
        0 <= i < s.len(),
        !('0' <= s[i] && s[i] <= '9'),
        i > 0 || s[0] != '+',
    ensures
        BinaryProtocolVersion::of_header(Some(s)) == BinaryProtocolVersion::V1,
        BinaryProtocolVersion::of_header(Some(Seq::<char>::empty())) == BinaryProtocolVersion::V1,
{
    crate::text::law_no_numbers(s, i, 255);
    crate::text::law_no_numbers(Seq::<char>::empty(), 0, 255);
}

/// What is said of a frame that was refused.
pub proof fn law_refusals_are_explained(version: u8, a: usize, b: usize)
    ensures
        (ProtocolError::ShortFrame { version, len: a }).message_text()
            == "binary frame too short for protocol v"@ + decimal_text(version as nat) + ": "@
            + decimal_text(a as nat) + " bytes"@,
        (ProtocolError::InvalidPayloadSize { declared: a, available: b }).message_text()
            == "declared payload size "@ + decimal_text(a as nat) + " exceeds frame length "@
            + decimal_text(b as nat),
{
}

/// The members of the parameters of audio.
pub proof fn law_audio_parameters(p: AudioParams)
    ensures
        p.tree() == JsonTree::Object(
            map![
                "format"@ => JsonTree::Str(p.format@),
                "sample_rate"@ => JsonTree::Int(p.sample_rate as int),
                "channels"@ => JsonTree::Int(p.channels as int),
                "frame_duration"@ => JsonTree::Int(p.frame_duration as int),
            ],
        ),
{
}

} // verus!
