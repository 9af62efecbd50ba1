//! The session of a device: what its messages and its audio do, and what is sent
//! back.
//!
//! The state of a session and every decision are here. What a decision asks for,
//! such as to send a message or to start a recognition, is an action, which is
//! carried out elsewhere; what comes of it is handed back.
pub mod pipeline;
pub mod ring;
pub mod settings;
pub mod watchdog;

use crate::audio::silero_vad::VadEvent;
use crate::buf::{bytes_as_slice, bytes_clone, bytes_content};
use crate::ids::{is_id, new_id};
use crate::json::{json_text, Json, JsonTree};
use crate::protocol::{
    decode_audio_frame, decoded_frame, hello, hello_tree, tts_stop, tts_tree,
    BinaryProtocolVersion, IncomingJson, ProtocolError,
};
use crate::services::LlmSessionMeta;
use crate::text::{join, joined, opt_str, opt_text, same, texts};
use bytes::Bytes;
use ring::{last_n, PcmRingBuffer};
use std::time::Duration;
use vstd::prelude::*;

verus! {

/// The sample rate of a device's audio.
pub const CLIENT_SAMPLE_RATE: u32 = 16_000;

/// How much audio is kept before speech is detected: one second, so that the first
/// syllable is not lost.
pub const PCM_RING_BUFFER_SAMPLES: usize = 16_000;

/// Which device a session is for.
#[derive(Clone, Debug)]
pub struct SessionMeta {
    pub device_id: Option<String>,
    pub client_id: Option<String>,
}

/// What a language model session is told of the device. The agent and the speaker
/// are not known when it starts.
pub fn llm_meta(session_id: &str, meta: &SessionMeta) -> (r: LlmSessionMeta)
    ensures
        r.session_id@ == session_id@,
        opt_text(r.device_id) == opt_text(meta.device_id),
        opt_text(r.client_id) == opt_text(meta.client_id),
        r.agent_id is None,
        r.speaker_name is None,
{
    LlmSessionMeta {
        session_id: session_id.to_owned(),
        device_id: copy_text(&meta.device_id),
        client_id: copy_text(&meta.client_id),
        agent_id: None,
        speaker_name: None,
    }
}

/// A copy of a text that may be missing.
fn copy_text(s: &Option<String>) -> (r: Option<String>)
    ensures
        opt_text(r) == opt_text(*s),
{
    match s {
        Some(t) => Some(t.clone()),
        None => None,
    }
}

/// A fresh id for a session.
pub fn new_session_id() -> (r: String)
    ensures
        is_id(r@),
{
    new_id()
}

// ---------------------------------------------------------------------------
// What is sent
// ---------------------------------------------------------------------------

/// What is sent to the device.
#[derive(Debug)]
pub enum Outbound {
    Text(Json),
    Binary(Bytes),
    Ping(Bytes),
    Pong(Bytes),
    /// The server hangs up. A device that is told so does not start to listen
    /// again.
    Close,
}

/// What a message to the device holds.
pub enum OutboundView {
    Text(JsonTree),
    Binary(Seq<u8>),
    Ping(Seq<u8>),
    Pong(Seq<u8>),
    Close,
}

impl Outbound {
    pub open spec fn view(self) -> OutboundView {
        match self {
            Outbound::Text(j) => OutboundView::Text(j.tree()),
            Outbound::Binary(b) => OutboundView::Binary(bytes_content(b)),
            Outbound::Ping(b) => OutboundView::Ping(bytes_content(b)),
            Outbound::Pong(b) => OutboundView::Pong(bytes_content(b)),
            Outbound::Close => OutboundView::Close,
        }
    }

    /// Whether this is audio.
    pub fn is_audio(&self) -> (r: bool)
        ensures
            r == (*self is Binary),
    {
        match self {
            Outbound::Binary(_) => true,
            _ => false,
        }
    }

    /// The message as it goes over the websocket, and whether it is the last.
    pub fn to_wire(self) -> (r: (Wire, bool))
        ensures
            r.1 == (self is Close),
            match (self, r.0) {
                (Outbound::Text(j), Wire::Text(t)) => t@ == json_text(j.tree()),
                (Outbound::Binary(b), Wire::Binary(c)) => c == b,
                (Outbound::Ping(b), Wire::Ping(c)) => c == b,
                (Outbound::Pong(b), Wire::Pong(c)) => c == b,
                (Outbound::Close, Wire::Close) => true,
                _ => false,
            },
    {
        match self {
            Outbound::Text(j) => (Wire::Text(j.text()), false),
            Outbound::Binary(b) => (Wire::Binary(b), false),
            Outbound::Ping(b) => (Wire::Ping(b), false),
            Outbound::Pong(b) => (Wire::Pong(b), false),
            Outbound::Close => (Wire::Close, true),
        }
    }
}

/// A message as it goes over the websocket.
#[derive(Debug)]
pub enum Wire {
    Text(String),
    Binary(Bytes),
    Ping(Bytes),
    Pong(Bytes),
    Close,
}

/// What a decision asks for.
#[derive(Debug)]
pub enum Action {
    /// Send a message to the device.
    Send(Outbound),
    /// Stop the timer of the listening.
    CancelTimeout,
    /// Start a timer for the listening, and stop the one before it.
    ArmTimeout(Duration),
    /// Tell the running pipeline to stop.
    NotifyPipeline,
    /// Give the answer of the language model up.
    AbortLlm,
    /// End the session of the language model.
    ShutdownLlm,
    /// Give the recognition up that was open.
    AbortAsr,
    /// Hand samples to the recognition.
    PushAsr(Vec<i16>),
    /// Start a pipeline with the recognition that was open.
    StartPipeline { id: u64 },
    /// Cancel a pipeline that a new one replaces.
    CancelPipeline { id: u64 },
    /// Wait for some milliseconds.
    Sleep(u64),
    /// End the session.
    Shutdown,
}

/// What an action does.
pub enum ActionView {
    Send(OutboundView),
    CancelTimeout,
    ArmTimeout(Duration),
    NotifyPipeline,
    AbortLlm,
    ShutdownLlm,
    AbortAsr,
    PushAsr(Seq<i16>),
    StartPipeline { id: u64 },
    CancelPipeline { id: u64 },
    Sleep(u64),
    Shutdown,
}

impl Action {
    pub open spec fn view(self) -> ActionView {
        match self {
            Action::Send(o) => ActionView::Send(o@),
            Action::CancelTimeout => ActionView::CancelTimeout,
            Action::ArmTimeout(d) => ActionView::ArmTimeout(d),
            Action::NotifyPipeline => ActionView::NotifyPipeline,
            Action::AbortLlm => ActionView::AbortLlm,
            Action::ShutdownLlm => ActionView::ShutdownLlm,
            Action::AbortAsr => ActionView::AbortAsr,
            Action::PushAsr(v) => ActionView::PushAsr(v@),
            Action::StartPipeline { id } => ActionView::StartPipeline { id },
            Action::CancelPipeline { id } => ActionView::CancelPipeline { id },
            Action::Sleep(ms) => ActionView::Sleep(ms),
            Action::Shutdown => ActionView::Shutdown,
        }
    }
}

/// What some actions do.
pub open spec fn action_views(v: Seq<Action>) -> Seq<ActionView> {
    v.map_values(|a: Action| a@)
}

/// To send a text message.
pub open spec fn send_text(t: JsonTree) -> ActionView {
    ActionView::Send(OutboundView::Text(t))
}

/// An action, if it is wanted.
pub open spec fn only_if(wanted: bool, a: ActionView) -> Seq<ActionView> {
    if wanted {
        seq![a]
    } else {
        seq![]
    }
}

/// Adds an action, if it is wanted.
pub(crate) fn push_if(actions: &mut Vec<Action>, wanted: bool, a: Action)
    ensures
        action_views(final(actions)@) == action_views(old(actions)@) + only_if(wanted, a@),
{
    let ghost before = actions@;
    if wanted {
        actions.push(a);
    }
    proof {
        assert(action_views(actions@) =~= action_views(before) + only_if(wanted, a@));
    }
}

/// No actions yet.
pub(crate) fn no_actions() -> (r: Vec<Action>)
    ensures
        action_views(r@) == Seq::<ActionView>::empty(),
{
    let r: Vec<Action> = Vec::new();
    proof {
        assert(action_views(r@) =~= seq![]);
    }
    r
}

// ---------------------------------------------------------------------------
// The state
// ---------------------------------------------------------------------------

/// Where a session stands. Times are milliseconds on a clock of the session.
#[derive(Debug)]
pub struct SessionState {
    pub listening: bool,
    /// This listening has already led to a conversation.
    pub already_triggered: bool,
    pub listen_mode: Option<String>,
    /// A recognition is open.
    pub asr_open: bool,
    /// A decoder is open.
    pub decoder_open: bool,
    /// Voice activity is being detected.
    pub vad_open: bool,
    /// The audio before speech is detected.
    pub pcm_ring_buffer: Option<PcmRingBuffer>,
    /// A timer limits the listening.
    pub timeout_armed: bool,
    /// The pipeline that is in flight.
    pub pipeline: Option<u64>,
    pub next_pipeline: u64,
    pub listen_started_ms: Option<u64>,
    pub first_audio_logged: bool,
    pub input_frames: u64,
    /// The payload of a ping that was not answered yet.
    pub ws_probe: Option<Bytes>,
    /// The session ends after the conversation that is on.
    pub close_after_chat: bool,
    /// When audio of the device was last heard, or listening last started.
    pub last_voice_ms: Option<u64>,
}

/// What the state of a session holds.
pub struct Session {
    pub listening: bool,
    pub already_triggered: bool,
    pub listen_mode: Option<Seq<char>>,
    pub asr_open: bool,
    pub decoder_open: bool,
    pub vad_open: bool,
    pub ring: Option<Seq<i16>>,
    pub timeout_armed: bool,
    pub pipeline: Option<u64>,
    pub next_pipeline: u64,
    pub listen_started_ms: Option<u64>,
    pub first_audio_logged: bool,
    pub input_frames: u64,
    pub ws_probe: Option<Seq<u8>>,
    pub close_after_chat: bool,
    pub last_voice_ms: Option<u64>,
}

/// A session that was just opened.
pub open spec fn opened(now: u64) -> Session {
    Session {
        listening: false,
        already_triggered: false,
        listen_mode: None,
        asr_open: false,
        decoder_open: false,
        vad_open: false,
        ring: None,
        timeout_armed: false,
        pipeline: None,
        next_pipeline: 0,
        listen_started_ms: None,
        first_audio_logged: false,
        input_frames: 0,
        ws_probe: None,
        close_after_chat: false,
        last_voice_ms: Some(now),
    }
}

/// What holds of every session: while it listens, audio can be decoded and has
/// somewhere to go; once a listening has led to a conversation, nothing of it is
/// left.
pub open spec fn consistent(s: Session) -> bool {
    &&& s.listening ==> s.decoder_open && (s.ring is Some || s.asr_open) && !s.already_triggered
    &&& s.already_triggered ==> !s.asr_open && !s.decoder_open && !s.vad_open && s.ring is None
    &&& match s.ring {
        Some(r) => r.len() <= PCM_RING_BUFFER_SAMPLES,
        None => true,
    }
}

/// Everything of a listening is dropped.
pub open spec fn aborted(s: Session) -> Session {
    Session {
        listening: false,
        already_triggered: false,
        asr_open: false,
        decoder_open: false,
        vad_open: false,
        ring: None,
        timeout_armed: false,
        listen_started_ms: None,
        first_audio_logged: false,
        input_frames: 0,
        ..s
    }
}

/// What has to be done when all that is going on is given up.
pub open spec fn abort_actions(s: Session, id: Seq<char>, send_stop: bool) -> Seq<ActionView> {
    only_if(s.timeout_armed, ActionView::CancelTimeout) + seq![
        ActionView::NotifyPipeline,
        ActionView::AbortLlm,
    ] + only_if(s.asr_open, ActionView::AbortAsr) + only_if(
        send_stop,
        send_text(tts_tree(id, "stop"@)),
    )
}

/// The listening is over. The first time, it leads to a conversation if a
/// recognition is open.
pub open spec fn listening_finished(s: Session, abort_timeout: bool) -> Session {
    if s.already_triggered {
        Session { listening: false, ..s }
    } else {
        Session {
            listening: false,
            already_triggered: true,
            asr_open: false,
            decoder_open: false,
            vad_open: false,
            ring: None,
            timeout_armed: s.timeout_armed && !abort_timeout,
            pipeline: if s.asr_open {
                Some(s.next_pipeline)
            } else {
                s.pipeline
            },
            next_pipeline: if s.asr_open {
                next_id(s.next_pipeline)
            } else {
                s.next_pipeline
            },
            listen_started_ms: None,
            first_audio_logged: false,
            input_frames: 0,
            ..s
        }
    }
}

/// The number of the next pipeline. After the last comes 0.
pub open spec fn next_id(id: u64) -> u64 {
    if id == u64::MAX {
        0
    } else {
        (id + 1) as u64
    }
}

/// A pipeline starts, and one that is still in flight is cancelled.
pub open spec fn start_actions(s: Session) -> Seq<ActionView> {
    seq![ActionView::StartPipeline { id: s.next_pipeline }] + match s.pipeline {
        Some(id) => seq![ActionView::CancelPipeline { id }],
        None => seq![],
    }
}

/// What has to be done when a listening is over.
pub open spec fn finish_actions(s: Session, abort_timeout: bool) -> Seq<ActionView> {
    if s.already_triggered {
        seq![]
    } else {
        only_if(abort_timeout && s.timeout_armed, ActionView::CancelTimeout) + (if s.asr_open {
            start_actions(s)
        } else {
            seq![]
        })
    }
}

/// A listening starts.
pub open spec fn listening_started(s: Session, mode: Option<Seq<char>>, vad: bool, now: u64) -> Session {
    Session {
        listening: true,
        already_triggered: false,
        listen_mode: mode,
        asr_open: false,
        decoder_open: true,
        vad_open: vad,
        ring: Some(seq![]),
        timeout_armed: true,
        listen_started_ms: Some(now),
        first_audio_logged: false,
        input_frames: 0,
        last_voice_ms: Some(now),
        ..s
    }
}

impl SessionState {
    pub open spec fn view(self) -> Session {
        Session {
            listening: self.listening,
            already_triggered: self.already_triggered,
            listen_mode: opt_text(self.listen_mode),
            asr_open: self.asr_open,
            decoder_open: self.decoder_open,
            vad_open: self.vad_open,
            ring: match self.pcm_ring_buffer {
                Some(r) => Some(r@),
                None => None,
            },
            timeout_armed: self.timeout_armed,
            pipeline: self.pipeline,
            next_pipeline: self.next_pipeline,
            listen_started_ms: self.listen_started_ms,
            first_audio_logged: self.first_audio_logged,
            input_frames: self.input_frames,
            ws_probe: match self.ws_probe {
                Some(b) => Some(bytes_content(b)),
                None => None,
            },
            close_after_chat: self.close_after_chat,
            last_voice_ms: self.last_voice_ms,
        }
    }

    /// What holds of every session.
    pub open spec fn wf(self) -> bool {
        &&& consistent(self@)
        &&& match self.pcm_ring_buffer {
            Some(r) => r.wf() && r.capacity() == PCM_RING_BUFFER_SAMPLES,
            None => true,
        }
    }

    /// A session that is opened now. Its clock starts with it, so that a device that
    /// has just connected is not sent away.
    pub fn new(now: u64) -> (r: Self)
        ensures
            r.wf(),
            r@ == opened(now),
    {
        SessionState {
            listening: false,
            already_triggered: false,
            listen_mode: None,
            asr_open: false,
            decoder_open: false,
            vad_open: false,
            pcm_ring_buffer: None,
            timeout_armed: false,
            pipeline: None,
            next_pipeline: 0,
            listen_started_ms: None,
            first_audio_logged: false,
            input_frames: 0,
            ws_probe: None,
            close_after_chat: false,
            last_voice_ms: Some(now),
        }
    }

    /// Gives up all that is going on. The language model's session stays, and the
    /// pipeline is told to stop, not cancelled.
    pub fn abort_active(&mut self, session_id: &str, send_stop: bool) -> (r: Vec<Action>)
        ensures
            final(self).wf(),
            final(self)@ == aborted(old(self)@),
            action_views(r@) == abort_actions(old(self)@, session_id@, send_stop),
    {
        let mut actions = no_actions();
        push_if(&mut actions, self.timeout_armed, Action::CancelTimeout);
        push_if(&mut actions, true, Action::NotifyPipeline);
        push_if(&mut actions, true, Action::AbortLlm);
        push_if(&mut actions, self.asr_open, Action::AbortAsr);
        push_if(&mut actions, send_stop, Action::Send(Outbound::Text(tts_stop(session_id))));
        proof {
            assert(action_views(actions@) =~= abort_actions(old(self)@, session_id@, send_stop));
        }
        self.listening = false;
        self.already_triggered = false;
        self.asr_open = false;
        self.decoder_open = false;
        self.vad_open = false;
        self.pcm_ring_buffer = None;
        self.timeout_armed = false;
        self.listen_started_ms = None;
        self.first_audio_logged = false;
        self.input_frames = 0;
        actions
    }

    /// Ends the listening, and starts a conversation the first time.
    pub fn finish_listening(&mut self, abort_timeout: bool) -> (r: Vec<Action>)
        requires
            old(self).wf(),
        ensures
            final(self).wf(),
            final(self)@ == listening_finished(old(self)@, abort_timeout),
            action_views(r@) == finish_actions(old(self)@, abort_timeout),
    {
        let mut actions = no_actions();
        self.listening = false;
        if self.already_triggered {
            return actions;
        }
        push_if(&mut actions, abort_timeout && self.timeout_armed, Action::CancelTimeout);
        if self.asr_open {
            self.start_pipeline(&mut actions);
        }
        proof {
            assert(action_views(actions@) =~= finish_actions(old(self)@, abort_timeout));
        }
        self.already_triggered = true;
        self.asr_open = false;
        self.decoder_open = false;
        self.vad_open = false;
        self.pcm_ring_buffer = None;
        self.timeout_armed = self.timeout_armed && !abort_timeout;
        self.listen_started_ms = None;
        self.first_audio_logged = false;
        self.input_frames = 0;
        actions
    }

    /// Starts a pipeline, and cancels one that is still in flight.
    fn start_pipeline(&mut self, actions: &mut Vec<Action>)
        ensures
            final(self)@ == (Session {
                pipeline: Some(old(self)@.next_pipeline),
                next_pipeline: next_id(old(self)@.next_pipeline),
                ..old(self)@
            }),
            final(self).pcm_ring_buffer == old(self).pcm_ring_buffer,
            action_views(final(actions)@) == action_views(old(actions)@) + start_actions(
                old(self)@,
            ),
    {
        let id: u64 = self.next_pipeline;
        push_if(actions, true, Action::StartPipeline { id });
        match self.pipeline {
            Some(old_id) => {
                push_if(actions, true, Action::CancelPipeline { id: old_id });
            },
            None => {},
        }
        proof {
            assert(action_views(actions@) =~= action_views(old(actions)@) + start_actions(
                old(self)@,
            ));
        }
        self.pipeline = Some(id);
        self.next_pipeline = if id == u64::MAX {
            0
        } else {
            id + 1
        };
    }

    /// A pipeline has come to its end.
    pub fn pipeline_finished(&mut self, id: u64)
        ensures
            final(self)@ == (Session {
                pipeline: if old(self)@.pipeline == Some(id) {
                    None
                } else {
                    old(self)@.pipeline
                },
                ..old(self)@
            }),
            old(self).wf() ==> final(self).wf(),
    {
        match self.pipeline {
            Some(running) => if running == id {
                self.pipeline = None;
            },
            None => {},
        }
    }

    /// Starts to listen, once a decoder and, if it is used, voice detection are open.
    /// A recognition is opened only when speech is detected.
    pub fn start_listening(&mut self, mode: Option<String>, vad: bool, timeout: Duration, now: u64) -> (r:
        Vec<Action>)
        ensures
            final(self).wf(),
            final(self)@ == listening_started(old(self)@, opt_text(mode), vad, now),
            action_views(r@) == seq![ActionView::ArmTimeout(timeout)],
    {
        self.listening = true;
        self.already_triggered = false;
        self.last_voice_ms = Some(now);
        self.listen_mode = mode;
        self.asr_open = false;
        self.decoder_open = true;
        self.vad_open = vad;
        let ring = PcmRingBuffer::new(PCM_RING_BUFFER_SAMPLES);
        proof {
            assert(ring@ =~= seq![]);
        }
        self.pcm_ring_buffer = Some(ring);
        self.listen_started_ms = Some(now);
        self.first_audio_logged = false;
        self.input_frames = 0;
        self.timeout_armed = true;
        let mut actions = no_actions();
        push_if(&mut actions, true, Action::ArmTimeout(timeout));
        proof {
            assert(action_views(actions@) =~= seq![ActionView::ArmTimeout(timeout)]);
        }
        actions
    }
}

// ---------------------------------------------------------------------------
// Messages
// ---------------------------------------------------------------------------

/// What follows a message.
#[derive(Debug, Clone, Copy, PartialEq, Eq, Structural)]
pub enum TextNext {
    /// Wait for the next message.
    Stay,
    /// Open a decoder and voice detection, and start to listen if that succeeds.
    OpenListening,
    /// The session is over.
    Leave,
}

/// What came of a message.
#[derive(Debug)]
pub struct TextStep {
    pub actions: Vec<Action>,
    pub next: TextNext,
}

/// What a message does: the version of the protocol and the state after it, what
/// has to be done, and what follows. A message that cannot be read does nothing.
pub open spec fn text_read(
    id: Seq<char>,
    version: BinaryProtocolVersion,
    s: Session,
    incoming: Option<IncomingJson>,
) -> (BinaryProtocolVersion, Session, Seq<ActionView>, TextNext) {
    match incoming {
        None => (version, s, seq![], TextNext::Stay),
        Some(m) => {
            let state = m.extra.tree().get_str("state"@);
            if m.typ@ == "hello"@ {
                (
                    hello_version(m.version, version),
                    s,
                    seq![send_text(hello_tree(id))],
                    TextNext::Stay,
                )
            } else if m.typ@ == "listen"@ {
                if state == Some("start"@) {
                    (version, aborted(s), abort_actions(s, id, true), TextNext::OpenListening)
                } else if state == Some("stop"@) {
                    (
                        version,
                        listening_finished(s, true),
                        finish_actions(s, true),
                        TextNext::Stay,
                    )
                } else if state == Some("detect"@) {
                    (version, aborted(s), abort_actions(s, id, true), TextNext::Stay)
                } else {
                    (version, s, seq![], TextNext::Stay)
                }
            } else if m.typ@ == "abort"@ {
                (version, aborted(s), abort_actions(s, id, true), TextNext::Stay)
            } else if m.typ@ == "goodbye"@ {
                (version, s, seq![], TextNext::Leave)
            } else {
                (version, s, seq![], TextNext::Stay)
            }
        },
    }
}

/// The version that a `hello` asks for.
pub open spec fn hello_version(
    asked: Option<u64>,
    version: BinaryProtocolVersion,
) -> BinaryProtocolVersion {
    match asked {
        Some(1) => BinaryProtocolVersion::V1,
        Some(2) => BinaryProtocolVersion::V2,
        Some(3) => BinaryProtocolVersion::V3,
        _ => version,
    }
}

/// Whether a text that may be missing is `b`.
fn is_text(a: Option<&str>, b: &str) -> (r: bool)
    ensures
        r == (opt_str(a) == Some(b@)),
{
    match a {
        Some(s) => same(s, b),
        None => false,
    }
}

impl SessionState {
    /// Takes in a message of the device; `None` stands for one that cannot be read.
    pub fn handle_text(
        &mut self,
        session_id: &str,
        version: &mut BinaryProtocolVersion,
        incoming: &Option<IncomingJson>,
    ) -> (r: TextStep)
        requires
            old(self).wf(),
        ensures
            final(self).wf(),
            (*final(version), final(self)@, action_views(r.actions@), r.next) == text_read(
                session_id@,
                *old(version),
                old(self)@,
                *incoming,
            ),
    {
        let m = match incoming {
            Some(m) => m,
            None => return TextStep { actions: no_actions(), next: TextNext::Stay },
        };
        let typ = m.typ.as_str();
        if same(typ, "hello") {
            *version = BinaryProtocolVersion::from_hello(m.version, *version);
            let mut actions = no_actions();
            push_if(&mut actions, true, Action::Send(Outbound::Text(hello(session_id))));
            proof {
                assert(action_views(actions@) =~= seq![send_text(hello_tree(session_id@))]);
            }
            TextStep { actions, next: TextNext::Stay }
        } else if same(typ, "listen") {
            let state = m.state();
            if is_text(state, "start") {
                let actions = self.abort_active(session_id, true);
                TextStep { actions, next: TextNext::OpenListening }
            } else if is_text(state, "stop") {
                let actions = self.finish_listening(true);
                TextStep { actions, next: TextNext::Stay }
            } else if is_text(state, "detect") {
                let actions = self.abort_active(session_id, true);
                TextStep { actions, next: TextNext::Stay }
            } else {
                TextStep { actions: no_actions(), next: TextNext::Stay }
            }
        } else if same(typ, "abort") {
            let actions = self.abort_active(session_id, true);
            TextStep { actions, next: TextNext::Stay }
        } else if same(typ, "goodbye") {
            TextStep { actions: no_actions(), next: TextNext::Leave }
        } else {
            TextStep { actions: no_actions(), next: TextNext::Stay }
        }
    }
}

// ---------------------------------------------------------------------------
// Audio
// ---------------------------------------------------------------------------

/// What came of a binary message.
#[derive(Debug)]
pub enum AudioStep {
    /// The frame cannot be read.
    Invalid(ProtocolError),
    /// The frame is not audio.
    NotAudio,
    /// Nobody listens.
    NotListening,
    /// There is no decoder.
    NoDecoder,
    /// This packet has to be decoded.
    Decode(Bytes),
}

/// What a binary message comes to.
pub enum AudioView {
    Invalid(ProtocolError),
    NotAudio,
    NotListening,
    NoDecoder,
    Decode(Seq<u8>),
}

impl AudioStep {
    pub open spec fn view(self) -> AudioView {
        match self {
            AudioStep::Invalid(e) => AudioView::Invalid(e),
            AudioStep::NotAudio => AudioView::NotAudio,
            AudioStep::NotListening => AudioView::NotListening,
            AudioStep::NoDecoder => AudioView::NoDecoder,
            AudioStep::Decode(b) => AudioView::Decode(bytes_content(b)),
        }
    }
}

/// A frame of audio was heard.
pub open spec fn frame_heard(s: Session, now: u64) -> Session {
    Session {
        input_frames: if s.input_frames == u64::MAX {
            u64::MAX
        } else {
            (s.input_frames + 1) as u64
        },
        last_voice_ms: Some(now),
        first_audio_logged: true,
        ..s
    }
}

/// What a binary message does.
pub open spec fn audio_begun(
    version: BinaryProtocolVersion,
    s: Session,
    data: Seq<u8>,
    now: u64,
) -> (Session, AudioView) {
    match decoded_frame(version, data) {
        Err(e) => (s, AudioView::Invalid(e)),
        Ok(None) => (s, AudioView::NotAudio),
        Ok(Some((_, payload))) => if !s.listening {
            (s, AudioView::NotListening)
        } else if !s.decoder_open {
            (frame_heard(s, now), AudioView::NoDecoder)
        } else {
            (frame_heard(s, now), AudioView::Decode(payload))
        },
    }
}

/// Samples go to the recognition if one is open, and else to what is kept.
pub open spec fn samples_taken(s: Session, samples: Seq<i16>) -> (Session, bool) {
    if s.asr_open {
        (s, true)
    } else {
        (
            Session {
                ring: match s.ring {
                    Some(r) => Some(last_n(r + samples, PCM_RING_BUFFER_SAMPLES as nat)),
                    None => None,
                },
                ..s
            },
            false,
        )
    }
}

/// What the events of one stretch of audio have led to.
#[derive(Debug, Clone, Copy, PartialEq, Eq, Structural)]
pub struct AudioTurn {
    /// Speech has ended.
    pub finish: bool,
    /// A recognition could not be opened.
    pub asr_failed: bool,
}

/// A recognition was opened. It is given the audio that was kept.
pub open spec fn asr_opened(s: Session) -> (Session, Seq<ActionView>) {
    (
        Session { asr_open: true, ring: None, timeout_armed: false, ..s },
        (match s.ring {
            Some(r) => only_if(r.len() > 0, ActionView::PushAsr(r)),
            None => seq![],
        }) + only_if(s.timeout_armed, ActionView::CancelTimeout),
    )
}

/// What one stretch of audio leads to in the end.
pub open spec fn turn_ended(s: Session, turn: AudioTurn, id: Seq<char>) -> (
    Session,
    Seq<ActionView>,
) {
    let (first, actions) = if turn.finish {
        (listening_finished(s, true), finish_actions(s, true))
    } else {
        (s, seq![])
    };
    if turn.asr_failed {
        (aborted(first), actions + abort_actions(first, id, false))
    } else {
        (first, actions)
    }
}

impl SessionState {
    /// Takes in a binary message of the device.
    pub fn handle_binary(&mut self, version: BinaryProtocolVersion, data: &[u8], now: u64) -> (r:
        AudioStep)
        requires
            old(self).wf(),
        ensures
            final(self).wf(),
            (final(self)@, r@) == audio_begun(version, old(self)@, data@, now),
    {
        let frame = match decode_audio_frame(version, data) {
            Ok(Some(frame)) => frame,
            Ok(None) => return AudioStep::NotAudio,
            Err(e) => return AudioStep::Invalid(e),
        };
        if !self.listening {
            return AudioStep::NotListening;
        }
        self.input_frames = self.input_frames.saturating_add(1);
        self.last_voice_ms = Some(now);
        self.first_audio_logged = true;
        if self.decoder_open {
            AudioStep::Decode(frame.payload)
        } else {
            AudioStep::NoDecoder
        }
    }

    /// Takes in decoded samples. `true` says that they go to the recognition.
    pub fn take_samples(&mut self, samples: &[i16]) -> (r: bool)
        requires
            old(self).wf(),
        ensures
            final(self).wf(),
            (final(self)@, r) == samples_taken(old(self)@, samples@),
    {
        if self.asr_open {
            return true;
        }
        let mut ring: Option<PcmRingBuffer> = None;
        std::mem::swap(&mut ring, &mut self.pcm_ring_buffer);
        match ring {
            Some(mut r) => {
                r.push(samples);
                self.pcm_ring_buffer = Some(r);
            },
            None => {},
        }
        false
    }

    /// Takes in an event of voice detection. `true` says that a recognition has to
    /// be opened.
    pub fn on_vad_event(turn: &mut AudioTurn, event: VadEvent) -> (r: bool)
        ensures
            r == (event is SpeechStart),
            *final(turn) == (AudioTurn {
                finish: old(turn).finish || event is SpeechEnd,
                ..*old(turn)
            }),
    {
        match event {
            VadEvent::SpeechStart { .. } => true,
            VadEvent::SpeechEnd { .. } => {
                turn.finish = true;
                false
            },
        }
    }

    /// A recognition was opened, or could not be opened.
    pub fn on_asr_opened(&mut self, turn: &mut AudioTurn, opened: bool) -> (r: Vec<Action>)
        requires
            old(self).wf(),
            !old(self)@.already_triggered,
        ensures
            final(self).wf(),
            opened ==> {
                &&& (final(self)@, action_views(r@)) == asr_opened(old(self)@)
                &&& *final(turn) == *old(turn)
            },
            !opened ==> {
                &&& final(self)@ == old(self)@
                &&& action_views(r@) == Seq::<ActionView>::empty()
                &&& *final(turn) == (AudioTurn { asr_failed: true, ..*old(turn) })
            },
    {
        let mut actions = no_actions();
        if !opened {
            turn.asr_failed = true;
            return actions;
        }
        let mut ring: Option<PcmRingBuffer> = None;
        std::mem::swap(&mut ring, &mut self.pcm_ring_buffer);
        match ring {
            Some(r) => {
                let prefill = r.drain();
                let wanted = prefill.len() > 0;
                push_if(&mut actions, wanted, Action::PushAsr(prefill));
            },
            None => {},
        }
        self.asr_open = true;
        push_if(&mut actions, self.timeout_armed, Action::CancelTimeout);
        self.timeout_armed = false;
        proof {
            assert(action_views(actions@) =~= asr_opened(old(self)@).1);
        }
        actions
    }

    /// Ends one stretch of audio.
    pub fn end_turn(&mut self, turn: AudioTurn, session_id: &str) -> (r: Vec<Action>)
        requires
            old(self).wf(),
        ensures
            final(self).wf(),
            (final(self)@, action_views(r@)) == turn_ended(old(self)@, turn, session_id@),
    {
        let mut actions = no_actions();
        if turn.finish {
            actions = self.finish_listening(true);
        }
        if turn.asr_failed {
            let ghost first = action_views(actions@);
            let mut more = self.abort_active(session_id, false);
            let ghost second = action_views(more@);
            let ghost before = actions@;
            let ghost given = more@;
            actions.append(&mut more);
            proof {
                assert(actions@ =~= before + given);
                assert(action_views(actions@) =~= first + second);
            }
        }
        actions
    }
}

// ---------------------------------------------------------------------------
// The loop of a session
// ---------------------------------------------------------------------------

/// What comes in from the device.
#[derive(Debug)]
pub enum Inbound {
    /// A text message, read; `None` if it cannot be read.
    Text(Option<IncomingJson>),
    Binary(Bytes),
    Ping(Bytes),
    Pong(Bytes),
    /// The device hangs up, the connection fails, or there is nothing more to come.
    End,
}

/// What follows.
#[derive(Debug)]
pub enum LoopNext {
    /// Wait for what comes next.
    Stay,
    /// Open a decoder and voice detection, and start to listen if that succeeds.
    OpenListening,
    /// Deal with audio.
    Audio(AudioStep),
    /// The session is over.
    Leave,
}

/// What came of what came in.
#[derive(Debug)]
pub struct LoopStep {
    pub actions: Vec<Action>,
    pub next: LoopNext,
}

/// What follows.
pub enum NextView {
    Stay,
    OpenListening,
    Audio(AudioView),
    Leave,
}

impl LoopNext {
    pub open spec fn view(self) -> NextView {
        match self {
            LoopNext::Stay => NextView::Stay,
            LoopNext::OpenListening => NextView::OpenListening,
            LoopNext::Audio(a) => NextView::Audio(a@),
            LoopNext::Leave => NextView::Leave,
        }
    }
}

/// A ping that was answered is forgotten; any other answer changes nothing.
pub open spec fn probe_completed(s: Session, pong: Seq<u8>) -> (Session, bool) {
    if s.ws_probe == Some(pong) {
        (Session { ws_probe: None, ..s }, true)
    } else {
        (s, false)
    }
}

/// What something that comes in does.
pub open spec fn inbound_read(
    id: Seq<char>,
    version: BinaryProtocolVersion,
    s: Session,
    inbound: Inbound,
    now: u64,
) -> (BinaryProtocolVersion, Session, Seq<ActionView>, NextView) {
    match inbound {
        Inbound::Text(m) => {
            let (v, next, actions, follows) = text_read(id, version, s, m);
            (
                v,
                next,
                actions,
                match follows {
                    TextNext::Stay => NextView::Stay,
                    TextNext::OpenListening => NextView::OpenListening,
                    TextNext::Leave => NextView::Leave,
                },
            )
        },
        Inbound::Binary(data) => {
            let (next, audio) = audio_begun(version, s, bytes_content(data), now);
            (version, next, seq![], NextView::Audio(audio))
        },
        Inbound::Ping(data) => (
            version,
            s,
            seq![ActionView::Send(OutboundView::Pong(bytes_content(data)))],
            NextView::Stay,
        ),
        Inbound::Pong(data) => (
            version,
            probe_completed(s, bytes_content(data)).0,
            seq![],
            NextView::Stay,
        ),
        Inbound::End => (version, s, seq![], NextView::Leave),
    }
}

impl SessionState {
    /// Takes in whatever comes in from the device.
    pub fn handle_websocket(
        &mut self,
        session_id: &str,
        version: &mut BinaryProtocolVersion,
        inbound: &Inbound,
        now: u64,
    ) -> (r: LoopStep)
        requires
            old(self).wf(),
        ensures
            final(self).wf(),
            (*final(version), final(self)@, action_views(r.actions@), r.next@) == inbound_read(
                session_id@,
                *old(version),
                old(self)@,
                *inbound,
                now,
            ),
    {
        match inbound {
            Inbound::Text(m) => {
                let step = self.handle_text(session_id, version, m);
                let next = match step.next {
                    TextNext::Stay => LoopNext::Stay,
                    TextNext::OpenListening => LoopNext::OpenListening,
                    TextNext::Leave => LoopNext::Leave,
                };
                LoopStep { actions: step.actions, next }
            },
            Inbound::Binary(data) => {
                let audio = self.handle_binary(*version, bytes_as_slice(data), now);
                LoopStep { actions: no_actions(), next: LoopNext::Audio(audio) }
            },
            Inbound::Ping(data) => {
                let mut actions = no_actions();
                push_if(&mut actions, true, Action::Send(Outbound::Pong(bytes_clone(data))));
                proof {
                    assert(action_views(actions@) =~= seq![
                        ActionView::Send(OutboundView::Pong(bytes_content(*data))),
                    ]);
                }
                LoopStep { actions, next: LoopNext::Stay }
            },
            Inbound::Pong(data) => {
                let _ = self.complete_ws_probe(data);
                LoopStep { actions: no_actions(), next: LoopNext::Stay }
            },
            Inbound::End => LoopStep { actions: no_actions(), next: LoopNext::Leave },
        }
    }

    /// Takes in the answer to a ping. `true` says that it answers the one that was
    /// sent.
    pub fn complete_ws_probe(&mut self, pong: &Bytes) -> (r: bool)
        ensures
            (final(self)@, r) == probe_completed(old(self)@, bytes_content(*pong)),
            old(self).wf() ==> final(self).wf(),
    {
        let matched = match &self.ws_probe {
            Some(payload) => same_bytes(bytes_as_slice(payload), bytes_as_slice(pong)),
            None => false,
        };
        if matched {
            self.ws_probe = None;
        }
        matched
    }

    /// Ends the session: all that is going on is given up, and the session of the
    /// language model ends.
    pub fn leave(&mut self, session_id: &str) -> (r: Vec<Action>)
        ensures
            final(self).wf(),
            final(self)@ == aborted(old(self)@),
            action_views(r@) == abort_actions(old(self)@, session_id@, false).push(
                ActionView::ShutdownLlm,
            ),
    {
        let mut actions = self.abort_active(session_id, false);
        push_if(&mut actions, true, Action::ShutdownLlm);
        proof {
            assert(action_views(actions@) =~= abort_actions(old(self)@, session_id@, false).push(
                ActionView::ShutdownLlm,
            ));
        }
        actions
    }
}

/// Whether two runs of bytes are the same.
fn same_bytes(a: &[u8], b: &[u8]) -> (r: bool)
    ensures
        r == (a@ == b@),
{
    if a.len() != b.len() {
        return false;
    }
    for i in 0..a.len()
        invariant
            a@.len() == b@.len(),
            forall|j: int| 0 <= j < i ==> a@[j] == b@[j],
    {
        if a[i] != b[i] {
            return false;
        }
    }
    proof {
        assert(a@ =~= b@);
    }
    true
}

/// An error and what caused it, in one line.
pub fn format_error_chain(messages: &Vec<String>) -> (r: String)
    ensures
        r@ == joined(texts(messages@), ": "@),
{
    join(messages, ": ")
}

// ---------------------------------------------------------------------------
// Laws
// ---------------------------------------------------------------------------

/// A listening leads to one conversation at most: whatever ends it a second time
/// has nothing left to do.
pub proof fn law_one_conversation(s: Session, first: bool, second: bool)
    ensures
        finish_actions(listening_finished(s, first), second) == Seq::<ActionView>::empty(),
        listening_finished(listening_finished(s, first), second) == listening_finished(s, first),
{
}

/// Audio that arrives while nobody listens changes nothing, whatever it holds.
pub proof fn law_audio_needs_a_listener(
    version: BinaryProtocolVersion,
    s: Session,
    data: Seq<u8>,
    now: u64,
)
    requires
        !s.listening,
    ensures
        audio_begun(version, s, data, now).0 == s,
        !(audio_begun(version, s, data, now).1 is Decode),
{
}

/// To give up twice is to give up once: the second time there is neither a timer
/// nor a recognition to stop.
pub proof fn law_abort_twice(s: Session, id: Seq<char>)
    ensures
        aborted(aborted(s)) == aborted(s),
        abort_actions(aborted(s), id, false) == seq![
            ActionView::NotifyPipeline,
            ActionView::AbortLlm,
        ],
{
    assert(abort_actions(aborted(s), id, false) =~= seq![
        ActionView::NotifyPipeline,
        ActionView::AbortLlm,
    ]);
}

/// Giving up keeps the session itself: the pipeline that is told to stop, the
/// answer that is waited for and the decision to close.
pub proof fn law_abort_keeps_session(s: Session)
    ensures
        aborted(s).pipeline == s.pipeline,
        aborted(s).ws_probe == s.ws_probe,
        aborted(s).close_after_chat == s.close_after_chat,
        aborted(s).last_voice_ms == s.last_voice_ms,
{
}

/// Some stretches of samples, taken in one after the other.
pub open spec fn all_taken(s: Session, stretches: Seq<Seq<i16>>) -> Session
    decreases stretches.len(),
{
    if stretches.len() == 0 {
        s
    } else {
        samples_taken(all_taken(s, stretches.drop_last()), stretches.last()).0
    }
}

/// All samples of some stretches.
pub open spec fn all_samples(stretches: Seq<Seq<i16>>) -> Seq<i16>
    decreases stretches.len(),
{
    if stretches.len() == 0 {
        seq![]
    } else {
        all_samples(stretches.drop_last()) + stretches.last()
    }
}

/// The recognition that is opened when speech is detected is given the last second
/// of all that was heard since the listening started, however it arrived.
pub proof fn law_preroll(
    s: Session,
    mode: Option<Seq<char>>,
    vad: bool,
    now: u64,
    stretches: Seq<Seq<i16>>,
)
    ensures
        ({
            let heard = all_taken(listening_started(s, mode, vad, now), stretches);
            let kept = last_n(all_samples(stretches), PCM_RING_BUFFER_SAMPLES as nat);
            &&& heard.ring == Some(kept)
            &&& !heard.asr_open
            &&& asr_opened(heard).1 == only_if(kept.len() > 0, ActionView::PushAsr(kept)) + only_if(
                heard.timeout_armed,
                ActionView::CancelTimeout,
            )
        }),
    decreases stretches.len(),
{
    if stretches.len() > 0 {
        law_preroll(s, mode, vad, now, stretches.drop_last());
        let n = PCM_RING_BUFFER_SAMPLES as nat;
        let before = all_samples(stretches.drop_last());
        let empty = Seq::<i16>::empty();
        ring::law_last_in_pieces(empty, before, stretches.last(), n);
        assert(empty + before =~= before);
        assert(empty + (before + stretches.last()) =~= before + stretches.last());
    }
}

/// What every operation keeps: a consistent session stays consistent, whatever
/// comes in and whatever is decided.
pub proof fn law_sessions_stay_consistent(
    id: Seq<char>,
    version: BinaryProtocolVersion,
    s: Session,
    inbound: Inbound,
    samples: Seq<i16>,
    turn: AudioTurn,
    now: u64,
)
    requires
        consistent(s),
    ensures
        consistent(inbound_read(id, version, s, inbound, now).1),
        consistent(samples_taken(s, samples).0),
        consistent(turn_ended(s, turn, id).0),
        !s.already_triggered ==> consistent(asr_opened(s).0),
        consistent(opened(now)),
{
}

/// In a session that listens and can decode, what is decoded of a frame that a device
/// wrote is the packet in it, whatever the version of the protocol, and the device
/// counts as heard.
pub proof fn law_packets_reach_the_decoder(
    version: BinaryProtocolVersion,
    s: Session,
    timestamp: u32,
    payload: Seq<u8>,
    now: u64,
)
    requires
        s.listening,
        s.decoder_open,
        version == BinaryProtocolVersion::V2 ==> payload.len() < 0x1_0000_0000,
        version == BinaryProtocolVersion::V3 ==> payload.len() < 0x1_0000,
    ensures
        ({
            let (next, step) = audio_begun(
                version,
                s,
                crate::protocol::encoded_frame(version, timestamp, payload),
                now,
            );
            &&& step == AudioView::Decode(payload)
            &&& next.last_voice_ms == Some(now)
            &&& next == (Session {
                last_voice_ms: next.last_voice_ms,
                input_frames: next.input_frames,
                first_audio_logged: next.first_audio_logged,
                ..s
            })
        }),
{
    match version {
        BinaryProtocolVersion::V1 => {
            crate::protocol::law_v1_roundtrip(timestamp, payload);
        },
        BinaryProtocolVersion::V2 => {
            crate::protocol::law_v2_roundtrip(timestamp, payload);
        },
        BinaryProtocolVersion::V3 => {
            crate::protocol::law_v3_roundtrip(timestamp, payload);
        },
    }
}

/// The packet of a frame that stands on the wire in version 2 or 3 is what is decoded of
/// it, without the bytes of the header; in version 1 it is the whole message. A session
/// that listens without a decoder decodes nothing, and one that does not listen is not
/// changed.
#[verifier::spinoff_prover]
pub proof fn law_headers_are_not_decoded(
    s: Session,
    lead: Seq<u8>,
    reserved: Seq<u8>,
    stamp: Seq<u8>,
    timestamp: u32,
    size: Seq<u8>,
    payload: Seq<u8>,
    now: u64,
)
    requires
        lead.len() == 2,
        reserved.len() == 4,
        crate::buf::writes_u32(stamp, timestamp as int),
    ensures
        ({
            let wanted = if !s.listening {
                AudioView::NotListening
            } else if !s.decoder_open {
                AudioView::NoDecoder
            } else {
                AudioView::Decode(payload)
            };
            let long = lead + seq![0u8, 0u8] + reserved + stamp + size + payload;
            let short = seq![0u8, lead[0]] + size + payload;
            &&& crate::buf::writes_u32(size, payload.len() as int) ==> audio_begun(
                BinaryProtocolVersion::V2,
                s,
                long,
                now,
            ).1 == wanted
            &&& crate::buf::writes_u16(size, payload.len() as int) ==> audio_begun(
                BinaryProtocolVersion::V3,
                s,
                short,
                now,
            ).1 == wanted
            &&& audio_begun(BinaryProtocolVersion::V1, s, payload, now).1 == wanted
        }),
{
    let none = Seq::<u8>::empty();
    if crate::buf::writes_u32(size, payload.len() as int) {
        crate::protocol::law_v2_frames_are_read(
            lead,
            reserved,
            stamp,
            timestamp,
            size,
            payload,
            none,
        );
        let long = lead + seq![0u8, 0u8] + reserved + stamp + size + payload;
        assert(long + none =~= long);
    }
    if crate::buf::writes_u16(size, payload.len() as int) {
        crate::protocol::law_v3_frames_are_read(lead[0], size, payload, none);
        let short = seq![0u8, lead[0]] + size + payload;
        assert(short + none =~= short);
    }
}

/// A session in which nothing of a listening is left, and everything else is as in `s`.
pub open spec fn nothing_goes_on(s: Session, t: Session) -> bool {
    &&& !t.listening && !t.already_triggered
    &&& !t.asr_open && !t.decoder_open && !t.vad_open
    &&& t.ring is None && !t.timeout_armed
    &&& t.listen_started_ms is None && t.input_frames == 0 && !t.first_audio_logged
    &&& t.listen_mode == s.listen_mode
    &&& t.pipeline == s.pipeline && t.next_pipeline == s.next_pipeline
    &&& t.ws_probe == s.ws_probe
    &&& t.close_after_chat == s.close_after_chat
    &&& t.last_voice_ms == s.last_voice_ms
}

/// What gives up all that goes on, in order: the timer is stopped if it runs, the
/// conversation and the language model are told, a recognition that is open is given
/// up, and the device is told that speech stops if it is to be told.
pub open spec fn gives_up(s: Session, id: Seq<char>, told: bool, actions: Seq<ActionView>) -> bool {
    actions == (if s.timeout_armed {
        seq![ActionView::CancelTimeout]
    } else {
        seq![]
    }) + seq![ActionView::NotifyPipeline, ActionView::AbortLlm] + (if s.asr_open {
        seq![ActionView::AbortAsr]
    } else {
        seq![]
    }) + (if told {
        seq![
            ActionView::Send(
                OutboundView::Text(
                    JsonTree::Object(
                        map![
                            "session_id"@ => JsonTree::Str(id),
                            "type"@ => JsonTree::Str("tts"@),
                            "state"@ => JsonTree::Str("stop"@),
                        ],
                    ),
                ),
            ),
        ]
    } else {
        seq![]
    })
}

/// Giving up stops everything that goes on and tells everyone who takes part.
pub proof fn law_abort_stops_everything(s: Session, id: Seq<char>, told: bool)
    ensures
        nothing_goes_on(s, aborted(s)),
        gives_up(s, id, told, abort_actions(s, id, told)),
{
    crate::protocol::law_messages_have_these_members(id, "stop"@, "stop"@);
}

/// What the messages of a device do: `hello` is answered and may change the version;
/// `listen` starts, stops or gives up a listening; `abort` gives up; `goodbye` ends the
/// session; any other message does nothing.
#[verifier::spinoff_prover]
pub proof fn law_device_messages(
    id: Seq<char>,
    version: BinaryProtocolVersion,
    s: Session,
    m: IncomingJson,
)
    ensures
        ({
            let (v, t, actions, next) = text_read(id, version, s, Some(m));
            let state = m.extra.tree().get_str("state"@);
            let listen = m.typ@ == "listen"@;
            let start = listen && state == Some("start"@);
            let stop = listen && state == Some("stop"@);
            let give_up = start || listen && state == Some("detect"@) || m.typ@ == "abort"@;
            &&& m.typ@ == "hello"@ ==> t == s && next == TextNext::Stay && actions == seq![
                ActionView::Send(OutboundView::Text(hello_tree(id))),
            ] && (m.version == Some(1u64) ==> v == BinaryProtocolVersion::V1) && (m.version
                == Some(2u64) ==> v == BinaryProtocolVersion::V2) && (m.version == Some(3u64) ==> v
                == BinaryProtocolVersion::V3) && (!(m.version matches Some(n) && 1 <= n <= 3) ==> v
                == version)
            &&& m.typ@ != "hello"@ ==> v == version
            &&& give_up ==> nothing_goes_on(s, t) && gives_up(s, id, true, actions)
            &&& (next == TextNext::OpenListening) == start
            &&& (next == TextNext::Leave) == (m.typ@ == "goodbye"@)
            &&& stop ==> !t.listening && t == listening_finished(s, true) && actions
                == finish_actions(s, true)
            &&& m.typ@ != "hello"@ && !give_up && !stop ==> t == s && actions.len() == 0
        }),
{
    reveal_strlit("hello");
    reveal_strlit("listen");
    reveal_strlit("abort");
    reveal_strlit("goodbye");
    reveal_strlit("start");
    reveal_strlit("stop");
    reveal_strlit("detect");
    assert("hello"@[0] == 'h' && "listen"@[0] == 'l' && "abort"@[0] == 'a' && "goodbye"@[0] == 'g');
    assert("start"@[2] == 'a' && "stop"@[2] == 'o' && "detect"@[2] == 't');
    law_abort_stops_everything(s, id, true);
}

/// A message that cannot be read does nothing.
pub proof fn law_unreadable_messages_do_nothing(
    id: Seq<char>,
    version: BinaryProtocolVersion,
    s: Session,
)
    ensures
        text_read(id, version, s, None) == (
            version,
            s,
            Seq::<ActionView>::empty(),
            TextNext::Stay,
        ),
{
}

/// A listening starts with a decoder, with voice detection if it is used, with no
/// recognition and nothing heard, and its timer runs.
pub proof fn law_listening_starts(s: Session, mode: Option<Seq<char>>, vad: bool, now: u64)
    ensures
        ({
            let t = listening_started(s, mode, vad, now);
            &&& t.listening && t.decoder_open && t.timeout_armed && !t.asr_open
                && !t.already_triggered
            &&& t.vad_open == vad
            &&& t.ring == Some(Seq::<i16>::empty())
            &&& t.listen_mode == mode
            &&& t.listen_started_ms == Some(now) && t.last_voice_ms == Some(now)
            &&& t.input_frames == 0 && !t.first_audio_logged
            &&& t.pipeline == s.pipeline && t.next_pipeline == s.next_pipeline
            &&& t.close_after_chat == s.close_after_chat && t.ws_probe == s.ws_probe
        }),
{
}

/// A listening that ends for the first time leads to a conversation exactly if a
/// recognition is open; the conversation before it is cancelled, its timer is stopped if
/// that is asked for, and nothing of the listening is left.
pub proof fn law_listening_ends(s: Session, abort_timeout: bool)
    ensures
        ({
            let t = listening_finished(s, abort_timeout);
            let actions = finish_actions(s, abort_timeout);
            &&& !t.listening && t.already_triggered
            &&& t.close_after_chat == s.close_after_chat && t.ws_probe == s.ws_probe
                && t.last_voice_ms == s.last_voice_ms && t.listen_mode == s.listen_mode
            &&& s.already_triggered ==> actions.len() == 0 && t == (Session {
                listening: false,
                ..s
            })
            &&& !s.already_triggered ==> {
                &&& !t.asr_open && !t.decoder_open && !t.vad_open && t.ring is None
                &&& t.timeout_armed == (s.timeout_armed && !abort_timeout)
                &&& t.pipeline == (if s.asr_open {
                    Some(s.next_pipeline)
                } else {
                    s.pipeline
                })
                &&& t.next_pipeline == (if !s.asr_open {
                    s.next_pipeline as int
                } else if s.next_pipeline < u64::MAX {
                    s.next_pipeline + 1
                } else {
                    0
                })
                &&& t.listen_started_ms is None && t.input_frames == 0 && !t.first_audio_logged
                &&& actions == (if s.timeout_armed && abort_timeout {
                    seq![ActionView::CancelTimeout]
                } else {
                    seq![]
                }) + (if !s.asr_open {
                    seq![]
                } else if s.pipeline is Some {
                    seq![
                        ActionView::StartPipeline { id: s.next_pipeline },
                        ActionView::CancelPipeline { id: s.pipeline->0 },
                    ]
                } else {
                    seq![ActionView::StartPipeline { id: s.next_pipeline }]
                })
            }
        }),
{
    let t = listening_finished(s, abort_timeout);
    let actions = finish_actions(s, abort_timeout);
    assert(start_actions(s) =~= (if s.pipeline is Some {
        seq![
            ActionView::StartPipeline { id: s.next_pipeline },
            ActionView::CancelPipeline { id: s.pipeline->0 },
        ]
    } else {
        seq![ActionView::StartPipeline { id: s.next_pipeline }]
    }));
}

/// Until a recognition is open, samples are kept, at most the last 16000 of them; then
/// they go to it and nothing more is kept.
pub proof fn law_samples_go_somewhere(s: Session, samples: Seq<i16>)
    ensures
        ({
            let (t, pushed) = samples_taken(s, samples);
            &&& pushed == s.asr_open
            &&& s.asr_open ==> t == s
            &&& !s.asr_open && s.ring is None ==> t == s
            &&& !s.asr_open && s.ring is Some ==> {
                let all = s.ring->0 + samples;
                let kept = if all.len() <= 16_000 {
                    all
                } else {
                    all.skip(all.len() - 16_000)
                };
                t == (Session { ring: Some(kept), ..s })
            }
        }),
{
}

/// A recognition that is opened is given what was kept, if anything was, and the timer
/// of the listening is stopped if it runs.
pub proof fn law_recognition_gets_what_was_kept(s: Session)
    ensures
        ({
            let (t, actions) = asr_opened(s);
            &&& t == (Session { asr_open: true, ring: None, timeout_armed: false, ..s })
            &&& actions == (if s.ring is Some && s.ring->0.len() > 0 {
                seq![ActionView::PushAsr(s.ring->0)]
            } else {
                seq![]
            }) + (if s.timeout_armed {
                seq![ActionView::CancelTimeout]
            } else {
                seq![]
            })
        }),
{
}

/// The end of speech ends the listening; a recognition that could not be opened gives
/// up all that goes on, without telling the device; otherwise nothing happens.
pub proof fn law_turns_end(s: Session, turn: AudioTurn, id: Seq<char>)
    ensures
        ({
            let (t, actions) = turn_ended(s, turn, id);
            let first = if turn.finish {
                listening_finished(s, true)
            } else {
                s
            };
            &&& !turn.finish && !turn.asr_failed ==> t == s && actions.len() == 0
            &&& turn.finish && !turn.asr_failed ==> t == first && actions == finish_actions(s, true)
            &&& turn.asr_failed ==> nothing_goes_on(first, t) && actions == (if turn.finish {
                finish_actions(s, true)
            } else {
                seq![]
            }) + abort_actions(first, id, false)
        }),
{
    let first = if turn.finish {
        listening_finished(s, true)
    } else {
        s
    };
    law_abort_stops_everything(first, id, false);
}

/// A ping is answered with its own bytes; the end of the connection ends the session;
/// neither changes anything.
pub proof fn law_pings_are_answered(
    id: Seq<char>,
    version: BinaryProtocolVersion,
    s: Session,
    data: Bytes,
    now: u64,
)
    ensures
        inbound_read(id, version, s, Inbound::Ping(data), now) == (
            version,
            s,
            seq![ActionView::Send(OutboundView::Pong(bytes_content(data)))],
            NextView::Stay,
        ),
        inbound_read(id, version, s, Inbound::End, now) == (
            version,
            s,
            Seq::<ActionView>::empty(),
            NextView::Leave,
        ),
        inbound_read(id, version, s, Inbound::Binary(data), now) == (
            version,
            audio_begun(version, s, bytes_content(data), now).0,
            Seq::<ActionView>::empty(),
            NextView::Audio(audio_begun(version, s, bytes_content(data), now).1),
        ),
        inbound_read(id, version, s, Inbound::Pong(data), now) == (
            version,
            if s.ws_probe == Some(bytes_content(data)) {
                Session { ws_probe: None, ..s }
            } else {
                s
            },
            Seq::<ActionView>::empty(),
            NextView::Stay,
        ),
{
}

/// Of a device's text message the loop makes what the message says.
pub proof fn law_messages_are_passed_on(
    id: Seq<char>,
    version: BinaryProtocolVersion,
    s: Session,
    m: Option<IncomingJson>,
    now: u64,
)
    ensures
        ({
            let (v, t, actions, next) = text_read(id, version, s, m);
            let (v2, t2, actions2, next2) = inbound_read(id, version, s, Inbound::Text(m), now);
            &&& v2 == v && t2 == t && actions2 == actions
            &&& (next2 == NextView::Leave) == (next == TextNext::Leave)
            &&& (next2 == NextView::OpenListening) == (next == TextNext::OpenListening)
            &&& (next2 == NextView::Stay) == (next == TextNext::Stay)
        }),
{
}

/// Every frame of audio that a listening session gets is counted and dates the last time
/// that the device was heard, whether or not it can be decoded. What is no audio, what
/// cannot be read and what nobody listens to changes nothing.
pub proof fn law_audio_is_counted(
    version: BinaryProtocolVersion,
    s: Session,
    data: Seq<u8>,
    now: u64,
    e: ProtocolError,
)
    ensures
        ({
            let (t, step) = audio_begun(version, s, data, now);
            let frame = decoded_frame(version, data);
            &&& frame == Err::<Option<(u32, Seq<u8>)>, ProtocolError>(e) ==> t == s && step
                == AudioView::Invalid(e)
            &&& frame == Ok::<Option<(u32, Seq<u8>)>, ProtocolError>(None) ==> t == s && step
                == AudioView::NotAudio
            &&& frame matches Ok(Some(_)) ==> {
                &&& !s.listening ==> t == s && step == AudioView::NotListening
                &&& s.listening ==> {
                    &&& t.last_voice_ms == Some(now)
                    &&& t.first_audio_logged
                    &&& s.input_frames < u64::MAX ==> t.input_frames == s.input_frames + 1
                    &&& s.input_frames == u64::MAX ==> t.input_frames == u64::MAX
                    &&& t == (Session {
                        last_voice_ms: t.last_voice_ms,
                        input_frames: t.input_frames,
                        first_audio_logged: t.first_audio_logged,
                        ..s
                    })
                }
            }
        }),
{
}

/// In a session that was just opened nothing goes on, and its device was heard now.
pub proof fn law_sessions_open(now: u64)
    ensures
        ({
            let s = opened(now);
            &&& nothing_goes_on(s, s)
            &&& s.listen_mode is None && s.pipeline is None && s.next_pipeline == 0
            &&& s.ws_probe is None && !s.close_after_chat
            &&& s.last_voice_ms == Some(now)
        }),
{
}

/// What is said of a session is what its state holds.
pub proof fn law_state_is_seen(state: SessionState)
    ensures
        state@.listening == state.listening,
        state@.already_triggered == state.already_triggered,
        state@.asr_open == state.asr_open,
        state@.decoder_open == state.decoder_open,
        state@.vad_open == state.vad_open,
        state@.timeout_armed == state.timeout_armed,
        state@.pipeline == state.pipeline,
        state@.next_pipeline == state.next_pipeline,
        state@.listen_started_ms == state.listen_started_ms,
        state@.first_audio_logged == state.first_audio_logged,
        state@.input_frames == state.input_frames,
        state@.close_after_chat == state.close_after_chat,
        state@.last_voice_ms == state.last_voice_ms,
        (state@.ring is Some) == (state.pcm_ring_buffer is Some),
        state.pcm_ring_buffer matches Some(r) ==> state@.ring == Some(r@),
        (state@.ws_probe is Some) == (state.ws_probe is Some),
        state.ws_probe matches Some(b) ==> state@.ws_probe == Some(bytes_content(b)),
        (state@.listen_mode is Some) == (state.listen_mode is Some),
        state.listen_mode matches Some(t) ==> state@.listen_mode == Some(t@),
{
}

/// What is said of a message to the device is what it carries.
pub proof fn law_messages_are_seen(j: Json, b: Bytes, id: u64, ms: u64, samples: Vec<i16>)
    ensures
        Action::Send(Outbound::Text(j))@ == ActionView::Send(OutboundView::Text(j.tree())),
        Action::Send(Outbound::Binary(b))@ == ActionView::Send(
            OutboundView::Binary(bytes_content(b)),
        ),
        Action::Send(Outbound::Ping(b))@ == ActionView::Send(OutboundView::Ping(bytes_content(b))),
        Action::Send(Outbound::Pong(b))@ == ActionView::Send(OutboundView::Pong(bytes_content(b))),
        Action::Send(Outbound::Close)@ == ActionView::Send(OutboundView::Close),
        Action::PushAsr(samples)@ == ActionView::PushAsr(samples@),
        (Action::StartPipeline { id })@ == (ActionView::StartPipeline { id }),
        (Action::CancelPipeline { id })@ == (ActionView::CancelPipeline { id }),
        Action::Sleep(ms)@ == ActionView::Sleep(ms),
        AudioStep::Decode(b)@ == AudioView::Decode(bytes_content(b)),
{
}

} // verus!
