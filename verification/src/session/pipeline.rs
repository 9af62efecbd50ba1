//! A conversation: from what the user said to the last sound of the answer.
use crate::buf::bytes_content;
use crate::protocol::{
    encode_audio_frame, encoded_frame, error, error_tree, llm_emotion, llm_emotion_tree, stt,
    stt_tree, tts_sentence_start, tts_sentence_start_tree, tts_start, tts_stop, tts_tree,
    AudioFrame, BinaryProtocolVersion,
};
use crate::services::{TtsEvent, TtsView};
use crate::session::settings::{match_command, matched_from};
use crate::session::{
    action_views, no_actions, push_if, send_text, Action, ActionView, Outbound, OutboundView,
    Session, SessionState,
};
use crate::text::{is_blank, texts, trimmed};
use vstd::prelude::*;

verus! {

/// How long the last sounds take to be played, in milliseconds: one packet of
/// network jitter and what is buffered.
pub const POST_TTS_FLUSH_DELAY_MS: u64 = 240;

/// What came of waiting for the recognition.
#[derive(Debug)]
pub enum AsrOutcome {
    Text(String),
    Aborted,
    Failed,
}

/// What follows in a conversation.
#[derive(Debug, Clone, Copy, PartialEq, Eq, Structural)]
pub enum PipelineNext {
    /// Ask the language model.
    Chat,
    /// Nothing is left to say; close the session if that was decided.
    Close,
    /// The conversation is over.
    Done,
    /// The conversation has failed.
    Fail,
}

/// What came of a step of a conversation.
#[derive(Debug)]
pub struct PipelineStep {
    pub actions: Vec<Action>,
    pub next: PipelineNext,
}

/// What the user said decides whether the session ends after the answer.
pub open spec fn text_heard(s: Session, commands: Seq<Seq<char>>, text: Seq<char>) -> Session {
    Session {
        close_after_chat: s.close_after_chat || matched_from(commands, text, 0) is Some,
        ..s
    }
}

/// What a text starts. Where nothing was said, speech output starts and stops, so
/// that the device goes back to listening.
pub open spec fn chat_actions(id: Seq<char>, text: Seq<char>) -> Seq<ActionView> {
    if trimmed(text).len() == 0 {
        seq![send_text(tts_tree(id, "start"@)), send_text(tts_tree(id, "stop"@))]
    } else {
        seq![
            send_text(stt_tree(id, text)),
            send_text(llm_emotion_tree(id, "happy"@, "😊"@)),
            send_text(tts_tree(id, "start"@)),
        ]
    }
}

/// What follows a text.
pub open spec fn chat_next(text: Seq<char>) -> PipelineNext {
    if trimmed(text).len() == 0 {
        PipelineNext::Close
    } else {
        PipelineNext::Chat
    }
}

/// What the end of a recognition does.
pub open spec fn asr_finished(
    s: Session,
    id: Seq<char>,
    commands: Seq<Seq<char>>,
    outcome: AsrOutcome,
) -> (Session, Seq<ActionView>, PipelineNext) {
    match outcome {
        AsrOutcome::Text(text) => (
            text_heard(s, commands, text@),
            chat_actions(id, text@),
            chat_next(text@),
        ),
        AsrOutcome::Aborted => (s, seq![ActionView::AbortAsr], PipelineNext::Done),
        AsrOutcome::Failed => (s, seq![], PipelineNext::Fail),
    }
}

/// What closes a session that was decided to be closed, unless the conversation was
/// given up.
pub open spec fn close_actions(s: Session, aborted: bool) -> Seq<ActionView> {
    if s.close_after_chat && !aborted {
        seq![
            ActionView::Sleep(POST_TTS_FLUSH_DELAY_MS),
            ActionView::Send(OutboundView::Close),
            ActionView::Shutdown,
        ]
    } else {
        seq![]
    }
}

impl SessionState {
    /// Starts a conversation with what the user said.
    pub fn run_pipeline_with_text(&mut self, session_id: &str, commands: &Vec<String>, text: &str) -> (r:
        PipelineStep)
        ensures
            final(self)@ == text_heard(old(self)@, texts(commands@), text@),
            action_views(r.actions@) == chat_actions(session_id@, text@),
            r.next == chat_next(text@),
            old(self).wf() ==> final(self).wf(),
    {
        match match_command(commands, text) {
            Some(_) => {
                self.close_after_chat = true;
            },
            None => {},
        }
        let mut actions = no_actions();
        if is_blank(text) {
            push_if(&mut actions, true, Action::Send(Outbound::Text(tts_start(session_id))));
            push_if(&mut actions, true, Action::Send(Outbound::Text(tts_stop(session_id))));
            proof {
                assert(action_views(actions@) =~= chat_actions(session_id@, text@));
            }
            return PipelineStep { actions, next: PipelineNext::Close };
        }
        push_if(&mut actions, true, Action::Send(Outbound::Text(stt(session_id, text))));
        push_if(
            &mut actions,
            true,
            Action::Send(Outbound::Text(llm_emotion(session_id, "happy", "😊"))),
        );
        push_if(&mut actions, true, Action::Send(Outbound::Text(tts_start(session_id))));
        proof {
            assert(action_views(actions@) =~= chat_actions(session_id@, text@));
        }
        PipelineStep { actions, next: PipelineNext::Chat }
    }

    /// Goes on with what the recognition came to.
    pub fn run_pipeline(&mut self, session_id: &str, commands: &Vec<String>, outcome: &AsrOutcome) -> (r:
        PipelineStep)
        ensures
            (final(self)@, action_views(r.actions@), r.next) == asr_finished(
                old(self)@,
                session_id@,
                texts(commands@),
                *outcome,
            ),
            old(self).wf() ==> final(self).wf(),
    {
        match outcome {
            AsrOutcome::Text(text) => self.run_pipeline_with_text(
                session_id,
                commands,
                text.as_str(),
            ),
            AsrOutcome::Aborted => {
                let mut actions = no_actions();
                push_if(&mut actions, true, Action::AbortAsr);
                proof {
                    assert(action_views(actions@) =~= seq![ActionView::AbortAsr]);
                }
                PipelineStep { actions, next: PipelineNext::Done }
            },
            AsrOutcome::Failed => PipelineStep {
                actions: no_actions(),
                next: PipelineNext::Fail,
            },
        }
    }

    /// Closes the session, if that was decided and the conversation was not given
    /// up: the last sounds are played, the device is told, and the session ends.
    pub fn maybe_schedule_close_after_chat(&self, aborted: bool) -> (r: Vec<Action>)
        ensures
            action_views(r@) == close_actions(self@, aborted),
    {
        let mut actions = no_actions();
        let close = self.close_after_chat && !aborted;
        push_if(&mut actions, close, Action::Sleep(POST_TTS_FLUSH_DELAY_MS));
        push_if(&mut actions, close, Action::Send(Outbound::Close));
        push_if(&mut actions, close, Action::Shutdown);
        proof {
            assert(action_views(actions@) =~= close_actions(self@, aborted));
        }
        actions
    }
}

/// There is no language model to ask.
pub fn chat_unavailable(session_id: &str) -> (r: PipelineStep)
    ensures
        action_views(r.actions@) == seq![
            send_text(error_tree(session_id@, "llm session not available"@)),
        ],
        r.next == PipelineNext::Done,
{
    let mut actions = no_actions();
    push_if(
        &mut actions,
        true,
        Action::Send(Outbound::Text(error(session_id, "llm session not available"))),
    );
    proof {
        assert(action_views(actions@) =~= seq![
            send_text(error_tree(session_id@, "llm session not available"@)),
        ]);
    }
    PipelineStep { actions, next: PipelineNext::Done }
}

/// What came of waiting for speech output.
#[derive(Debug)]
pub enum TtsOutcome {
    Event(TtsEvent),
    /// All was said.
    Ended,
    /// Speech output has failed.
    Failed,
    /// The conversation was given up.
    Aborted,
}

/// What follows in speech output.
#[derive(Debug)]
pub enum TtsNext {
    /// Send this; `after_send` says whether to go on.
    Send(Outbound),
    /// Stop.
    Stop { aborted: bool },
    /// The conversation has failed.
    Fail,
}

/// What speech output comes to.
pub enum TtsNextView {
    Send(OutboundView),
    Stop { aborted: bool },
    Fail,
}

impl TtsNext {
    pub open spec fn view(self) -> TtsNextView {
        match self {
            TtsNext::Send(o) => TtsNextView::Send(o@),
            TtsNext::Stop { aborted } => TtsNextView::Stop { aborted },
            TtsNext::Fail => TtsNextView::Fail,
        }
    }
}

/// What speech output comes to: sentences are announced, audio is framed.
pub open spec fn tts_next(
    id: Seq<char>,
    version: BinaryProtocolVersion,
    outcome: TtsOutcome,
) -> TtsNextView {
    match outcome {
        TtsOutcome::Event(e) => match e@ {
            TtsView::SentenceStart(text) => TtsNextView::Send(
                OutboundView::Text(tts_sentence_start_tree(id, text)),
            ),
            TtsView::Audio { timestamp, payload } => TtsNextView::Send(
                OutboundView::Binary(encoded_frame(version, timestamp, payload)),
            ),
        },
        TtsOutcome::Ended => TtsNextView::Stop { aborted: false },
        TtsOutcome::Failed => TtsNextView::Fail,
        TtsOutcome::Aborted => TtsNextView::Stop { aborted: true },
    }
}

/// Takes in what comes of speech output.
pub fn on_tts(session_id: &str, version: BinaryProtocolVersion, outcome: TtsOutcome) -> (r: TtsNext)
    ensures
        r@ == tts_next(session_id@, version, outcome),
{
    match outcome {
        TtsOutcome::Event(event) => match event {
            TtsEvent::SentenceStart(text) => TtsNext::Send(
                Outbound::Text(tts_sentence_start(session_id, text.as_str())),
            ),
            TtsEvent::Audio(frame) => TtsNext::Send(
                Outbound::Binary(encode_audio_frame(version, &frame)),
            ),
        },
        TtsOutcome::Ended => TtsNext::Stop { aborted: false },
        TtsOutcome::Failed => TtsNext::Fail,
        TtsOutcome::Aborted => TtsNext::Stop { aborted: true },
    }
}

/// Whether the speech stops after a message of it was sent, or could not be sent:
/// nobody hears audio that cannot be sent, but a text that is lost is passed over.
pub fn after_send(sent: bool, is_audio: bool) -> (stop: bool)
    ensures
        stop == (!sent && is_audio),
{
    !sent && is_audio
}

/// Ends speech output. The device is told in any case, also where the conversation
/// was given up.
pub fn end_speech(session_id: &str) -> (r: Vec<Action>)
    ensures
        action_views(r@) == seq![send_text(tts_tree(session_id@, "stop"@))],
{
    let mut actions = no_actions();
    push_if(&mut actions, true, Action::Send(Outbound::Text(tts_stop(session_id))));
    proof {
        assert(action_views(actions@) =~= seq![send_text(tts_tree(session_id@, "stop"@))]);
    }
    actions
}

/// A conversation has failed. The device stops to wait for sound; where the server
/// was saying goodbye, the session ends.
pub fn pipeline_failed(session_id: &str, goodbye: bool) -> (r: Vec<Action>)
    ensures
        action_views(r@) == (if goodbye {
            seq![ActionView::Shutdown]
        } else {
            seq![send_text(tts_tree(session_id@, "stop"@))]
        }),
{
    let mut actions = no_actions();
    if goodbye {
        push_if(&mut actions, true, Action::Shutdown);
        proof {
            assert(action_views(actions@) =~= seq![ActionView::Shutdown]);
        }
        return actions;
    }
    push_if(&mut actions, true, Action::Send(Outbound::Text(tts_stop(session_id))));
    proof {
        assert(action_views(actions@) =~= seq![send_text(tts_tree(session_id@, "stop"@))]);
    }
    actions
}

/// A conversation that is given up never closes the session.
pub proof fn law_abort_never_closes(s: Session)
    ensures
        close_actions(s, true) == Seq::<ActionView>::empty(),
{
}

/// An exit command closes the session after the answer to it, unless that is given
/// up; any other text leaves open what was decided before.
pub proof fn law_exit_command_closes(s: Session, commands: Seq<Seq<char>>, text: Seq<char>)
    ensures
        matched_from(commands, text, 0) is Some ==> close_actions(
            text_heard(s, commands, text),
            false,
        ).last() == ActionView::Shutdown,
        matched_from(commands, text, 0) is None ==> close_actions(
            text_heard(s, commands, text),
            false,
        ) == close_actions(s, false),
{
}

/// Speech output that is announced for a text that is blank is also ended: the
/// device never waits for sound that does not come.
pub proof fn law_blank_text_is_answered(id: Seq<char>, text: Seq<char>)
    requires
        trimmed(text).len() == 0,
    ensures
        chat_actions(id, text) == seq![
            ActionView::Send(OutboundView::Text(tts_tree(id, "start"@))),
            ActionView::Send(OutboundView::Text(tts_tree(id, "stop"@))),
        ],
        chat_next(text) == PipelineNext::Close,
{
}

/// A text that is not blank is shown to the device, with a face, speech is announced,
/// and the language model is asked.
pub proof fn law_text_is_answered(id: Seq<char>, text: Seq<char>)
    requires
        trimmed(text).len() > 0,
    ensures
        chat_next(text) == PipelineNext::Chat,
        chat_actions(id, text) == seq![
            ActionView::Send(OutboundView::Text(stt_tree(id, text))),
            ActionView::Send(OutboundView::Text(llm_emotion_tree(id, "happy"@, "😊"@))),
            ActionView::Send(OutboundView::Text(tts_tree(id, "start"@))),
        ],
{
}

/// A recognition that was given up is aborted and ends the conversation, one that
/// failed fails it, and neither changes the session; a text decides nothing but whether
/// the session closes.
pub proof fn law_recognition_outcomes(
    s: Session,
    id: Seq<char>,
    commands: Seq<Seq<char>>,
    text: String,
)
    ensures
        asr_finished(s, id, commands, AsrOutcome::Aborted) == (
            s,
            seq![ActionView::AbortAsr],
            PipelineNext::Done,
        ),
        asr_finished(s, id, commands, AsrOutcome::Failed) == (
            s,
            Seq::<ActionView>::empty(),
            PipelineNext::Fail,
        ),
        ({
            let (t, actions, next) = asr_finished(s, id, commands, AsrOutcome::Text(text));
            &&& t == (Session { close_after_chat: t.close_after_chat, ..s })
            &&& t.close_after_chat == (s.close_after_chat || matched_from(commands, text@, 0)
                is Some)
            &&& actions == chat_actions(id, text@)
            &&& next == chat_next(text@)
        }),
{
}

/// A session that is to close does so once its last sounds had 240 ms to be played, with
/// the device told before the session ends; one that is not to close, or whose
/// conversation was given up, goes on.
pub proof fn law_closing_lets_the_sound_end(s: Session, aborted: bool)
    ensures
        close_actions(s, aborted) == (if s.close_after_chat && !aborted {
            seq![
                ActionView::Sleep(240),
                ActionView::Send(OutboundView::Close),
                ActionView::Shutdown,
            ]
        } else {
            seq![]
        }),
{
}

/// Speech output is passed on as it comes: the text of a sentence is announced, a packet
/// is framed for the version of the protocol with its own timestamp; its end stops the
/// speech, giving up stops it as given up, and a failure fails the conversation.
pub proof fn law_speech_is_passed_on(
    id: Seq<char>,
    version: BinaryProtocolVersion,
    text: String,
    frame: AudioFrame,
)
    ensures
        tts_next(id, version, TtsOutcome::Event(TtsEvent::SentenceStart(text)))
            == TtsNextView::Send(OutboundView::Text(tts_sentence_start_tree(id, text@))),
        tts_next(id, version, TtsOutcome::Event(TtsEvent::Audio(frame))) == TtsNextView::Send(
            OutboundView::Binary(
                encoded_frame(version, frame.timestamp, bytes_content(frame.payload)),
            ),
        ),
        tts_next(id, version, TtsOutcome::Ended) == (TtsNextView::Stop { aborted: false }),
        tts_next(id, version, TtsOutcome::Aborted) == (TtsNextView::Stop { aborted: true }),
        tts_next(id, version, TtsOutcome::Failed) == TtsNextView::Fail,
{
}

} // verus!
