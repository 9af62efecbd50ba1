//! Services that need nothing outside: they answer with fixed texts and silence.
use crate::audio::opus_silence::{packet, silence_bytes};
use crate::protocol::{AudioFrame, SERVER_FRAME_DURATION_MS};
use crate::services::volcengine::later;
use crate::services::{tts_views, TtsEvent, TtsView};
use crate::text::{concat, texts};
use vstd::prelude::*;

verus! {

/// Speech recognition that hears the same words every time.
#[derive(Clone, Debug)]
pub struct MockAsr;

/// One recognition.
#[derive(Debug)]
pub struct MockAsrStream {
    pub frames: usize,
}

impl MockAsr {
    /// Starts a recognition.
    pub fn start_stream(&self) -> (r: MockAsrStream)
        ensures
            r.frames == 0,
    {
        MockAsrStream { frames: 0 }
    }
}

impl MockAsrStream {
    /// Counts what comes in.
    pub fn push_pcm(&mut self, _samples: &[i16])
        requires
            old(self).frames < usize::MAX,
        ensures
            final(self).frames == old(self).frames + 1,
    {
        self.frames = self.frames + 1;
    }

    /// What was heard.
    pub fn finish(&self) -> (r: String)
        ensures
            r@ == "你好小智"@,
    {
        "你好小智".to_owned()
    }
}

/// A language model that says that it heard the user.
#[derive(Clone, Debug)]
pub struct MockLlmFactory;

/// The pause before each piece of an answer, in milliseconds.
pub const ANSWER_PAUSE_MS: u64 = 180;

/// One conversation.
#[derive(Debug)]
pub struct MockLlmSession;

impl MockLlmFactory {
    /// Starts a conversation.
    pub fn create_session(&self) -> (r: MockLlmSession)
        ensures
            r == MockLlmSession,
    {
        MockLlmSession
    }
}

/// The pieces of the answer.
pub open spec fn mock_answer(prompt: Seq<char>) -> Seq<Seq<char>> {
    seq![
        "你好，"@,
        "我是 Rust 版小智服务端。"@,
        "我已经收到你的消息："@ + prompt + "。"@,
        "这是一个 mock 回复。"@,
    ]
}

impl MockLlmSession {
    /// The pieces of the answer.
    pub fn chat(&self, prompt: &str) -> (r: Vec<String>)
        ensures
            texts(r@) == mock_answer(prompt@),
    {
        let heard = concat("我已经收到你的消息：", prompt);
        let r = vec![
            "你好，".to_owned(),
            "我是 Rust 版小智服务端。".to_owned(),
            concat(heard.as_str(), "。"),
            "这是一个 mock 回复。".to_owned(),
        ];
        proof {
            assert(texts(r@) =~= mock_answer(prompt@));
        }
        r
    }
}

/// Speech synthesis that is silent.
#[derive(Clone, Debug)]
pub struct MockTts {
    pub frames_per_text_chunk: usize,
}

impl Default for MockTts {
    fn default() -> (r: Self)
        ensures
            r.frames_per_text_chunk == 6,
    {
        MockTts { frames_per_text_chunk: 6 }
    }
}

/// One synthesis.
#[derive(Debug)]
pub struct MockSpeech {
    pub frames_per_text_chunk: usize,
    pub timestamp: u32,
    pub announced: bool,
}

/// Some frames of silence.
pub open spec fn silence_events(timestamp: u32, n: nat) -> Seq<TtsView> {
    Seq::new(
        n,
        |i: int| TtsView::Audio { timestamp: later(timestamp, i), payload: silence_bytes() },
    )
}

/// What a piece of text brings: the first that is not empty is announced, and each
/// that is not empty takes some frames.
pub open spec fn spoken(s: MockSpeech, chunk: Seq<char>) -> (MockSpeech, Seq<TtsView>) {
    if chunk.len() == 0 {
        (s, seq![])
    } else {
        let n = s.frames_per_text_chunk as nat;
        (
            MockSpeech { timestamp: later(s.timestamp, n as int), announced: true, ..s },
            (if s.announced {
                seq![]
            } else {
                seq![TtsView::SentenceStart(chunk)]
            }) + silence_events(s.timestamp, n),
        )
    }
}

impl MockTts {
    /// Starts a synthesis.
    pub fn start(&self) -> (r: MockSpeech)
        ensures
            r == (MockSpeech {
                frames_per_text_chunk: self.frames_per_text_chunk,
                timestamp: 0,
                announced: false,
            }),
    {
        MockSpeech {
            frames_per_text_chunk: self.frames_per_text_chunk,
            timestamp: 0,
            announced: false,
        }
    }
}

impl MockSpeech {
    /// What a piece of text brings.
    pub fn on_chunk(&mut self, chunk: &str) -> (r: Vec<TtsEvent>)
        ensures
            (*final(self), tts_views(r@)) == spoken(*old(self), chunk@),
    {
        let mut events: Vec<TtsEvent> = Vec::new();
        proof {
            assert(tts_views(events@) =~= seq![]);
        }
        if chunk.is_empty() {
            return events;
        }
        if !self.announced {
            self.announced = true;
            events.push(TtsEvent::SentenceStart(chunk.to_owned()));
            proof {
                assert(tts_views(events@) =~= seq![TtsView::SentenceStart(chunk@)]);
            }
        }
        let n: usize = self.frames_per_text_chunk;
        let ghost head = tts_views(events@);
        let ghost first = self.timestamp;
        proof {
            assert(head + silence_events(first, 0) =~= head);
        }
        for i in 0..n
            invariant
                tts_views(events@) == head + silence_events(first, i as nat),
                self.timestamp == later(first, i as int),
                self.announced,
                self.frames_per_text_chunk == old(self).frames_per_text_chunk,
        {
            let ghost before = events@;
            events.push(
                TtsEvent::Audio(AudioFrame { timestamp: self.timestamp, payload: packet() }),
            );
            self.timestamp = self.timestamp.saturating_add(SERVER_FRAME_DURATION_MS);
            proof {
                assert(tts_views(events@) =~= tts_views(before).push(
                    TtsView::Audio { timestamp: later(first, i as int), payload: silence_bytes() },
                ));
                assert(tts_views(events@) =~= head + silence_events(first, (i + 1) as nat));
            }
        }
        events
    }
}

/// What a piece of text brings. The first that is not empty is announced with its text;
/// each that is not empty takes its number of silent frames, 60 ms apart and after all
/// before them; an empty one brings nothing.
pub proof fn law_speech(s: MockSpeech, chunk: Seq<char>, i: int)
    ensures
        ({
            let (next, events) = spoken(s, chunk);
            let n = s.frames_per_text_chunk as int;
            let head = if s.announced {
                0int
            } else {
                1int
            };
            let reaches = |n: int, t: u32|
                (s.timestamp + 60 * n <= 0xffff_ffff ==> t == s.timestamp + 60 * n) && (s.timestamp
                    + 60 * n > 0xffff_ffff ==> t == 0xffff_ffffu32);
            &&& chunk.len() == 0 ==> next == s && events.len() == 0
            &&& chunk.len() > 0 ==> {
                &&& next.announced
                &&& next.frames_per_text_chunk == s.frames_per_text_chunk
                &&& reaches(n, next.timestamp)
                &&& events.len() == head + n
                &&& !s.announced ==> events[0] == TtsView::SentenceStart(chunk)
                &&& 0 <= i < n ==> events[head + i] is Audio && events[head + i]->payload
                    == silence_bytes() && reaches(i, events[head + i]->timestamp)
            }
        }),
{
}

/// The answer comes in four pieces, and the third repeats what was said.
pub proof fn law_answer(prompt: Seq<char>)
    ensures
        mock_answer(prompt).len() == 4,
        mock_answer(prompt)[0] == "你好，"@,
        mock_answer(prompt)[1] == "我是 Rust 版小智服务端。"@,
        mock_answer(prompt)[2] == "我已经收到你的消息："@ + prompt + "。"@,
        mock_answer(prompt)[3] == "这是一个 mock 回复。"@,
{
}

} // verus!
