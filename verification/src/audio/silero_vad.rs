//! Voice activity: from one speech level per frame of audio to the start and the
//! end of speech.
//!
//! The probability that a frame holds speech, and the length after which speech
//! is cut off, are floating-point numbers. They are compared outside; what comes
//! in here is the outcome.
use crate::cut::cut;
use crate::env::{is_off, means_off, or, or_text, or_uint, uint_or, ConfigError, Env};
use crate::text::{concat, decimal, decimal_text, lowered, opt_text, same, to_ascii_lowercase};
use vstd::prelude::*;

verus! {

const DEFAULT_SAMPLE_RATE: usize = 16_000;

/// How the detector is set up. The two floating-point settings are held beside
/// it.
#[derive(Clone, Debug)]
pub struct SileroVadConfig {
    /// The model file, if one was configured.
    pub model_path: Option<String>,
    pub sample_rate: usize,
    pub frame_size_ms: usize,
    pub min_silence_duration_ms: usize,
    pub speech_pad_ms: usize,
    pub min_speech_duration_ms: usize,
}

/// The detector that was asked for, in lower case.
pub open spec fn vad_provider(env: Env) -> Seq<char> {
    lowered(or_text(env.var("XIAOZHI_VAD_PROVIDER"@), "silero"@))
}

/// A size in milliseconds, or its default.
fn size_or(v: Option<String>, default: u32) -> (r: usize)
    ensures
        r == or_uint(opt_text(v), usize::MAX as nat, default as nat),
{
    uint_or(v, usize::MAX as u64, default as u64) as usize
}

/// What the settings come to.
pub open spec fn vad_configured(env: Env, r: Result<Option<SileroVadConfig>, ConfigError>) -> bool {
    match r {
        Ok(None) => means_off(vad_provider(env)),
        Ok(Some(c)) => {
            &&& vad_provider(env) == "silero"@
            &&& !means_off(vad_provider(env))
            &&& opt_text(c.model_path) == env.var2(
                "SILERO_VAD_MODEL_PATH"@,
                "XIAOZHI_VAD_MODEL_PATH"@,
            )
            &&& c.sample_rate == 16_000
            &&& c.frame_size_ms == or_uint(
                env.var("XIAOZHI_VAD_FRAME_SIZE_MS"@),
                usize::MAX as nat,
                32,
            )
            &&& c.min_silence_duration_ms == or_uint(
                env.var("XIAOZHI_VAD_MIN_SILENCE_MS"@),
                usize::MAX as nat,
                600,
            )
            &&& c.speech_pad_ms == or_uint(
                env.var("XIAOZHI_VAD_SPEECH_PAD_MS"@),
                usize::MAX as nat,
                64,
            )
            &&& c.min_speech_duration_ms == or_uint(
                env.var("XIAOZHI_VAD_MIN_SPEECH_MS"@),
                usize::MAX as nat,
                160,
            )
        },
        Err(e) => {
            &&& !means_off(vad_provider(env))
            &&& vad_provider(env) != "silero"@
            &&& e.message@ == "unsupported XIAOZHI_VAD_PROVIDER="@ + vad_provider(env)
                + "; expected silero or none"@
        },
    }
}

impl SileroVadConfig {
    /// The detector's settings; `None` if it is switched off.
    pub fn from_env(env: &Env) -> (r: Result<Option<Self>, ConfigError>)
        ensures
            vad_configured(*env, r),
    {
        let provider = or(env.get("XIAOZHI_VAD_PROVIDER"), "silero");
        let provider = to_ascii_lowercase(provider.as_str());
        if is_off(provider.as_str()) {
            return Ok(None);
        }
        if !same(provider.as_str(), "silero") {
            let message = concat("unsupported XIAOZHI_VAD_PROVIDER=", provider.as_str());
            let message = concat(message.as_str(), "; expected silero or none");
            return Err(ConfigError { message });
        }
        Ok(
            Some(
                SileroVadConfig {
                    model_path: env.get2("SILERO_VAD_MODEL_PATH", "XIAOZHI_VAD_MODEL_PATH"),
                    sample_rate: DEFAULT_SAMPLE_RATE,
                    frame_size_ms: size_or(env.get("XIAOZHI_VAD_FRAME_SIZE_MS"), 32),
                    min_silence_duration_ms: size_or(env.get("XIAOZHI_VAD_MIN_SILENCE_MS"), 600),
                    speech_pad_ms: size_or(env.get("XIAOZHI_VAD_SPEECH_PAD_MS"), 64),
                    min_speech_duration_ms: size_or(env.get("XIAOZHI_VAD_MIN_SPEECH_MS"), 160),
                },
            ),
        )
    }

    /// Whether the detector can run with these settings.
    pub open spec fn valid(self) -> bool {
        (self.sample_rate == 16_000 || self.sample_rate == 8_000) && self.frame_size_ms > 0
    }

    /// Refuses settings that the detector cannot run with.
    pub fn check(&self) -> (r: Result<(), ConfigError>)
        ensures
            match r {
                Ok(()) => self.valid(),
                Err(e) => !self.valid() && e.message@ == (if self.sample_rate != 16_000
                    && self.sample_rate != 8_000 {
                    "Silero VAD only supports 8kHz or 16kHz, got "@ + decimal_text(
                        self.sample_rate as nat,
                    )
                } else {
                    "Silero VAD frame size must be positive"@
                }),
            },
    {
        if self.sample_rate != 16_000 && self.sample_rate != 8_000 {
            let message = concat(
                "Silero VAD only supports 8kHz or 16kHz, got ",
                decimal(self.sample_rate as u64).as_str(),
            );
            return Err(ConfigError { message });
        }
        if self.frame_size_ms == 0 {
            return Err(
                ConfigError { message: "Silero VAD frame size must be positive".to_owned() },
            );
        }
        Ok(())
    }

    /// Every size of the detector can be counted in samples.
    pub open spec fn fits(self) -> bool {
        let per_ms = self.sample_rate as int / 1000;
        &&& self.frame_size_ms * per_ms <= usize::MAX
        &&& per_ms * self.min_speech_duration_ms <= usize::MAX
        &&& per_ms * self.speech_pad_ms <= usize::MAX
        &&& per_ms * self.min_silence_duration_ms <= usize::MAX
        &&& per_ms * 98 <= usize::MAX
    }
}

/// The model file: the configured one, or the project's own if it exists, or
/// else the fallback.
pub fn model_path(configured: &Option<String>, project_model_exists: bool) -> (r: String)
    ensures
        r@ == or_text(
            opt_text(*configured),
            if project_model_exists {
                "models/silero_vad.onnx"@
            } else {
                "/home/urie/temp/silero-vad/src/silero_vad/data/silero_vad.onnx"@
            },
        ),
{
    match configured {
        Some(path) => path.clone(),
        None => if project_model_exists {
            "models/silero_vad.onnx".to_owned()
        } else {
            "/home/urie/temp/silero-vad/src/silero_vad/data/silero_vad.onnx".to_owned()
        },
    }
}

/// Speech was detected.
#[derive(Debug, Clone, Copy, PartialEq, Eq, Structural)]
pub enum VadEvent {
    SpeechStart { sample: usize },
    SpeechEnd { start_sample: usize, end_sample: usize },
}

/// How the speech probability of a frame compares with the threshold.
#[derive(Debug, Clone, Copy, PartialEq, Eq, Structural)]
pub enum SpeechLevel {
    /// Over the threshold.
    Speech,
    /// Neither.
    Between,
    /// More than 0.15 under the threshold.
    Silence,
}

/// The detector's sizes in samples.
#[derive(Debug, Clone, Copy)]
pub struct VadParams {
    pub frame_size_samples: usize,
    pub min_speech_samples: usize,
    pub speech_pad_samples: usize,
    pub min_silence_samples: usize,
    pub min_silence_samples_at_max_speech: usize,
}

impl VadParams {
    /// The sizes that some settings come to.
    pub fn from_config(config: &SileroVadConfig) -> (r: Self)
        requires
            config.fits(),
        ensures
            r.frame_size_samples == config.frame_size_ms * (config.sample_rate as int / 1000),
            r.min_speech_samples == (config.sample_rate as int / 1000)
                * config.min_speech_duration_ms,
            r.speech_pad_samples == (config.sample_rate as int / 1000) * config.speech_pad_ms,
            r.min_silence_samples == (config.sample_rate as int / 1000)
                * config.min_silence_duration_ms,
            r.min_silence_samples_at_max_speech == (config.sample_rate as int / 1000) * 98,
            config.valid() ==> r.frame_size_samples > 0,
    {
        let per_ms: usize = config.sample_rate / 1000;
        proof {
            if config.valid() {
                assert(config.frame_size_ms * per_ms > 0) by (nonlinear_arith)
                    requires
                        config.frame_size_ms > 0,
                        per_ms > 0,
                ;
            }
        }
        VadParams {
            frame_size_samples: config.frame_size_ms * per_ms,
            min_speech_samples: per_ms * config.min_speech_duration_ms,
            speech_pad_samples: per_ms * config.speech_pad_ms,
            min_silence_samples: per_ms * config.min_silence_duration_ms,
            min_silence_samples_at_max_speech: per_ms * 98,
        }
    }

    /// The sizes that some settings come to, if they can be counted.
    pub fn try_from_config(config: &SileroVadConfig) -> (r: Option<Self>)
        ensures
            match r {
                Some(p) => {
                    &&& config.fits()
                    &&& p.frame_size_samples == config.frame_size_ms * (config.sample_rate as int
                        / 1000)
                    &&& p.min_speech_samples == (config.sample_rate as int / 1000)
                        * config.min_speech_duration_ms
                    &&& p.speech_pad_samples == (config.sample_rate as int / 1000)
                        * config.speech_pad_ms
                    &&& p.min_silence_samples == (config.sample_rate as int / 1000)
                        * config.min_silence_duration_ms
                    &&& p.min_silence_samples_at_max_speech == (config.sample_rate as int / 1000)
                        * 98
                    &&& config.valid() ==> p.frame_size_samples > 0
                },
                None => !config.fits(),
            },
    {
        let per_ms: usize = config.sample_rate / 1000;
        if config.frame_size_ms.checked_mul(per_ms).is_some() && per_ms.checked_mul(
            config.min_speech_duration_ms,
        ).is_some() && per_ms.checked_mul(config.speech_pad_ms).is_some() && per_ms.checked_mul(
            config.min_silence_duration_ms,
        ).is_some() && per_ms.checked_mul(98).is_some() {
            Some(Self::from_config(config))
        } else {
            None
        }
    }
}

/// Where the detector stands.
#[derive(Debug, Clone, Copy, PartialEq, Eq, Structural)]
pub struct VadState {
    pub current_sample: usize,
    pub temp_end: usize,
    pub next_start: usize,
    pub prev_end: usize,
    pub triggered: bool,
    pub current_start: usize,
}

impl Default for VadState {
    fn default() -> (r: Self)
        ensures
            r == initial_state(),
    {
        VadState {
            current_sample: 0,
            temp_end: 0,
            next_start: 0,
            prev_end: 0,
            triggered: false,
            current_start: 0,
        }
    }
}

/// Nothing was heard yet.
pub open spec fn initial_state() -> VadState {
    VadState {
        current_sample: 0,
        temp_end: 0,
        next_start: 0,
        prev_end: 0,
        triggered: false,
        current_start: 0,
    }
}

/// `a - b`, but never under 0.
pub open spec fn past(a: usize, b: usize) -> usize {
    if a > b {
        (a - b) as usize
    } else {
        0
    }
}

/// The state after speech ended at `end`, and the event if it was long enough.
pub open spec fn speech_finished(s: VadState, p: VadParams, end: usize) -> (
    VadState,
    Option<VadEvent>,
) {
    (
        VadState { current_sample: s.current_sample, ..initial_state() },
        if past(end, s.current_start) > p.min_speech_samples {
            Some(VadEvent::SpeechEnd { start_sample: s.current_start, end_sample: end })
        } else {
            None
        },
    )
}

/// The state one frame further on in time.
pub open spec fn advanced(s: VadState, p: VadParams) -> VadState {
    VadState {
        current_sample: if s.current_sample + p.frame_size_samples > usize::MAX {
            usize::MAX
        } else {
            (s.current_sample + p.frame_size_samples) as usize
        },
        ..s
    }
}

/// A frame with speech in it.
pub open spec fn speech_heard(s: VadState, p: VadParams) -> (VadState, Option<VadEvent>) {
    let start = past(s.current_sample, p.frame_size_samples);
    let resumed = if s.temp_end != 0 {
        VadState {
            temp_end: 0,
            next_start: if s.next_start < s.prev_end {
                start
            } else {
                s.next_start
            },
            ..s
        }
    } else {
        s
    };
    if s.triggered {
        (resumed, None)
    } else {
        (
            VadState { triggered: true, current_start: start, ..resumed },
            Some(VadEvent::SpeechStart { sample: start }),
        )
    }
}

/// A silent frame while speech is on.
pub open spec fn silence_heard(s: VadState, p: VadParams) -> (VadState, Option<VadEvent>) {
    let temp_end = if s.temp_end == 0 {
        s.current_sample
    } else {
        s.temp_end
    };
    let quiet = past(s.current_sample, temp_end);
    let waiting = VadState {
        temp_end,
        prev_end: if quiet > p.min_silence_samples_at_max_speech {
            temp_end
        } else {
            s.prev_end
        },
        ..s
    };
    if quiet >= p.min_silence_samples {
        speech_finished(waiting, p, temp_end)
    } else {
        (waiting, None)
    }
}

/// What one frame does. `too_long` says that the speech that is on has lasted
/// longer than speech may.
pub open spec fn updated(s: VadState, p: VadParams, level: SpeechLevel, too_long: bool) -> (
    VadState,
    Option<VadEvent>,
) {
    let now = advanced(s, p);
    if level == SpeechLevel::Speech {
        speech_heard(now, p)
    } else if now.triggered && too_long {
        speech_finished(
            now,
            p,
            if now.prev_end > 0 {
                now.prev_end
            } else {
                now.current_sample
            },
        )
    } else if now.triggered && level == SpeechLevel::Silence {
        silence_heard(now, p)
    } else {
        (now, None)
    }
}

impl VadState {
    /// How many samples the speech that is on will have lasted after one more
    /// frame.
    pub fn speech_len(&self, params: &VadParams) -> (r: usize)
        ensures
            r == past(advanced(*self, *params).current_sample, self.current_start),
    {
        self.current_sample.saturating_add(params.frame_size_samples).saturating_sub(
            self.current_start,
        )
    }

    /// Takes in the level of the next frame.
    pub fn update(&mut self, params: &VadParams, level: SpeechLevel, too_long: bool) -> (r: Option<
        VadEvent,
    >)
        ensures
            (*final(self), r) == updated(*old(self), *params, level, too_long),
    {
        self.current_sample = self.current_sample.saturating_add(params.frame_size_samples);
        if level == SpeechLevel::Speech {
            let start: usize = self.current_sample.saturating_sub(params.frame_size_samples);
            if self.temp_end != 0 {
                self.temp_end = 0;
                if self.next_start < self.prev_end {
                    self.next_start = start;
                }
            }
            if !self.triggered {
                self.triggered = true;
                self.current_start = start;
                return Some(VadEvent::SpeechStart { sample: start });
            }
            return None;
        }
        if self.triggered && too_long {
            let end: usize = if self.prev_end > 0 {
                self.prev_end
            } else {
                self.current_sample
            };
            return self.finish_speech(end, params);
        }
        if self.triggered && level == SpeechLevel::Silence {
            if self.temp_end == 0 {
                self.temp_end = self.current_sample;
            }
            let quiet: usize = self.current_sample.saturating_sub(self.temp_end);
            if quiet > params.min_silence_samples_at_max_speech {
                self.prev_end = self.temp_end;
            }
            if quiet >= params.min_silence_samples {
                let end: usize = self.temp_end;
                return self.finish_speech(end, params);
            }
        }
        None
    }

    /// Ends the speech that is on.
    fn finish_speech(&mut self, end: usize, params: &VadParams) -> (r: Option<VadEvent>)
        ensures
            (*final(self), r) == speech_finished(*old(self), *params, end),
    {
        let start: usize = self.current_start;
        self.prev_end = 0;
        self.next_start = 0;
        self.temp_end = 0;
        self.triggered = false;
        self.current_start = 0;
        if end.saturating_sub(start) > params.min_speech_samples {
            Some(VadEvent::SpeechEnd { start_sample: start, end_sample: end })
        } else {
            None
        }
    }
}

/// One frame's level and whether the speech that is on has lasted too long.
pub struct Frame {
    pub level: SpeechLevel,
    pub too_long: bool,
}

/// The state after some frames, and the events that they gave.
pub open spec fn run(s: VadState, p: VadParams, frames: Seq<Frame>) -> (VadState, Seq<VadEvent>)
    decreases frames.len(),
{
    if frames.len() == 0 {
        (s, seq![])
    } else {
        let (middle, events) = run(s, p, frames.drop_last());
        let (end, event) = updated(middle, p, frames.last().level, frames.last().too_long);
        match event {
            Some(e) => (end, events.push(e)),
            None => (end, events),
        }
    }
}

/// The end of speech is always told of the speech whose start was told last: the
/// event before it is the start of the same speech, which was longer than the
/// shortest that counts. While speech is on, the last event is its start.
pub proof fn law_end_follows_its_start(p: VadParams, frames: Seq<Frame>)
    ensures
        ({
            let (end, events) = run(initial_state(), p, frames);
            &&& end.triggered ==> events.len() > 0 && events.last() == (VadEvent::SpeechStart {
                sample: end.current_start,
            })
            &&& forall|i: int|
                0 <= i < events.len() ==> match #[trigger] events[i] {
                    VadEvent::SpeechEnd { start_sample, end_sample } => {
                        &&& i > 0
                        &&& events[i - 1] == (VadEvent::SpeechStart { sample: start_sample })
                        &&& end_sample - start_sample > p.min_speech_samples
                    },
                    VadEvent::SpeechStart { .. } => true,
                }
        }),
    decreases frames.len(),
{
    if frames.len() > 0 {
        law_end_follows_its_start(p, frames.drop_last());
    }
}

/// Speech starts only when none is on and ends only when some is.
pub proof fn law_start_and_end(s: VadState, p: VadParams, level: SpeechLevel, too_long: bool)
    ensures
        ({
            let (next, event) = updated(s, p, level, too_long);
            &&& event matches Some(VadEvent::SpeechStart { .. }) ==> !s.triggered && next.triggered
                && level == SpeechLevel::Speech
            &&& event matches Some(VadEvent::SpeechEnd { .. }) ==> s.triggered && !next.triggered
                && level != SpeechLevel::Speech
            &&& event is None && next.triggered ==> s.triggered
        }),
{
}

/// Speech is on after some frames.
pub open spec fn speech_on(p: VadParams, frames: Seq<Frame>) -> bool {
    run(initial_state(), p, frames).0.triggered
}

/// The speech that is on started with frame `i`.
pub open spec fn is_onset(p: VadParams, frames: Seq<Frame>, i: int) -> bool {
    &&& 0 <= i < frames.len()
    &&& frames[i].level == SpeechLevel::Speech
    &&& !speech_on(p, frames.take(i))
    &&& forall|k: int| i < k <= frames.len() ==> speech_on(p, #[trigger] frames.take(k))
}

/// Frame `l` is the last with speech in it, and frame `j` the first silent one after it.
pub open spec fn pause_since(frames: Seq<Frame>, l: int, j: int) -> bool {
    &&& 0 <= l < j < frames.len()
    &&& frames[l].level == SpeechLevel::Speech
    &&& frames[j].level == SpeechLevel::Silence
    &&& forall|k: int| l < k < frames.len() ==> (#[trigger] frames[k]).level != SpeechLevel::Speech
    &&& forall|k: int| l < k < j ==> (#[trigger] frames[k]).level != SpeechLevel::Silence
}

/// Frame `l` is the last with speech in it, and no silent one came after it.
pub open spec fn no_pause_since(frames: Seq<Frame>, l: int) -> bool {
    &&& 0 <= l < frames.len()
    &&& frames[l].level == SpeechLevel::Speech
    &&& forall|k: int|
        l < k < frames.len() ==> (#[trigger] frames[k]).level == SpeechLevel::Between
}

/// At the silent frame `k`, the pause that started with frame `j` is long enough for
/// speech that lasts too long to be cut there.
pub open spec fn cut_point(p: VadParams, frames: Seq<Frame>, l: int, j: int, k: int) -> bool {
    &&& 0 <= k < frames.len()
    &&& frames[k].level == SpeechLevel::Silence
    &&& pause_since(frames.take(k + 1), l, j)
    &&& (k - j) * p.frame_size_samples > p.min_silence_samples_at_max_speech
}

/// What the state has to do with the frames: it counts the time, and while speech is on
/// it knows where that started, the pause that goes on and the last one that was long.
spec fn remembers(p: VadParams, frames: Seq<Frame>, s: VadState) -> bool {
    let f = p.frame_size_samples as int;
    &&& s.current_sample == frames.len() * f
    &&& !s.triggered ==> s.temp_end == 0 && s.prev_end == 0
    &&& s.triggered ==> exists|i: int, l: int| #[trigger]
        remembers_speech(p, frames, s, i, l)
    &&& s.triggered && s.prev_end > 0 ==> exists|l: int, j: int, k: int| #[trigger]
        remembers_cut(p, frames, s, l, j, k)
    &&& s.triggered && s.prev_end == 0 ==> forall|l: int, j: int, k: int|
        l * f >= s.current_start ==> !#[trigger] cut_point(p, frames, l, j, k)
}

spec fn remembers_speech(p: VadParams, frames: Seq<Frame>, s: VadState, i: int, l: int) -> bool {
    let f = p.frame_size_samples as int;
    &&& is_onset(p, frames, i)
    &&& i <= l
    &&& s.current_start == i * f
    &&& s.temp_end == 0 ==> no_pause_since(frames, l)
    &&& s.temp_end > 0 ==> exists|j: int| #[trigger]
        pause_since(frames, l, j) && s.temp_end == (j + 1) * f
}

spec fn remembers_cut(p: VadParams, frames: Seq<Frame>, s: VadState, l: int, j: int, k: int) -> bool {
    let f = p.frame_size_samples as int;
    &&& cut_point(p, frames, l, j, k)
    &&& l * f >= s.current_start
    &&& s.prev_end == (j + 1) * f
    &&& forall|l2: int, j2: int, k2: int| k < k2 ==> !#[trigger] cut_point(p, frames, l2, j2, k2)
}

/// Times are multiples of the length of a frame.
proof fn lemma_times(f: int, a: int, b: int)
    requires
        f > 0,
    ensures
        (a + 1) * f == a * f + f,
        (a - b) * f == a * f - b * f,
        a < b ==> a * f + f <= b * f,
        a >= 0 ==> a * f >= 0,
        a > 0 ==> a * f >= f,
{
    assert((a + 1) * f == a * f + f) by (nonlinear_arith);
    assert((a - b) * f == a * f - b * f) by (nonlinear_arith);
    if a < b {
        assert(a * f + f <= b * f) by (nonlinear_arith)
            requires
                a < b,
                f > 0,
        ;
    }
    if a >= 0 {
        assert(a * f >= 0) by (nonlinear_arith)
            requires
                a >= 0,
                f > 0,
        ;
    }
    if a > 0 {
        assert(a * f >= f) by (nonlinear_arith)
            requires
                a > 0,
                f > 0,
        ;
    }
}

/// There is one onset.
proof fn lemma_onset_unique(p: VadParams, frames: Seq<Frame>, a: int, b: int)
    requires
        is_onset(p, frames, a),
        is_onset(p, frames, b),
    ensures
        a == b,
{
    if a < b {
        assert(speech_on(p, frames.take(b)));
    } else if b < a {
        assert(speech_on(p, frames.take(a)));
    }
}

/// There is one pause that goes on.
proof fn lemma_pause_unique(frames: Seq<Frame>, l: int, j: int, l2: int, j2: int)
    requires
        pause_since(frames, l, j),
        pause_since(frames, l2, j2),
    ensures
        l == l2,
        j == j2,
{
    if l < l2 {
        assert(frames[l2].level != SpeechLevel::Speech);
    } else if l2 < l {
        assert(frames[l].level != SpeechLevel::Speech);
    }
    if j < j2 {
        assert(frames[j].level != SpeechLevel::Silence);
    } else if j2 < j {
        assert(frames[j2].level != SpeechLevel::Silence);
    }
}

/// One more frame leaves the earlier cut points as they are.
proof fn lemma_cut_point_before(p: VadParams, frames: Seq<Frame>, l: int, j: int, k: int)
    requires
        frames.len() > 0,
        k < frames.len() - 1,
    ensures
        cut_point(p, frames, l, j, k) == cut_point(p, frames.drop_last(), l, j, k),
{
    if k >= 0 {
        assert(frames.take(k + 1) =~= frames.drop_last().take(k + 1));
        assert(frames[k] == frames.drop_last()[k]);
    }
}

/// An onset stays the onset as long as speech is on.
proof fn lemma_onset_stays(p: VadParams, frames: Seq<Frame>, i: int)
    requires
        frames.len() > 0,
        is_onset(p, frames.drop_last(), i),
        speech_on(p, frames),
    ensures
        is_onset(p, frames, i),
{
    let before = frames.drop_last();
    assert(frames.take(i) =~= before.take(i));
    assert(frames[i] == before[i]);
    assert forall|k: int| i < k <= frames.len() implies speech_on(p, #[trigger] frames.take(k)) by {
        if k < frames.len() {
            assert(frames.take(k) =~= before.take(k));
        } else {
            assert(frames.take(k) =~= frames);
        }
    }
}

proof fn lemma_remembers(p: VadParams, frames: Seq<Frame>)
    requires
        p.frame_size_samples > 0,
        frames.len() * p.frame_size_samples <= usize::MAX,
    ensures
        remembers(p, frames, run(initial_state(), p, frames).0),
    decreases frames.len(),
{
    let f = p.frame_size_samples as int;
    let t = run(initial_state(), p, frames).0;
    if frames.len() > 0 {
        let before = frames.drop_last();
        let n = before.len() as int;
        let s = run(initial_state(), p, before).0;
        let x = frames.last();
        assert(x == frames[n]);
        lemma_times(f, n, 0);
        lemma_remembers(p, before);
        assert(t == updated(s, p, x.level, x.too_long).0);
        assert(t.current_sample == (n + 1) * f);
        if t.triggered && !s.triggered {
            assert(frames.take(n) =~= before);
            assert(frames.take(n + 1) =~= frames);
            assert(is_onset(p, frames, n));
            assert(no_pause_since(frames, n));
            assert(remembers_speech(p, frames, t, n, n));
            assert forall|l: int, j: int, k: int| l * f >= t.current_start implies
                !#[trigger] cut_point(p, frames, l, j, k) by {
                if cut_point(p, frames, l, j, k) {
                    lemma_times(f, l, n);
                }
            }
        } else if t.triggered {
            let (i, l) = choose|i: int, l: int| #[trigger] remembers_speech(p, before, s, i, l);
            lemma_onset_stays(p, frames, i);
            assert(t.current_start == s.current_start);
            if x.level == SpeechLevel::Speech {
                assert(no_pause_since(frames, n));
                assert(remembers_speech(p, frames, t, i, n));
                lemma_same_cuts(p, frames, s, t);
            } else if s.temp_end > 0 {
                let j = choose|j: int| #[trigger]
                    pause_since(before, l, j) && s.temp_end == (j + 1) * f;
                assert(pause_since(frames, l, j)) by {
                    assert(frames[l] == before[l]);
                    assert(frames[j] == before[j]);
                    assert forall|k: int| l < k < frames.len() implies (
                    #[trigger] frames[k]).level != SpeechLevel::Speech by {
                        if k < n {
                            assert(frames[k] == before[k]);
                        }
                    }
                    assert forall|k: int| l < k < j implies (#[trigger] frames[k]).level
                        != SpeechLevel::Silence by {
                        assert(frames[k] == before[k]);
                    }
                }
                lemma_times(f, j, 0);
                lemma_times(f, n, j);
                assert(t.temp_end == s.temp_end);
                assert(remembers_speech(p, frames, t, i, l));
                lemma_cuts(p, frames, s, t, i, l, j);
            } else {
                assert forall|k: int| l < k < frames.len() - 1 implies (#[trigger] frames[k]).level
                    == SpeechLevel::Between by {
                    assert(frames[k] == before[k]);
                }
                assert(frames[l] == before[l]);
                if x.level == SpeechLevel::Silence {
                    assert(pause_since(frames, l, n));
                    assert(remembers_speech(p, frames, t, i, l));
                    lemma_times(f, n, n);
                    lemma_cuts(p, frames, s, t, i, l, n);
                } else {
                    assert(no_pause_since(frames, l));
                    assert(remembers_speech(p, frames, t, i, l));
                    lemma_same_cuts(p, frames, s, t);
                }
            }
        }
    }
}

/// A frame that is not silent makes no cut point.
proof fn lemma_same_cuts(p: VadParams, frames: Seq<Frame>, s: VadState, t: VadState)
    requires
        frames.len() > 0,
        frames.last().level != SpeechLevel::Silence,
        remembers(p, frames.drop_last(), s),
        s.triggered,
        t.triggered,
        t.prev_end == s.prev_end,
        t.current_start == s.current_start,
    ensures
        t.prev_end > 0 ==> exists|l: int, j: int, k: int| #[trigger]
            remembers_cut(p, frames, t, l, j, k),
        t.prev_end == 0 ==> forall|l: int, j: int, k: int|
            l * p.frame_size_samples >= t.current_start ==> !#[trigger] cut_point(
                p,
                frames,
                l,
                j,
                k,
            ),
{
    let before = frames.drop_last();
    assert forall|l: int, j: int, k: int| #[trigger] cut_point(p, frames, l, j, k) implies
        cut_point(p, before, l, j, k) by {
        if k == frames.len() - 1 {
            assert(frames[k] == frames.last());
        } else {
            lemma_cut_point_before(p, frames, l, j, k);
        }
    }
    if t.prev_end > 0 {
        let (l, j, k) = choose|l: int, j: int, k: int| #[trigger]
            remembers_cut(p, before, s, l, j, k);
        lemma_cut_point_before(p, frames, l, j, k);
        assert(remembers_cut(p, frames, t, l, j, k));
    }
}

/// A silent frame makes a cut point if the pause is long enough by then.
proof fn lemma_cuts(
    p: VadParams,
    frames: Seq<Frame>,
    s: VadState,
    t: VadState,
    i: int,
    l: int,
    j: int,
)
    requires
        frames.len() > 0,
        p.frame_size_samples > 0,
        remembers(p, frames.drop_last(), s),
        s.triggered,
        t.triggered,
        pause_since(frames, l, j),
        i <= l,
        t.current_start == i * p.frame_size_samples,
        t.current_start == s.current_start,
        t.prev_end == (if frames.last().level == SpeechLevel::Silence && (frames.len() - 1 - j)
            * p.frame_size_samples > p.min_silence_samples_at_max_speech {
            (j + 1) * p.frame_size_samples
        } else {
            s.prev_end as int
        }),
    ensures
        t.prev_end > 0 ==> exists|l: int, j: int, k: int| #[trigger]
            remembers_cut(p, frames, t, l, j, k),
        t.prev_end == 0 ==> forall|l: int, j: int, k: int|
            l * p.frame_size_samples >= t.current_start ==> !#[trigger] cut_point(
                p,
                frames,
                l,
                j,
                k,
            ),
{
    let f = p.frame_size_samples as int;
    let before = frames.drop_last();
    let n = frames.len() - 1;
    assert(frames.take(n + 1) =~= frames);
    lemma_times(f, i, l);
    lemma_times(f, j, 0);
    if frames.last().level == SpeechLevel::Silence && (n - j) * f
        > p.min_silence_samples_at_max_speech {
        assert(cut_point(p, frames, l, j, n));
        assert(remembers_cut(p, frames, t, l, j, n));
    } else {
        assert forall|l2: int, j2: int, k2: int| #[trigger]
            cut_point(p, frames, l2, j2, k2) implies cut_point(p, before, l2, j2, k2) by {
            if k2 == n {
                lemma_pause_unique(frames, l, j, l2, j2);
            } else {
                lemma_cut_point_before(p, frames, l2, j2, k2);
            }
        }
        if t.prev_end > 0 {
            let (l1, j1, k1) = choose|l1: int, j1: int, k1: int| #[trigger]
                remembers_cut(p, before, s, l1, j1, k1);
            lemma_cut_point_before(p, frames, l1, j1, k1);
            assert(remembers_cut(p, frames, t, l1, j1, k1));
        }
    }
}

/// Speech starts with the first frame that has speech in it while none is on, at the
/// time at which that frame starts, and goes on with every further such frame.
pub proof fn law_speech_starts(p: VadParams, frames: Seq<Frame>, frame: Frame)
    requires
        p.frame_size_samples > 0,
        (frames.len() + 1) * p.frame_size_samples <= usize::MAX,
        frame.level == SpeechLevel::Speech,
    ensures
        speech_on(p, frames.push(frame)),
        run(initial_state(), p, frames.push(frame)).1 == run(initial_state(), p, frames).1 + (
        if speech_on(p, frames) {
            seq![]
        } else {
            seq![
                VadEvent::SpeechStart {
                    sample: (frames.len() * p.frame_size_samples) as usize,
                },
            ]
        }),
{
    let f = p.frame_size_samples as int;
    let all = frames.push(frame);
    lemma_times(f, frames.len() as int, 0);
    assert(all.drop_last() =~= frames);
    lemma_remembers(p, frames);
}

/// While no speech is on, only a frame with speech in it does anything; while speech is
/// on, a frame that is neither speech nor silence does nothing unless the speech has
/// lasted too long.
pub proof fn law_other_frames_do_nothing(p: VadParams, frames: Seq<Frame>, frame: Frame)
    requires
        frame.level != SpeechLevel::Speech,
        speech_on(p, frames) ==> frame.level == SpeechLevel::Between && !frame.too_long,
    ensures
        speech_on(p, frames.push(frame)) == speech_on(p, frames),
        run(initial_state(), p, frames.push(frame)).1 == run(initial_state(), p, frames).1,
{
    assert(frames.push(frame).drop_last() =~= frames);
}

/// While speech is on there is the frame with which it started.
pub proof fn law_speech_has_an_onset(p: VadParams, frames: Seq<Frame>)
    requires
        p.frame_size_samples > 0,
        frames.len() * p.frame_size_samples <= usize::MAX,
        speech_on(p, frames),
    ensures
        exists|i: int| is_onset(p, frames, i),
{
    lemma_remembers(p, frames);
    let s = run(initial_state(), p, frames).0;
    let (i, l) = choose|i: int, l: int| #[trigger] remembers_speech(p, frames, s, i, l);
    assert(is_onset(p, frames, i));
}

/// Silence ends speech only after an unbroken stretch without a frame with speech in it
/// that is as long as the shortest silence that counts; the speech then has ended when
/// the first silent frame after the last with speech was over. It is told if it was
/// longer than the shortest speech that counts. Until then speech stays on and nothing
/// is told.
pub proof fn law_silence_ends_speech(
    p: VadParams,
    frames: Seq<Frame>,
    frame: Frame,
    i: int,
    l: int,
    j: int,
)
    requires
        p.frame_size_samples > 0,
        (frames.len() + 1) * p.frame_size_samples <= usize::MAX,
        frame.level == SpeechLevel::Silence,
        !frame.too_long,
        is_onset(p, frames, i),
        pause_since(frames.push(frame), l, j),
    ensures
        ({
            let f = p.frame_size_samples as int;
            let over = (frames.len() - j) * f >= p.min_silence_samples;
            let told = over && (j + 1 - i) * f > p.min_speech_samples;
            &&& i <= l
            &&& speech_on(p, frames.push(frame)) == !over
            &&& run(initial_state(), p, frames.push(frame)).1 == run(initial_state(), p, frames).1
                + (if told {
                seq![
                    VadEvent::SpeechEnd {
                        start_sample: (i * f) as usize,
                        end_sample: ((j + 1) * f) as usize,
                    },
                ]
            } else {
                seq![]
            })
        }),
{
    let f = p.frame_size_samples as int;
    let all = frames.push(frame);
    let n = frames.len() as int;
    let s = run(initial_state(), p, frames).0;
    assert(all.drop_last() =~= frames);
    assert(frames.take(n) =~= frames);
    lemma_times(f, n, j);
    lemma_times(f, j, i);
    lemma_times(f, j + 1, i);
    lemma_times(f, i, 0);
    lemma_remembers(p, frames);
    let (i2, l2) = choose|i2: int, l2: int| #[trigger] remembers_speech(p, frames, s, i2, l2);
    lemma_onset_unique(p, frames, i, i2);
    if s.temp_end > 0 {
        let j2 = choose|j2: int| #[trigger]
            pause_since(frames, l2, j2) && s.temp_end == (j2 + 1) * f;
        lemma_pause_goes_on(frames, frame, l2, j2);
        lemma_pause_unique(all, l, j, l2, j2);
    } else {
        assert(pause_since(all, l2, n)) by {
            assert forall|k: int| l2 < k < n implies (#[trigger] all[k]).level
                == SpeechLevel::Between by {
                assert(all[k] == frames[k]);
            }
            assert(all[l2] == frames[l2]);
        }
        lemma_pause_unique(all, l, j, l2, n);
    }
    lemma_times(f, j, 0);
    assert((j + 1) * f <= (n + 1) * f) by {
        lemma_times(f, j, n);
    }
}

/// A pause goes on with every frame that has no speech in it.
proof fn lemma_pause_goes_on(frames: Seq<Frame>, frame: Frame, l: int, j: int)
    requires
        pause_since(frames, l, j),
        frame.level != SpeechLevel::Speech,
    ensures
        pause_since(frames.push(frame), l, j),
{
    let all = frames.push(frame);
    assert(all[l] == frames[l]);
    assert(all[j] == frames[j]);
    assert forall|k: int| l < k < all.len() implies (#[trigger] all[k]).level
        != SpeechLevel::Speech by {
        if k < frames.len() {
            assert(all[k] == frames[k]);
        }
    }
    assert forall|k: int| l < k < j implies (#[trigger] all[k]).level != SpeechLevel::Silence by {
        assert(all[k] == frames[k]);
    }
}

/// Speech that has lasted too long ends with the first frame without speech in it: at
/// the start of the last pause in it that was long enough to cut it there.
pub proof fn law_long_speech_is_cut_at_a_pause(
    p: VadParams,
    frames: Seq<Frame>,
    frame: Frame,
    i: int,
    l: int,
    j: int,
    k: int,
)
    requires
        p.frame_size_samples > 0,
        (frames.len() + 1) * p.frame_size_samples <= usize::MAX,
        frame.level != SpeechLevel::Speech,
        frame.too_long,
        is_onset(p, frames, i),
        cut_point(p, frames, l, j, k),
        i <= l,
        forall|l2: int, j2: int, k2: int| k < k2 ==> !#[trigger] cut_point(p, frames, l2, j2, k2),
    ensures
        !speech_on(p, frames.push(frame)),
        run(initial_state(), p, frames.push(frame)).1 == run(initial_state(), p, frames).1 + (if (j
            + 1 - i) * p.frame_size_samples > p.min_speech_samples {
            seq![
                VadEvent::SpeechEnd {
                    start_sample: (i * p.frame_size_samples) as usize,
                    end_sample: ((j + 1) * p.frame_size_samples) as usize,
                },
            ]
        } else {
            seq![]
        }),
{
    let f = p.frame_size_samples as int;
    let all = frames.push(frame);
    let n = frames.len() as int;
    let s = run(initial_state(), p, frames).0;
    assert(all.drop_last() =~= frames);
    assert(frames.take(n) =~= frames);
    lemma_times(f, n, j);
    lemma_times(f, j + 1, i);
    lemma_times(f, i, l);
    lemma_times(f, j, n);
    lemma_remembers(p, frames);
    let (i2, l2) = choose|i2: int, l2: int| #[trigger] remembers_speech(p, frames, s, i2, l2);
    lemma_onset_unique(p, frames, i, i2);
    assert(s.prev_end > 0);
    let (l1, j1, k1) = choose|l1: int, j1: int, k1: int| #[trigger]
        remembers_cut(p, frames, s, l1, j1, k1);
    assert(k1 == k);
    lemma_pause_unique(frames.take(k + 1), l, j, l1, j1);
}

/// Speech that has lasted too long, and has no pause in it that was long enough to cut
/// it there, ends with the frame itself.
pub proof fn law_long_speech_ends(p: VadParams, frames: Seq<Frame>, frame: Frame, i: int)
    requires
        p.frame_size_samples > 0,
        (frames.len() + 1) * p.frame_size_samples <= usize::MAX,
        frame.level != SpeechLevel::Speech,
        frame.too_long,
        is_onset(p, frames, i),
        forall|l: int, j: int, k: int| i <= l ==> !#[trigger] cut_point(p, frames, l, j, k),
    ensures
        !speech_on(p, frames.push(frame)),
        run(initial_state(), p, frames.push(frame)).1 == run(initial_state(), p, frames).1 + (if (
        frames.len() + 1 - i) * p.frame_size_samples > p.min_speech_samples {
            seq![
                VadEvent::SpeechEnd {
                    start_sample: (i * p.frame_size_samples) as usize,
                    end_sample: ((frames.len() + 1) * p.frame_size_samples) as usize,
                },
            ]
        } else {
            seq![]
        }),
{
    let f = p.frame_size_samples as int;
    let all = frames.push(frame);
    let n = frames.len() as int;
    let s = run(initial_state(), p, frames).0;
    assert(all.drop_last() =~= frames);
    assert(frames.take(n) =~= frames);
    lemma_times(f, n, 0);
    lemma_times(f, n + 1, i);
    lemma_times(f, i, n);
    lemma_remembers(p, frames);
    let (i2, l2) = choose|i2: int, l2: int| #[trigger] remembers_speech(p, frames, s, i2, l2);
    lemma_onset_unique(p, frames, i, i2);
    if s.prev_end > 0 {
        let (l1, j1, k1) = choose|l1: int, j1: int, k1: int| #[trigger]
            remembers_cut(p, frames, s, l1, j1, k1);
        if l1 < i {
            lemma_times(f, l1, i);
        }
    }
}

/// A detector's side of a stream of audio: samples are gathered into frames, and
/// the levels of the frames into events.
#[derive(Debug)]
pub struct SileroVadStream {
    params: VadParams,
    state: VadState,
    pending: Vec<i16>,
}

impl SileroVadStream {
    pub closed spec fn params(self) -> VadParams {
        self.params
    }

    pub closed spec fn state(self) -> VadState {
        self.state
    }

    /// The samples that no frame was made of yet.
    pub closed spec fn pending(self) -> Seq<i16> {
        self.pending@
    }

    /// A stream at its start.
    pub fn new(params: VadParams) -> (r: Self)
        ensures
            r.params() == params,
            r.state() == initial_state(),
            r.pending() == Seq::<i16>::empty(),
    {
        SileroVadStream { params, state: VadState::default(), pending: Vec::new() }
    }

    /// Takes in more samples.
    pub fn accept_pcm(&mut self, samples: &[i16])
        ensures
            final(self).pending() == old(self).pending() + samples@,
            final(self).params() == old(self).params(),
            final(self).state() == old(self).state(),
    {
        self.pending.extend_from_slice(samples);
        proof {
            assert(self.pending@ =~= old(self).pending@ + samples@);
        }
    }

    /// The next whole frame, if there is one. Taken until there is none, the frames
    /// and what stays pending are the cut of what was pending.
    pub fn next_frame(&mut self) -> (r: Option<Vec<i16>>)
        ensures
            final(self).params() == old(self).params(),
            final(self).state() == old(self).state(),
            match r {
                Some(frame) => {
                    let n = old(self).params().frame_size_samples as int;
                    &&& old(self).pending().len() >= n
                    &&& frame@ == old(self).pending().take(n)
                    &&& final(self).pending() == old(self).pending().skip(n)
                    &&& n > 0 ==> cut(old(self).pending(), n) == (
                        seq![frame@] + cut(final(self).pending(), n).0,
                        cut(final(self).pending(), n).1,
                    )
                },
                None => old(self).pending().len() < old(self).params().frame_size_samples
                    && final(self).pending() == old(self).pending(),
            },
    {
        let n: usize = self.params.frame_size_samples;
        let len: usize = self.pending.len();
        if len < n {
            return None;
        }
        let frame = vstd::slice::slice_to_vec(
            vstd::slice::slice_subrange(self.pending.as_slice(), 0, n),
        );
        self.pending =
        vstd::slice::slice_to_vec(vstd::slice::slice_subrange(self.pending.as_slice(), n, len));
        proof {
            assert(frame@ =~= old(self).pending@.take(n as int));
            assert(self.pending@ =~= old(self).pending@.skip(n as int));
        }
        Some(frame)
    }

    /// How many samples the speech that is on will have lasted after one more
    /// frame.
    pub fn speech_len(&self) -> (r: usize)
        ensures
            r == past(
                advanced(self.state(), self.params()).current_sample,
                self.state().current_start,
            ),
    {
        self.state.speech_len(&self.params)
    }

    /// Takes in the level of the frame that came out last.
    pub fn frame_level(&mut self, level: SpeechLevel, too_long: bool) -> (r: Option<VadEvent>)
        ensures
            (final(self).state(), r) == updated(
                old(self).state(),
                old(self).params(),
                level,
                too_long,
            ),
            final(self).params() == old(self).params(),
            final(self).pending() == old(self).pending(),
    {
        self.state.update(&self.params, level, too_long)
    }
}

/// The settings: which variables are read, and what stands in for one that is not set. The
/// detector is on unless it is switched off.
pub proof fn law_settings(env: Env, r: Result<Option<SileroVadConfig>, ConfigError>, n: nat)
    requires
        vad_configured(env, r),
    ensures
        ({
            let set = env.var("XIAOZHI_VAD_PROVIDER"@);
            let provider = vad_provider(env);
            &&& set matches Some(x) ==> provider == lowered(x)
            &&& set is None ==> r is Ok && r->Ok_0 is Some
            &&& if means_off(provider) {
                r == Ok::<Option<SileroVadConfig>, ConfigError>(None)
            } else if provider != "silero"@ {
                r matches Err(e) && e.message@ == "unsupported XIAOZHI_VAD_PROVIDER="@ + provider
                    + "; expected silero or none"@
            } else {
                r matches Ok(Some(c)) && {
                    let frame = env.var("XIAOZHI_VAD_FRAME_SIZE_MS"@);
                    let silence = env.var("XIAOZHI_VAD_MIN_SILENCE_MS"@);
                    let pad = env.var("XIAOZHI_VAD_SPEECH_PAD_MS"@);
                    let speech = env.var("XIAOZHI_VAD_MIN_SPEECH_MS"@);
                    let model = env.var("SILERO_VAD_MODEL_PATH"@);
                    &&& c.sample_rate == 16_000
                    &&& model is Some ==> opt_text(c.model_path) == model
                    &&& model is None ==> opt_text(c.model_path) == env.var(
                        "XIAOZHI_VAD_MODEL_PATH"@,
                    )
                    &&& frame is None ==> c.frame_size_ms == 32
                    &&& silence is None ==> c.min_silence_duration_ms == 600
                    &&& pad is None ==> c.speech_pad_ms == 64
                    &&& speech is None ==> c.min_speech_duration_ms == 160
                    &&& n <= usize::MAX ==> {
                        &&& frame == Some(decimal_text(n)) ==> c.frame_size_ms == n
                        &&& silence == Some(decimal_text(n)) ==> c.min_silence_duration_ms == n
                        &&& pad == Some(decimal_text(n)) ==> c.speech_pad_ms == n
                        &&& speech == Some(decimal_text(n)) ==> c.min_speech_duration_ms == n
                    }
                }
            }
        }),
{
    reveal_strlit("silero");
    reveal_strlit("none");
    reveal_strlit("off");
    reveal_strlit("disabled");
    reveal_strlit("false");
    reveal_strlit("0");
    assert(lowered("silero"@) =~= "silero"@);
    assert("silero"@.len() == 6);
    crate::env::law_numbers_are_set(n, usize::MAX as nat, 32);
    crate::env::law_numbers_are_set(n, usize::MAX as nat, 600);
    crate::env::law_numbers_are_set(n, usize::MAX as nat, 64);
    crate::env::law_numbers_are_set(n, usize::MAX as nat, 160);
}

/// The detector runs at 8 or 16 kHz, on frames that are not empty.
pub proof fn law_valid_settings(config: SileroVadConfig)
    ensures
        config.valid() == ((config.sample_rate == 16_000 || config.sample_rate == 8_000)
            && config.frame_size_ms > 0),
{
}

} // verus!
