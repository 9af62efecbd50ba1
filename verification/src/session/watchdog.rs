//! Saying goodbye to a device that has fallen silent.
use crate::buf::{bytes_clone, bytes_content, bytes_from_vec};
use crate::ids::new_probe;
use crate::session::{next_id, Session, SessionState};
use bytes::Bytes;
use vstd::prelude::*;

verus! {

/// How often a session is looked at, in seconds.
pub const WATCH_INTERVAL_SECS: u64 = 5;

/// How long a ping may go unanswered, in seconds.
pub const WEBSOCKET_PROBE_TIMEOUT_SECS: u64 = 2;

/// No voice was heard for a while, nobody listens, no conversation is in flight,
/// and it was not decided to close yet.
pub open spec fn idle(s: Session, now: u64, threshold_ms: u64) -> bool {
    &&& !s.close_after_chat
    &&& !s.listening
    &&& s.pipeline is None
    &&& match s.last_voice_ms {
        Some(then) => (if now >= then {
            now - then
        } else {
            0
        }) >= threshold_ms,
        None => false,
    }
}

/// The goodbye is decided: the session will close after it, its clock starts anew,
/// and a pipeline is started for it.
pub open spec fn goodbye_claimed(s: Session, now: u64) -> Session {
    Session {
        close_after_chat: true,
        last_voice_ms: Some(now),
        pipeline: Some(s.next_pipeline),
        next_pipeline: next_id(s.next_pipeline),
        ..s
    }
}

/// What the watchdog is to do after its session was looked at again.
#[derive(Debug, Clone, Copy, PartialEq, Eq, Structural)]
pub enum WatchAction {
    /// Go on watching.
    Wait,
    /// The device does not answer: end the session without a goodbye.
    Shutdown,
    /// Say goodbye in a pipeline of this number.
    Goodbye { id: u64 },
}

/// What a ping that was or was not answered leads to.
pub open spec fn watched(s: Session, alive: bool, now: u64, threshold_ms: u64) -> (
    Session,
    WatchAction,
) {
    if !alive {
        (s, WatchAction::Shutdown)
    } else if idle(s, now, threshold_ms) {
        (goodbye_claimed(s, now), WatchAction::Goodbye { id: s.next_pipeline })
    } else {
        (s, WatchAction::Wait)
    }
}

impl SessionState {
    /// Whether the device has been idle for long enough to be asked whether it is
    /// still there.
    pub fn is_idle(&self, now: u64, threshold_ms: u64) -> (r: bool)
        ensures
            r == idle(self@, now, threshold_ms),
    {
        if self.close_after_chat || self.listening || self.pipeline.is_some() {
            return false;
        }
        match self.last_voice_ms {
            Some(then) => now.saturating_sub(then) >= threshold_ms,
            None => false,
        }
    }

    /// Decides, once the device was asked, what becomes of a session that was idle.
    /// The device may have been heard in the meantime.
    pub fn after_probe(&mut self, alive: bool, now: u64, threshold_ms: u64) -> (r: WatchAction)
        ensures
            (final(self)@, r) == watched(old(self)@, alive, now, threshold_ms),
            old(self).wf() ==> final(self).wf(),
    {
        if !alive {
            return WatchAction::Shutdown;
        }
        if !self.is_idle(now, threshold_ms) {
            return WatchAction::Wait;
        }
        let id: u64 = self.next_pipeline;
        self.close_after_chat = true;
        self.last_voice_ms = Some(now);
        self.pipeline = Some(id);
        self.next_pipeline = if id == u64::MAX {
            0
        } else {
            id + 1
        };
        WatchAction::Goodbye { id }
    }

    /// Remembers a ping with this payload, and gives the ping to send. `None` says
    /// that one is already on its way, and the device counts as alive.
    pub fn begin_probe(&mut self, payload: Vec<u8>) -> (r: Option<Bytes>)
        ensures
            match r {
                Some(ping) => {
                    &&& old(self)@.ws_probe is None
                    &&& bytes_content(ping) == payload@
                    &&& final(self)@ == (Session { ws_probe: Some(payload@), ..old(self)@ })
                },
                None => old(self)@.ws_probe is Some && final(self)@ == old(self)@,
            },
            old(self).wf() ==> final(self).wf(),
    {
        if self.ws_probe.is_some() {
            return None;
        }
        let ping = bytes_from_vec(payload);
        self.ws_probe = Some(bytes_clone(&ping));
        Some(ping)
    }

    /// Remembers a fresh ping, and gives it.
    pub fn probe_websocket_alive(&mut self) -> (r: Option<Bytes>)
        ensures
            match r {
                Some(ping) => {
                    &&& old(self)@.ws_probe is None
                    &&& bytes_content(ping).len() == 16
                    &&& bytes_content(ping)[6] / 16 == 4
                    &&& bytes_content(ping)[8] / 64 == 2
                    &&& final(self)@ == (Session {
                        ws_probe: Some(bytes_content(ping)),
                        ..old(self)@
                    })
                },
                None => old(self)@.ws_probe is Some && final(self)@ == old(self)@,
            },
            old(self).wf() ==> final(self).wf(),
    {
        self.begin_probe(new_probe())
    }

    /// The ping could not be sent, or was not answered in time.
    pub fn probe_failed(&mut self)
        ensures
            final(self)@ == (Session { ws_probe: None, ..old(self)@ }),
            old(self).wf() ==> final(self).wf(),
    {
        self.ws_probe = None;
    }
}

/// Goodbye is said once: after it was decided, the session is not idle again until
/// it closes.
pub proof fn law_goodbye_once(s: Session, now: u64, later: u64, threshold_ms: u64)
    ensures
        !idle(goodbye_claimed(s, now), later, threshold_ms),
{
}

/// The answer to a ping is recognized, and no other is: a ping that was sent is
/// still waited for after a foreign answer.
pub proof fn law_probe_roundtrip(s: Session, payload: Seq<u8>, other: Seq<u8>)
    requires
        s.ws_probe is None,
        other != payload,
    ensures
        ({
            let sent = Session { ws_probe: Some(payload), ..s };
            &&& crate::session::probe_completed(sent, payload) == (s, true)
            &&& crate::session::probe_completed(sent, other) == (sent, false)
        }),
{
}

/// A device that was heard less than the threshold ago is never sent away.
pub proof fn law_no_goodbye_while_heard(s: Session, heard: u64, now: u64, threshold_ms: u64)
    requires
        s.last_voice_ms == Some(heard),
        heard <= now < heard + threshold_ms,
    ensures
        !idle(s, now, threshold_ms),
        watched(s, true, now, threshold_ms).1 == WatchAction::Wait,
{
}

/// A device that does nothing, and was last heard at least the threshold ago, is told
/// goodbye if it answers: the session is to close, its clock starts anew, and the goodbye
/// is a conversation of its own. One that does not answer is dropped.
pub proof fn law_idle_devices_are_told_goodbye(
    s: Session,
    heard: u64,
    now: u64,
    threshold_ms: u64,
)
    requires
        !s.close_after_chat,
        !s.listening,
        s.pipeline is None,
        s.last_voice_ms == Some(heard),
        heard + threshold_ms <= now,
    ensures
        idle(s, now, threshold_ms),
        watched(s, true, now, threshold_ms).1 == (WatchAction::Goodbye { id: s.next_pipeline }),
        ({
            let t = watched(s, true, now, threshold_ms).0;
            &&& t.close_after_chat && t.last_voice_ms == Some(now)
            &&& t.pipeline == Some(s.next_pipeline)
            &&& t.next_pipeline == (if s.next_pipeline < u64::MAX {
                s.next_pipeline + 1
            } else {
                0
            })
            &&& t == (Session {
                close_after_chat: true,
                last_voice_ms: Some(now),
                pipeline: t.pipeline,
                next_pipeline: t.next_pipeline,
                ..s
            })
        }),
        watched(s, false, now, threshold_ms) == (s, WatchAction::Shutdown),
{
}

/// A device that listens, talks or is about to be sent away is not idle, and is left
/// alone if it answers.
pub proof fn law_busy_devices_are_left_alone(s: Session, now: u64, threshold_ms: u64)
    requires
        s.close_after_chat || s.listening || s.pipeline is Some || s.last_voice_ms is None,
    ensures
        !idle(s, now, threshold_ms),
        watched(s, true, now, threshold_ms) == (s, WatchAction::Wait),
{
}

/// A device that was heard later than now counts as heard now: it is idle only where no
/// time has to pass.
pub proof fn law_clocks_may_disagree(s: Session, heard: u64, now: u64, threshold_ms: u64)
    requires
        !s.close_after_chat,
        !s.listening,
        s.pipeline is None,
        s.last_voice_ms == Some(heard),
        now < heard,
    ensures
        idle(s, now, threshold_ms) == (threshold_ms == 0),
{
}

} // verus!
