//! The output-capture supervisor: one per registered delegation. It observes
//! the registry on a fixed tick interval and reports liveness until its
//! record disappears or a hard tick cap elapses. It is a liveness-heartbeat
//! placeholder and never attaches to a genuine process.

use vstd::prelude::*;
use vstd::string::StringExecFns;
use crate::events::{EventView, SubAgentEvent};
use crate::strutil::dec_spec;

verus! {

/// Seconds between two supervisor ticks.
pub const TICK_SECONDS: u64 = 2;

/// The hard cap: after this many ticks with the record still present, a
/// supervisor force-stops, silently.
pub const MAX_TICKS: u64 = 30;

/// The per-delegation supervisor state: whose session and record it watches
/// and how many ticks have elapsed.
#[derive(Debug)]
pub struct OutputSupervisor {
    pub session_id: String,
    pub subagent_id: String,
    pub ticks: u64,
}

/// The mathematical shape of an [`OutputSupervisor`].
#[verifier::ext_equal]
pub struct SupervisorView {
    pub session_id: Seq<char>,
    pub subagent_id: Seq<char>,
    pub ticks: u64,
}

impl DeepView for OutputSupervisor {
    type V = SupervisorView;

    open spec fn deep_view(&self) -> SupervisorView {
        SupervisorView {
            session_id: self.session_id@,
            subagent_id: self.subagent_id@,
            ticks: self.ticks,
        }
    }
}

/// What one tick does: the successor state, the heartbeat emitted (if any),
/// and whether the supervisor keeps running.
#[verifier::ext_equal]
pub struct TickOutcome {
    pub state: SupervisorView,
    pub heartbeat: Option<EventView>,
    pub running: bool,
}

/// The heartbeat status text for an elapsed number of seconds.
pub open spec fn heartbeat_message_spec(secs: int) -> Seq<char> {
    "Sub-agent working... ("@ + dec_spec(secs) + "s)"@
}

/// The supervisor's tick relation. An absent record stops the supervisor at
/// once, with no heartbeat. A present record up to the tick cap yields a
/// heartbeat carrying the elapsed seconds; the supervisor keeps running only
/// while the cap has not been reached, and stops silently at the cap.
pub open spec fn tick_model(s: SupervisorView, present: bool) -> TickOutcome {
    if !present {
        TickOutcome { state: s, heartbeat: None, running: false }
    } else if s.ticks <= MAX_TICKS {
        TickOutcome {
            state: SupervisorView { ticks: (s.ticks + 1) as u64, ..s },
            heartbeat: Some(
                EventView::Heartbeat {
                    session_id: s.session_id,
                    subagent_id: s.subagent_id,
                    message: heartbeat_message_spec(TICK_SECONDS as int * s.ticks as int),
                },
            ),
            running: s.ticks < MAX_TICKS,
        }
    } else {
        TickOutcome { state: s, heartbeat: None, running: false }
    }
}

impl OutputSupervisor {
    /// A fresh supervisor for one registered delegation, at tick zero.
    pub fn new(session_id: String, subagent_id: String) -> (r: Self)
        ensures
            r.deep_view() == (SupervisorView {
                session_id: session_id@,
                subagent_id: subagent_id@,
                ticks: 0,
            }),
    {
        OutputSupervisor { session_id, subagent_id, ticks: 0 }
    }

    /// One tick: `present` says whether this supervisor's record is still in
    /// the registry. Returns the heartbeat to emit, if any, and whether the
    /// caller should keep ticking.
    pub fn on_tick(&mut self, present: bool) -> (r: (Option<SubAgentEvent>, bool))
        ensures
            ({
                let out = tick_model(old(self).deep_view(), present);
                &&& final(self).deep_view() == out.state
                &&& r.0.deep_view() == out.heartbeat
                &&& r.1 == out.running
            }),
    {
        if !present {
            (None, false)
        } else if self.ticks <= MAX_TICKS {
            let mut message: String = "Sub-agent working... (".to_owned();
            let secs = crate::strutil::u64_to_string(TICK_SECONDS * self.ticks);
            message.append(secs.as_str());
            message.append("s)");
            let event = SubAgentEvent::Heartbeat {
                session_id: self.session_id.clone(),
                subagent_id: self.subagent_id.clone(),
                message,
            };
            let before = self.ticks;
            self.ticks = before + 1;
            (Some(event), before < MAX_TICKS)
        } else {
            (None, false)
        }
    }
}

/// The supervisor state after a run of ticks that all found the record
/// present.
pub open spec fn state_after(s0: SupervisorView, n: nat) -> SupervisorView
    decreases n,
{
    if n == 0 {
        s0
    } else {
        tick_model(state_after(s0, (n - 1) as nat), true).state
    }
}

/// A supervisor whose record has been removed stops on its very next tick:
/// it emits no heartbeat, reports itself stopped, and does not change state.
pub proof fn lemma_supervisor_stops_when_removed(s: SupervisorView)
    ensures
        !tick_model(s, false).running,
        tick_model(s, false).heartbeat is None,
        tick_model(s, false).state == s,
{
}

/// Even if its record is never removed, a fresh supervisor emits a heartbeat
/// only on ticks zero through the cap, reports itself stopped from the tick
/// that reaches the cap on, and its tick counter never passes one past the
/// cap.
pub proof fn lemma_supervisor_force_stop(s0: SupervisorView, k: nat)
    requires
        s0.ticks == 0,
    ensures
        state_after(s0, k).ticks == if k <= MAX_TICKS + 1 {
            k as int
        } else {
            MAX_TICKS + 1
        },
        tick_model(state_after(s0, k), true).heartbeat is Some <==> k <= MAX_TICKS,
        tick_model(state_after(s0, k), true).running <==> k < MAX_TICKS,
    decreases k,
{
    if k > 0 {
        lemma_supervisor_force_stop(s0, (k - 1) as nat);
    }
}

} // verus!
