//! The lifecycle events the engine and supervisors emit, their scope keys,
//! and the fan-out of raw stream lines to their session-scoped and global
//! channels.

use vstd::prelude::*;
use vstd::string::StringExecFns;
use crate::json::{JsonVal, JsonView};

verus! {

/// One emitted lifecycle event. Delivery is best-effort and outside the
/// library; the library only decides what is emitted and under which scope.
#[derive(Debug)]
pub enum SubAgentEvent {
    /// A delegation was detected and registered.
    Started {
        session_id: String,
        subagent_id: String,
        tool_id: String,
        description: String,
        prompt: Option<String>,
        subagent_type: Option<String>,
    },
    /// A tracked delegation's result arrived and its record was removed.
    Completed { session_id: String, subagent_id: String, tool_id: String, result: JsonVal },
    /// A liveness status report for a still-tracked delegation.
    Heartbeat { session_id: String, subagent_id: String, message: String },
}

/// The mathematical shape of a [`SubAgentEvent`].
#[verifier::ext_equal]
pub enum EventView {
    Started {
        session_id: Seq<char>,
        subagent_id: Seq<char>,
        tool_id: Seq<char>,
        description: Seq<char>,
        prompt: Option<Seq<char>>,
        subagent_type: Option<Seq<char>>,
    },
    Completed { session_id: Seq<char>, subagent_id: Seq<char>, tool_id: Seq<char>, result: JsonView },
    Heartbeat { session_id: Seq<char>, subagent_id: Seq<char>, message: Seq<char> },
}

impl DeepView for SubAgentEvent {
    type V = EventView;

    open spec fn deep_view(&self) -> EventView {
        match self {
            SubAgentEvent::Started {
                session_id,
                subagent_id,
                tool_id,
                description,
                prompt,
                subagent_type,
            } => EventView::Started {
                session_id: session_id@,
                subagent_id: subagent_id@,
                tool_id: tool_id@,
                description: description@,
                prompt: prompt.deep_view(),
                subagent_type: subagent_type.deep_view(),
            },
            SubAgentEvent::Completed { session_id, subagent_id, tool_id, result } => EventView::Completed {
                session_id: session_id@,
                subagent_id: subagent_id@,
                tool_id: tool_id@,
                result: result.deep_view(),
            },
            SubAgentEvent::Heartbeat { session_id, subagent_id, message } => EventView::Heartbeat {
                session_id: session_id@,
                subagent_id: subagent_id@,
                message: message@,
            },
        }
    }
}

/// The session-scoped channel an event is published under.
pub open spec fn scope_of(e: EventView) -> Seq<char> {
    match e {
        EventView::Started { session_id, .. } => "started:"@ + session_id,
        EventView::Completed { session_id, .. } => "complete:"@ + session_id,
        EventView::Heartbeat { session_id, .. } => "output:"@ + session_id,
    }
}

impl SubAgentEvent {
    /// Builds this event's session-scoped channel key.
    pub fn scope_key(&self) -> (r: String)
        ensures
            r@ == scope_of(self.deep_view()),
    {
        match self {
            SubAgentEvent::Started { session_id, .. } => {
                let mut s: String = "started:".to_owned();
                s.append(session_id.as_str());
                s
            },
            SubAgentEvent::Completed { session_id, .. } => {
                let mut s: String = "complete:".to_owned();
                s.append(session_id.as_str());
                s
            },
            SubAgentEvent::Heartbeat { session_id, .. } => {
                let mut s: String = "output:".to_owned();
                s.append(session_id.as_str());
                s
            },
        }
    }
}

/// The channels one raw stream line is forwarded to: the session-scoped
/// channel first, then the global channel, each carrying the line unchanged.
pub open spec fn raw_emissions_spec(session_id: Seq<char>, line: Seq<char>, is_error: bool) -> Seq<
    (Seq<char>, Seq<char>),
> {
    if is_error {
        seq![("error:"@ + session_id, line), ("error"@, line)]
    } else {
        seq![("output:"@ + session_id, line), ("output"@, line)]
    }
}

/// Fans one raw line of the primary output or error stream out to its
/// session-scoped channel and the global channel, in that order.
pub fn raw_line_emissions(session_id: &str, line: &str, is_error: bool) -> (r: Vec<(String, String)>)
    ensures
        r.deep_view() == raw_emissions_spec(session_id@, line@, is_error),
{
    let mut out: Vec<(String, String)> = Vec::new();
    let mut scoped: String = if is_error {
        "error:".to_owned()
    } else {
        "output:".to_owned()
    };
    scoped.append(session_id);
    out.push((scoped, line.to_owned()));
    let global: String = if is_error {
        "error".to_owned()
    } else {
        "output".to_owned()
    };
    out.push((global, line.to_owned()));
    proof {
        assert(out.deep_view() =~= raw_emissions_spec(session_id@, line@, is_error));
    }
    out
}

} // verus!
