//! Progress events of one chat request, pushed to a client in order.

use vstd::prelude::*;

verus! {

/// Events emitted during a cortex chat response.
#[derive(Debug, Clone)]
pub enum CortexChatEvent {
    /// The cortex is processing, before the response.
    Thinking,
    /// A tool call started.
    ToolStarted { tool: String },
    /// A tool call completed.
    ToolCompleted { tool: String, result_preview: String },
    /// The full response is ready.
    Done { full_text: String },
    /// An error occurred.
    Error { message: String },
}

impl CortexChatEvent {
    pub open spec fn spec_is_terminal(&self) -> bool {
        self is Done || self is Error
    }

    /// Whether this event ends a request's event sequence.
    #[verifier::when_used_as_spec(spec_is_terminal)]
    pub fn is_terminal(&self) -> (r: bool)
        ensures
            r == self.spec_is_terminal(),
    {
        match self {
            CortexChatEvent::Done { .. } | CortexChatEvent::Error { .. } => true,
            _ => false,
        }
    }
}

/// A request's whole event sequence: it ends in exactly one terminal event.
pub open spec fn well_formed_events(events: Seq<CortexChatEvent>) -> bool {
    &&& events.len() > 0
    &&& events.last().is_terminal()
    &&& forall|i: int| 0 <= i < events.len() - 1 ==> !(#[trigger] events[i]).is_terminal()
}

/// The event that ends a request with the given outcome: `Done` with the
/// response, or `Error` with the failure's text.
pub fn terminal_event(outcome: &Result<String, String>) -> (r: CortexChatEvent)
    ensures
        r.is_terminal(),
        match outcome {
            Ok(text) => r matches CortexChatEvent::Done { full_text } && full_text@ == text@,
            Err(text) => r matches CortexChatEvent::Error { message } && message@ == text@,
        },
{
    match outcome {
        Ok(text) => CortexChatEvent::Done { full_text: text.clone() },
        Err(text) => CortexChatEvent::Error { message: text.clone() },
    }
}

/// Whether `events` is a complete event sequence of one request.
pub fn is_complete_sequence(events: &Vec<CortexChatEvent>) -> (r: bool)
    ensures
        r == well_formed_events(events@),
{
    let n = events.len();
    if n == 0 {
        return false;
    }
    let mut i: usize = 0;
    while i < n - 1
        invariant
            n == events@.len(),
            n > 0,
            i <= n - 1,
            forall|k: int| 0 <= k < i ==> !(#[trigger] events@[k]).is_terminal(),
        decreases n - 1 - i,
    {
        if events[i].is_terminal() {
            return false;
        }
        i = i + 1;
    }
    events[n - 1].is_terminal()
}

} // verus!
