//! The slots of the cortex chat system prompt, as handed to the template engine.

use vstd::prelude::*;

verus! {

/// The values the template engine renders into the system prompt.
#[derive(Debug, Clone)]
pub struct CortexChatPromptSlots {
    pub identity_context: Option<String>,
    pub memory_bulletin: Option<String>,
    pub channel_transcript: Option<String>,
    pub worker_capabilities: String,
}

/// A text slot as the template sees it: absent where the text is empty.
pub open spec fn slot_of(s: String) -> Option<String> {
    if s@.len() == 0 {
        None
    } else {
        Some(s)
    }
}

pub fn empty_to_none(s: String) -> (r: Option<String>)
    ensures
        r == slot_of(s),
{
    if s.as_str().unicode_len() == 0 {
        None
    } else {
        Some(s)
    }
}

/// The capabilities the template describes to the cortex.
#[derive(Clone, Copy, PartialEq, Eq, Structural, Debug)]
pub struct WorkerCapabilities {
    pub browser_enabled: bool,
    pub web_search_enabled: bool,
    pub opencode_enabled: bool,
}

impl WorkerCapabilities {
    /// The capabilities from the live settings: web search is enabled exactly
    /// where a search key is configured.
    pub fn from_settings(
        browser_enabled: bool,
        search_key: &Option<String>,
        opencode_enabled: bool,
    ) -> (r: Self)
        ensures
            r.browser_enabled == browser_enabled,
            r.web_search_enabled == search_key is Some,
            r.opencode_enabled == opencode_enabled,
    {
        WorkerCapabilities {
            browser_enabled,
            web_search_enabled: search_key.is_some(),
            opencode_enabled,
        }
    }
}

/// The prompt's slots: an empty identity or memory summary becomes absent, the
/// other values pass as they are.
pub fn build_prompt_slots(
    identity_context: String,
    memory_bulletin: String,
    channel_transcript: Option<String>,
    worker_capabilities: String,
) -> (r: CortexChatPromptSlots)
    ensures
        r.identity_context == slot_of(identity_context),
        r.memory_bulletin == slot_of(memory_bulletin),
        r.channel_transcript == channel_transcript,
        r.worker_capabilities == worker_capabilities,
        r.identity_context matches Some(s) ==> s@.len() > 0,
        r.memory_bulletin matches Some(s) ==> s@.len() > 0,
{
    CortexChatPromptSlots {
        identity_context: empty_to_none(identity_context),
        memory_bulletin: empty_to_none(memory_bulletin),
        channel_transcript,
        worker_capabilities,
    }
}

} // verus!
