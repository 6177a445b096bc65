//! Rendering of a channel's recent timeline into prose for the system prompt.

use vstd::prelude::*;

verus! {

/// The number of most recent timeline items read from a channel.
pub const TRANSCRIPT_ITEM_LIMIT: i64 = 50;

/// One item of a channel's timeline.
#[derive(Debug, Clone)]
pub enum TimelineItem {
    /// A message, by its sender's display name where known.
    Message { role: String, content: String, sender_name: Option<String> },
    /// A branch run, with its conclusion once it has one.
    BranchRun { description: String, conclusion: Option<String> },
    /// A worker run, with its result once it has one.
    WorkerRun { task: String, result: Option<String> },
}

/// The text of one item: a message always, a run only once it has an outcome.
pub open spec fn item_text(item: TimelineItem) -> Seq<char> {
    match item {
        TimelineItem::Message { role, content, sender_name } => {
            let name = match sender_name {
                Some(n) => n@,
                None => role@,
            };
            "**"@ + name + "**: "@ + content@ + "\n\n"@
        },
        TimelineItem::BranchRun { description, conclusion } => match conclusion {
            Some(c) => "*[Branch: "@ + description@ + "]*: "@ + c@ + "\n\n"@,
            None => Seq::empty(),
        },
        TimelineItem::WorkerRun { task, result } => match result {
            Some(r) => "*[Worker: "@ + task@ + "]*: "@ + r@ + "\n\n"@,
            None => Seq::empty(),
        },
    }
}

/// The texts of `items`, in order, run together.
pub open spec fn transcript_text(items: Seq<TimelineItem>) -> Seq<char>
    decreases items.len(),
{
    if items.len() == 0 {
        Seq::empty()
    } else {
        transcript_text(items.drop_last()) + item_text(items.last())
    }
}

fn push_item(transcript: &mut String, item: &TimelineItem)
    ensures
        final(transcript)@ == old(transcript)@ + item_text(*item),
{
    match item {
        TimelineItem::Message { role, content, sender_name } => {
            transcript.append("**");
            match sender_name {
                Some(n) => transcript.append(n.as_str()),
                None => transcript.append(role.as_str()),
            }
            transcript.append("**: ");
            transcript.append(content.as_str());
            transcript.append("\n\n");
        },
        TimelineItem::BranchRun { description, conclusion } => {
            if let Some(c) = conclusion {
                transcript.append("*[Branch: ");
                transcript.append(description.as_str());
                transcript.append("]*: ");
                transcript.append(c.as_str());
                transcript.append("\n\n");
            }
        },
        TimelineItem::WorkerRun { task, result } => {
            if let Some(r) = result {
                transcript.append("*[Worker: ");
                transcript.append(task.as_str());
                transcript.append("]*: ");
                transcript.append(r.as_str());
                transcript.append("\n\n");
            }
        },
    }
    assert(final(transcript)@ =~= old(transcript)@ + item_text(*item));
}

/// The transcript of `items`, or `None` where it would be empty: no items, or
/// only runs that have no outcome yet.
pub fn render_channel_transcript(items: &Vec<TimelineItem>) -> (r: Option<String>)
    ensures
        r is None <==> transcript_text(items@).len() == 0,
        r matches Some(t) ==> t@ == transcript_text(items@),
{
    let mut transcript = String::new();
    let n = items.len();
    let mut i: usize = 0;
    while i < n
        invariant
            n == items@.len(),
            i <= n,
            transcript@ == transcript_text(items@.take(i as int)),
        decreases n - i,
    {
        assert(items@.take(i as int + 1).drop_last() =~= items@.take(i as int));
        push_item(&mut transcript, &items[i]);
        i = i + 1;
    }
    assert(items@.take(n as int) =~= items@);
    if transcript.as_str().unicode_len() == 0 {
        None
    } else {
        Some(transcript)
    }
}

/// The transcript for the system prompt from what the timeline service gave:
/// nothing where the service failed, since grounding is best effort.
pub fn load_channel_transcript(fetched: &Result<Vec<TimelineItem>, String>) -> (r: Option<String>)
    ensures
        fetched is Err ==> r is None,
        fetched matches Ok(items) ==> {
            &&& (r is None <==> transcript_text(items@).len() == 0)
            &&& (r matches Some(t) ==> t@ == transcript_text(items@))
        },
{
    match fetched {
        Ok(items) => render_channel_transcript(items),
        Err(_) => None,
    }
}

} // verus!
