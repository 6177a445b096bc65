//! The steps of one cortex chat request. The caller holds the session's lock
//! for the whole request: it calls `begin_request`, builds the system prompt,
//! asks the completion engine, and hands its outcome to `finish_request`.

use crate::message::{opt_str_view, CortexChatMessage};
use crate::store::{
    last_n, row_holds, stamp, thread_rows, ChatMessageRow, CortexChatStore, StoreError,
    MAX_TIMESTAMP,
};
use vstd::prelude::*;

verus! {

/// The number of most recent turns of a thread read for one request.
pub const HISTORY_LIMIT: i64 = 100;

/// The most reasoning turns the completion engine may take for one request.
pub const MAX_TURNS: usize = 50;

/// A prior turn as the completion engine receives it.
#[derive(Debug, Clone, PartialEq, Eq)]
pub enum ChatTurn {
    User(String),
    Assistant(String),
}

impl View for ChatTurn {
    /// Whether the operator wrote the turn, and its text.
    type V = (bool, Seq<char>);

    open spec fn view(&self) -> (bool, Seq<char>) {
        match self {
            ChatTurn::User(text) => (true, text@),
            ChatTurn::Assistant(text) => (false, text@),
        }
    }
}

/// Why a request failed.
#[derive(Debug, Clone)]
pub enum SendError {
    /// A turn could not be written.
    Storage(StoreError),
    /// The completion engine failed; the text was saved as the assistant's turn.
    Completion(String),
}

/// Role and content of each message.
pub open spec fn message_pairs(msgs: Seq<CortexChatMessage>) -> Seq<(Seq<char>, Seq<char>)> {
    msgs.map_values(|m: CortexChatMessage| (m.role@, m.content@))
}

/// Role and content of each row.
pub open spec fn row_pairs(rows: Seq<ChatMessageRow>) -> Seq<(Seq<char>, Seq<char>)> {
    rows.map_values(|m: ChatMessageRow| (m.role@, m.content@))
}

/// The turns the completion engine sees for turns given by role and content:
/// user and assistant turns in order, turns of any other role left out.
pub open spec fn turns_of(pairs: Seq<(Seq<char>, Seq<char>)>) -> Seq<(bool, Seq<char>)>
    decreases pairs.len(),
{
    if pairs.len() == 0 {
        Seq::empty()
    } else {
        let init = turns_of(pairs.drop_last());
        let (role, content) = pairs.last();
        if role == "user"@ {
            init.push((true, content))
        } else if role == "assistant"@ {
            init.push((false, content))
        } else {
            init
        }
    }
}

/// All but the last item of `s`.
pub open spec fn all_but_last<A>(s: Seq<A>) -> Seq<A> {
    if s.len() == 0 {
        s
    } else {
        s.drop_last()
    }
}

/// The views of `turns`.
pub open spec fn turn_views(turns: Seq<ChatTurn>) -> Seq<(bool, Seq<char>)> {
    turns.map_values(|t: ChatTurn| t@)
}

/// The prior turns for the completion engine from a thread's history, whose
/// last message is the inbound one and is left out.
pub fn history_turns(chat_messages: &Vec<CortexChatMessage>) -> (r: Vec<ChatTurn>)
    ensures
        turn_views(r@) == turns_of(message_pairs(all_but_last(chat_messages@))),
{
    let n = chat_messages.len();
    let end: usize = if n == 0 { 0 } else { n - 1 };
    let ghost msgs = all_but_last(chat_messages@);
    let user = "user".to_owned();
    let assistant = "assistant".to_owned();
    let mut history: Vec<ChatTurn> = Vec::new();
    let mut i: usize = 0;
    while i < end
        invariant
            n == chat_messages@.len(),
            end == msgs.len(),
            msgs == all_but_last(chat_messages@),
            i <= end,
            user@ == "user"@,
            assistant@ == "assistant"@,
            turn_views(history@) == turns_of(message_pairs(msgs.take(i as int))),
        decreases end - i,
    {
        let message = &chat_messages[i];
        assert(message == msgs[i as int]);
        assert(message_pairs(msgs.take(i as int + 1)).drop_last() =~= message_pairs(msgs.take(i as int)));
        assert(message_pairs(msgs.take(i as int + 1)).last() == (message.role@, message.content@));
        if message.role == user {
            history.push(ChatTurn::User(message.content.clone()));
        } else if message.role == assistant {
            history.push(ChatTurn::Assistant(message.content.clone()));
        }
        assert(turn_views(history@) =~= turns_of(message_pairs(msgs.take(i as int + 1))));
        i = i + 1;
    }
    assert(msgs.take(end as int) =~= msgs);
    history
}

/// Where `after` is `before` with `x` appended, and `x` belongs to thread `t`,
/// the thread's rows gain `x` at their end.
proof fn lemma_thread_rows_push(before: Seq<ChatMessageRow>, x: ChatMessageRow, t: Seq<char>)
    requires
        x.thread_id@ == t,
    ensures
        thread_rows(before.push(x), t) == thread_rows(before, t).push(x),
{
    assert(before.push(x).drop_last() =~= before);
}

/// Dropping the last item of the last `n + 1` items of `s.push(x)` leaves the
/// last `n` items of `s`.
proof fn lemma_window_drop_last<A>(s: Seq<A>, x: A, n: int)
    requires
        n >= 0,
    ensures
        all_but_last(last_n(s.push(x), n + 1)) == last_n(s, n),
{
    let w = last_n(s.push(x), n + 1);
    if n + 1 >= s.len() + 1 {
        assert(all_but_last(w) =~= s);
    } else {
        assert(all_but_last(w) =~= s.subrange(s.len() - n, s.len() as int));
    }
}

/// Opens a request: saves the operator's turn on the thread, then returns the
/// thread's prior turns for the completion engine, at most `HISTORY_LIMIT - 1`
/// of the most recent, oldest first, without the turn just saved. Where the
/// save is refused the store is left as it was and nothing else happens.
pub fn begin_request(
    store: &mut CortexChatStore,
    thread_id: &str,
    user_text: &str,
    channel_context_id: Option<&str>,
    now: i64,
) -> (r: Result<Vec<ChatTurn>, StoreError>)
    requires
        old(store).wf(),
    ensures
        final(store).wf(),
        r is Ok <==> 0 <= stamp(old(store)@, now) <= MAX_TIMESTAMP,
        r matches Err(e) ==> final(store)@ == old(store)@ && e == StoreError::TimestampOutOfRange,
        r matches Ok(history) ==> {
            &&& final(store)@ == old(store)@.push(final(store)@.last())
            &&& row_holds(
                final(store)@.last(),
                final(store)@.last().id@,
                thread_id@,
                "user"@,
                user_text@,
                opt_str_view(channel_context_id),
                stamp(old(store)@, now),
            )
            &&& turn_views(history@) == turns_of(
                row_pairs(last_n(thread_rows(old(store)@, thread_id@), HISTORY_LIMIT - 1)),
            )
        },
{
    let ghost before = store@;
    match store.save_message(thread_id, "user", user_text, channel_context_id, now) {
        Err(e) => Err(e),
        Ok(_) => {
            let chat_messages = store.load_history(thread_id, HISTORY_LIMIT);
            let history = history_turns(&chat_messages);
            proof {
                let x = store@.last();
                lemma_thread_rows_push(before, x, thread_id@);
                let window = last_n(thread_rows(store@, thread_id@), HISTORY_LIMIT as int);
                assert(message_pairs(chat_messages@) =~= row_pairs(window));
                lemma_window_drop_last(thread_rows(before, thread_id@), x, HISTORY_LIMIT - 1);
                assert(message_pairs(all_but_last(chat_messages@)) =~= row_pairs(all_but_last(window)));
            }
            Ok(history)
        },
    }
}

/// The text saved and returned when the completion engine fails.
pub open spec fn error_text_of(error: Seq<char>) -> Seq<char> {
    "Cortex chat error: "@ + error
}

pub fn error_text(error: &str) -> (r: String)
    ensures
        r@ == error_text_of(error@),
{
    let mut text = "Cortex chat error: ".to_owned();
    text.append(error);
    text
}

/// The assistant's turn that ends a request with the given outcome.
pub open spec fn reply_text(outcome: Result<String, String>) -> Seq<char> {
    match outcome {
        Ok(response) => response@,
        Err(error) => error_text_of(error@),
    }
}

/// Closes a request with the completion engine's outcome: saves the response,
/// or the failure's text, as the assistant's turn on the thread; then returns
/// the response, or the failure with that same text. Where the save is refused
/// the store is left as it was and the storage error is returned.
pub fn finish_request(
    store: &mut CortexChatStore,
    thread_id: &str,
    channel_context_id: Option<&str>,
    outcome: Result<String, String>,
    now: i64,
) -> (r: Result<String, SendError>)
    requires
        old(store).wf(),
    ensures
        final(store).wf(),
        !(0 <= stamp(old(store)@, now) <= MAX_TIMESTAMP) ==> {
            &&& final(store)@ == old(store)@
            &&& r matches Err(SendError::Storage(e)) && e == StoreError::TimestampOutOfRange
        },
        0 <= stamp(old(store)@, now) <= MAX_TIMESTAMP ==> {
            &&& final(store)@ == old(store)@.push(final(store)@.last())
            &&& row_holds(
                final(store)@.last(),
                final(store)@.last().id@,
                thread_id@,
                "assistant"@,
                reply_text(outcome),
                opt_str_view(channel_context_id),
                stamp(old(store)@, now),
            )
            &&& match outcome {
                Ok(response) => r matches Ok(text) && text@ == response@,
                Err(_) => r matches Err(SendError::Completion(text)) && text@ == reply_text(outcome),
            }
        },
{
    match outcome {
        Ok(response) => {
            match store.save_message(thread_id, "assistant", response.as_str(), channel_context_id, now) {
                Ok(_) => Ok(response),
                Err(e) => Err(SendError::Storage(e)),
            }
        },
        Err(error) => {
            let text = error_text(error.as_str());
            match store.save_message(thread_id, "assistant", text.as_str(), channel_context_id, now) {
                Ok(_) => Err(SendError::Completion(text)),
                Err(e) => Err(SendError::Storage(e)),
            }
        },
    }
}

/// `after` is `before` with one row of role `role` appended.
pub open spec fn appended_turn(before: Seq<ChatMessageRow>, after: Seq<ChatMessageRow>, role: Seq<char>) -> bool {
    &&& after == before.push(after.last())
    &&& after.last().role@ == role
}

/// Two requests on one store do not interleave their writes: where a first
/// request writes its operator and assistant turns and then a second request
/// writes its own, as `begin_request` and `finish_request` do on success, the
/// log ends with the first request's two turns followed by the second's.
pub proof fn lemma_requests_do_not_interleave(
    s0: Seq<ChatMessageRow>,
    s1: Seq<ChatMessageRow>,
    s2: Seq<ChatMessageRow>,
    s3: Seq<ChatMessageRow>,
    s4: Seq<ChatMessageRow>,
)
    requires
        appended_turn(s0, s1, "user"@),
        appended_turn(s1, s2, "assistant"@),
        appended_turn(s2, s3, "user"@),
        appended_turn(s3, s4, "assistant"@),
    ensures
        s4 == s0 + seq![s1.last(), s2.last(), s3.last(), s4.last()],
        s4[s0.len() as int].role@ == "user"@,
        s4[s0.len() + 1int].role@ == "assistant"@,
        s4[s0.len() + 2int].role@ == "user"@,
        s4[s0.len() + 3int].role@ == "assistant"@,
{
    assert(s4 =~= s0 + seq![s1.last(), s2.last(), s3.last(), s4.last()]);
}

} // verus!
