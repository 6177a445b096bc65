//! The message store: an append-only log of chat turns, grouped into threads by
//! `thread_id`. A thread is the projection of the log on its identifier; it has
//! no entry of its own. Timestamps never decrease along the log, so the log's
//! order is the order of `created_at`, ties broken by insertion.

use crate::message::{copy_opt, opt_str_view, opt_view, own_opt, CortexChatMessage};
use crate::outside::{format_timestamp, fresh_id, rfc3339_of};
use vstd::prelude::*;

verus! {

/// The last second of the year 9999, the latest timestamp the store accepts.
pub const MAX_TIMESTAMP: i64 = 253402300799;

/// A stored turn; `created_at` is in whole seconds since the Unix epoch.
#[derive(Debug, Clone)]
pub struct ChatMessageRow {
    pub id: String,
    pub thread_id: String,
    pub role: String,
    pub content: String,
    pub channel_context: Option<String>,
    pub created_at: i64,
}

/// Why a write was refused.
#[derive(PartialEq, Eq, Structural, Clone, Copy, Debug)]
pub enum StoreError {
    /// The clock gave a time before the Unix epoch or after the year 9999.
    TimestampOutOfRange,
}

impl ChatMessageRow {
    pub open spec fn in_range(&self) -> bool {
        0 <= self.created_at <= MAX_TIMESTAMP
    }

    /// `m` is this row as handed to callers.
    pub open spec fn describes(&self, m: CortexChatMessage) -> bool {
        &&& m.id@ == self.id@
        &&& m.thread_id@ == self.thread_id@
        &&& m.role@ == self.role@
        &&& m.content@ == self.content@
        &&& opt_view(m.channel_context) == opt_view(self.channel_context)
        &&& m.created_at@ == rfc3339_of(self.created_at)
    }

    fn to_message(&self) -> (m: CortexChatMessage)
        requires
            self.in_range(),
        ensures
            self.describes(m),
    {
        let created_at = format_timestamp(self.created_at).unwrap();
        CortexChatMessage {
            id: self.id.clone(),
            thread_id: self.thread_id.clone(),
            role: self.role.clone(),
            content: self.content.clone(),
            channel_context: copy_opt(&self.channel_context),
            created_at,
        }
    }
}

/// The rows of `rows` that belong to thread `t`, in log order.
pub open spec fn thread_rows(rows: Seq<ChatMessageRow>, t: Seq<char>) -> Seq<ChatMessageRow>
    decreases rows.len(),
{
    if rows.len() == 0 {
        Seq::empty()
    } else {
        let init = thread_rows(rows.drop_last(), t);
        if rows.last().thread_id@ == t {
            init.push(rows.last())
        } else {
            init
        }
    }
}

/// The last `n` items of `s`; all of them where `n` is negative or at least
/// the length.
pub open spec fn last_n<A>(s: Seq<A>, n: int) -> Seq<A> {
    if n < 0 || n >= s.len() {
        s
    } else {
        s.subrange(s.len() - n, s.len() as int)
    }
}

/// Every row's timestamp is in range, and timestamps never decrease along `rows`.
pub open spec fn rows_ordered(rows: Seq<ChatMessageRow>) -> bool {
    &&& forall|i: int| 0 <= i < rows.len() ==> (#[trigger] rows[i]).in_range()
    &&& forall|i: int, j: int|
        0 <= i <= j < rows.len() ==> (#[trigger] rows[i]).created_at <= (#[trigger] rows[j]).created_at
}

/// The timestamp a write at clock time `now` receives: `now`, or the latest
/// timestamp in the log where the clock has gone back.
pub open spec fn stamp(rows: Seq<ChatMessageRow>, now: i64) -> i64 {
    if rows.len() > 0 && rows.last().created_at > now {
        rows.last().created_at
    } else {
        now
    }
}

/// `row` holds exactly the given values.
pub open spec fn row_holds(
    row: ChatMessageRow,
    id: Seq<char>,
    thread_id: Seq<char>,
    role: Seq<char>,
    content: Seq<char>,
    channel_context: Option<Seq<char>>,
    created_at: i64,
) -> bool {
    &&& row.id@ == id
    &&& row.thread_id@ == thread_id
    &&& row.role@ == role
    &&& row.content@ == content
    &&& opt_view(row.channel_context) == channel_context
    &&& row.created_at == created_at
}

pub proof fn lemma_thread_rows_len(rows: Seq<ChatMessageRow>, t: Seq<char>)
    ensures
        thread_rows(rows, t).len() <= rows.len(),
    decreases rows.len(),
{
    if rows.len() > 0 {
        lemma_thread_rows_len(rows.drop_last(), t);
    }
}

/// Turns of the cortex chat, kept in memory as an append-only log.
#[derive(Debug)]
pub struct CortexChatStore {
    rows: Vec<ChatMessageRow>,
}

impl View for CortexChatStore {
    type V = Seq<ChatMessageRow>;

    closed spec fn view(&self) -> Seq<ChatMessageRow> {
        self.rows@
    }
}

impl CortexChatStore {
    pub open spec fn wf(&self) -> bool {
        rows_ordered(self@)
    }

    /// An empty store.
    pub fn new() -> (r: Self)
        ensures
            r.wf(),
            r@ == Seq::<ChatMessageRow>::empty(),
    {
        CortexChatStore { rows: Vec::new() }
    }

    /// A store holding `rows`, in this order, where they are ordered as the log
    /// keeps them; `None` where they are not.
    pub fn from_rows(rows: Vec<ChatMessageRow>) -> (r: Option<Self>)
        ensures
            r is Some <==> rows_ordered(rows@),
            r matches Some(s) ==> s@ == rows@ && s.wf(),
    {
        let n = rows.len();
        let mut i: usize = 0;
        while i < n
            invariant
                n == rows@.len(),
                i <= n,
                forall|k: int| 0 <= k < i ==> (#[trigger] rows@[k]).in_range(),
                forall|a: int, b: int|
                    0 <= a <= b < i ==> (#[trigger] rows@[a]).created_at <= (#[trigger] rows@[b]).created_at,
            decreases n - i,
        {
            if rows[i].created_at < 0 || rows[i].created_at > MAX_TIMESTAMP {
                return None;
            }
            if i > 0 && rows[i - 1].created_at > rows[i].created_at {
                assert(!rows_ordered(rows@)) by {
                    let a = i as int - 1;
                    let b = i as int;
                    assert(rows@[a].created_at > rows@[b].created_at);
                }
                return None;
            }
            proof {
                assert forall|a: int, b: int| 0 <= a <= b < i + 1 implies
                    (#[trigger] rows@[a]).created_at <= (#[trigger] rows@[b]).created_at by {
                    if b == i && a < b {
                        assert(rows@[a].created_at <= rows@[i - 1].created_at);
                    }
                }
            }
            i = i + 1;
        }
        Some(CortexChatStore { rows })
    }

    /// Appends one turn stamped at clock time `now` (or at the log's latest
    /// timestamp, where the clock has gone back) and returns its generated
    /// identifier. Refused, leaving the log as it was, where that stamp lies
    /// outside the years 1970 to 9999.
    pub fn save_message(
        &mut self,
        thread_id: &str,
        role: &str,
        content: &str,
        channel_context: Option<&str>,
        now: i64,
    ) -> (r: Result<String, StoreError>)
        requires
            old(self).wf(),
        ensures
            final(self).wf(),
            r is Ok <==> 0 <= stamp(old(self)@, now) <= MAX_TIMESTAMP,
            r matches Ok(id) ==> {
                &&& final(self)@ == old(self)@.push(final(self)@.last())
                &&& row_holds(
                    final(self)@.last(),
                    id@,
                    thread_id@,
                    role@,
                    content@,
                    opt_str_view(channel_context),
                    stamp(old(self)@, now),
                )
            },
            r matches Err(e) ==> final(self)@ == old(self)@ && e == StoreError::TimestampOutOfRange,
    {
        let n = self.rows.len();
        let created_at = if n > 0 && self.rows[n - 1].created_at > now {
            self.rows[n - 1].created_at
        } else {
            now
        };
        if created_at < 0 || created_at > MAX_TIMESTAMP {
            return Err(StoreError::TimestampOutOfRange);
        }
        let id = fresh_id();
        let row = ChatMessageRow {
            id: id.clone(),
            thread_id: thread_id.to_owned(),
            role: role.to_owned(),
            content: content.to_owned(),
            channel_context: own_opt(channel_context),
            created_at,
        };
        self.rows.push(row);
        proof {
            let rows = self.rows@;
            assert forall|a: int, b: int| 0 <= a <= b < rows.len() implies
                (#[trigger] rows[a]).created_at <= (#[trigger] rows[b]).created_at by {
                if b == n && a < b {
                    assert(rows[a].created_at <= rows[n - 1].created_at);
                }
            }
        }
        Ok(id)
    }

    /// The last `limit` turns of thread `thread_id` (all of them where `limit`
    /// is negative), oldest first.
    pub fn load_history(&self, thread_id: &str, limit: i64) -> (r: Vec<CortexChatMessage>)
        requires
            self.wf(),
        ensures
            r@.len() == last_n(thread_rows(self@, thread_id@), limit as int).len(),
            forall|k: int|
                0 <= k < r@.len() ==> last_n(thread_rows(self@, thread_id@), limit as int)[k].describes(
                    #[trigger] r@[k],
                ),
    {
        let t = thread_id.to_owned();
        let n = self.rows.len();
        let mut count: usize = 0;
        let mut i: usize = 0;
        while i < n
            invariant
                n == self.rows@.len(),
                i <= n,
                count <= i,
                count == thread_rows(self.rows@.take(i as int), t@).len(),
            decreases n - i,
        {
            assert(self.rows@.take(i as int + 1).drop_last() =~= self.rows@.take(i as int));
            if self.rows[i].thread_id == t {
                count = count + 1;
            }
            i = i + 1;
        }
        assert(self.rows@.take(n as int) =~= self.rows@);
        let skip: usize = if limit >= 0 && (limit as u64) < (count as u64) {
            count - (limit as u64) as usize
        } else {
            0
        };
        let ghost all = thread_rows(self.rows@, t@);
        let mut out: Vec<CortexChatMessage> = Vec::new();
        let mut seen: usize = 0;
        i = 0;
        while i < n
            invariant
                n == self.rows@.len(),
                all == thread_rows(self.rows@, t@),
                all.len() == count,
                skip <= count,
                i <= n,
                seen <= i,
                seen == thread_rows(self.rows@.take(i as int), t@).len(),
                thread_rows(self.rows@.take(i as int), t@) =~= all.take(seen as int),
                out@.len() == if seen >= skip { seen - skip } else { 0 },
                forall|k: int| 0 <= k < out@.len() ==> all[skip + k].describes(#[trigger] out@[k]),
                rows_ordered(self.rows@),
            decreases n - i,
        {
            let ghost before = thread_rows(self.rows@.take(i as int), t@);
            assert(self.rows@.take(i as int + 1).drop_last() =~= self.rows@.take(i as int));
            if self.rows[i].thread_id == t {
                proof {
                    lemma_thread_rows_prefix(self.rows@, t@, i as int + 1);
                    assert(self.rows@.take(i as int + 1).last() == self.rows@[i as int]);
                    assert(thread_rows(self.rows@.take(i as int + 1), t@) == before.push(self.rows@[i as int]));
                    let after = thread_rows(self.rows@.take(i as int + 1), t@);
                    assert(after.len() == seen + 1);
                    assert(after[seen as int] == self.rows@[i as int]);
                    assert(all.take(seen as int + 1)[seen as int] == all[seen as int]);
                    assert(all[seen as int] == self.rows@[i as int]);
                }
                if seen >= skip {
                    let m = self.rows[i].to_message();
                    out.push(m);
                }
                seen = seen + 1;
            }
            i = i + 1;
            proof {
                lemma_thread_rows_prefix(self.rows@, t@, i as int);
            }
        }
        assert(self.rows@.take(n as int) =~= self.rows@);
        assert(t@ == thread_id@);
        assert(self@ == self.rows@);
        out
    }

    /// The thread of the most recent turn, or `None` for an empty store.
    pub fn latest_thread_id(&self) -> (r: Option<String>)
        requires
            self.wf(),
        ensures
            r is None <==> self@.len() == 0,
            r matches Some(t) ==> {
                &&& t@ == self@.last().thread_id@
                &&& forall|i: int| 0 <= i < self@.len() ==> (#[trigger] self@[i]).created_at <= self@.last().created_at
            },
    {
        let n = self.rows.len();
        if n == 0 {
            None
        } else {
            Some(self.rows[n - 1].thread_id.clone())
        }
    }
}

/// The rows of one thread in an ordered log are ordered, and none is later
/// than the log's last row.
pub proof fn lemma_thread_rows_ordered(rows: Seq<ChatMessageRow>, t: Seq<char>)
    requires
        rows_ordered(rows),
    ensures
        rows_ordered(thread_rows(rows, t)),
        rows.len() > 0 ==> forall|k: int| 0 <= k < thread_rows(rows, t).len()
            ==> (#[trigger] thread_rows(rows, t)[k]).created_at <= rows.last().created_at,
    decreases rows.len(),
{
    if rows.len() > 0 {
        let init = rows.drop_last();
        assert(rows_ordered(init)) by {
            assert forall|i: int, j: int| 0 <= i <= j < init.len() implies
                (#[trigger] init[i]).created_at <= (#[trigger] init[j]).created_at by {
                assert(init[i] == rows[i] && init[j] == rows[j]);
            }
        }
        lemma_thread_rows_ordered(init, t);
        if init.len() > 0 {
            assert(init.last().created_at <= rows.last().created_at);
        }
        let tr = thread_rows(rows, t);
        assert forall|i: int, j: int| 0 <= i <= j < tr.len() implies
            (#[trigger] tr[i]).created_at <= (#[trigger] tr[j]).created_at by {
            if init.len() > 0 {
                assert(thread_rows(init, t)[i] == tr[i] || i == tr.len() - 1);
            }
        }
    }
}

/// The history of a thread keeps its turns in the order they were saved: after
/// the turns `added` are saved on thread `t` to a log that held `rows`, the
/// thread's rows are its earlier rows followed by `added`, and the history with
/// limit `n` holds the last `n` of them (all where `n` is negative or at least
/// their number), oldest first, with timestamps that never decrease.
pub proof fn lemma_history_keeps_saved_order(
    rows: Seq<ChatMessageRow>,
    added: Seq<ChatMessageRow>,
    t: Seq<char>,
    n: int,
)
    requires
        rows_ordered(rows + added),
        forall|k: int| 0 <= k < added.len() ==> (#[trigger] added[k]).thread_id@ == t,
    ensures
        thread_rows(rows + added, t) == thread_rows(rows, t) + added,
        last_n(thread_rows(rows + added, t), n).len() == if 0 <= n < thread_rows(rows, t).len() + added.len() {
            n
        } else {
            (thread_rows(rows, t).len() + added.len()) as int
        },
        last_n(thread_rows(rows + added, t), n) == (thread_rows(rows, t) + added).subrange(
            thread_rows(rows, t).len() + added.len() - last_n(thread_rows(rows + added, t), n).len(),
            (thread_rows(rows, t).len() + added.len()) as int,
        ),
        rows_ordered(last_n(thread_rows(rows + added, t), n)),
{
    lemma_thread_rows_concat(rows, added, t);
    lemma_thread_rows_ordered(rows + added, t);
    let all = thread_rows(rows + added, t);
    let w = last_n(all, n);
    if 0 <= n < all.len() {
        assert forall|i: int| 0 <= i < w.len() implies (#[trigger] w[i]).in_range() by {
            assert(w[i] == all[all.len() - n + i]);
        }
        assert forall|i: int, j: int| 0 <= i <= j < w.len() implies
            (#[trigger] w[i]).created_at <= (#[trigger] w[j]).created_at by {
            assert(w[i] == all[all.len() - n + i]);
            assert(w[j] == all[all.len() - n + j]);
        }
    } else {
        assert(w =~= all.subrange(0, all.len() as int));
    }
}

/// Saving rows of thread `t` appends them to the thread's rows.
pub proof fn lemma_thread_rows_concat(rows: Seq<ChatMessageRow>, added: Seq<ChatMessageRow>, t: Seq<char>)
    requires
        forall|k: int| 0 <= k < added.len() ==> (#[trigger] added[k]).thread_id@ == t,
    ensures
        thread_rows(rows + added, t) == thread_rows(rows, t) + added,
    decreases added.len(),
{
    if added.len() == 0 {
        assert(rows + added =~= rows);
        assert(thread_rows(rows, t) + added =~= thread_rows(rows, t));
    } else {
        let init = added.drop_last();
        lemma_thread_rows_concat(rows, init, t);
        assert((rows + added).drop_last() =~= rows + init);
        assert((rows + added).last() == added.last());
        assert(thread_rows(rows, t) + added =~= (thread_rows(rows, t) + init).push(added.last()));
    }
}

/// The thread's rows among a prefix of the log are a prefix of its rows in the
/// whole log.
pub proof fn lemma_thread_rows_prefix(rows: Seq<ChatMessageRow>, t: Seq<char>, i: int)
    requires
        0 <= i <= rows.len(),
    ensures
        thread_rows(rows.take(i), t).len() <= thread_rows(rows, t).len(),
        thread_rows(rows.take(i), t) =~= thread_rows(rows, t).take(thread_rows(rows.take(i), t).len() as int),
    decreases rows.len(),
{
    if i < rows.len() {
        assert(rows.drop_last().take(i) =~= rows.take(i));
        lemma_thread_rows_prefix(rows.drop_last(), t, i);
        lemma_thread_rows_len(rows.take(i), t);
        lemma_thread_rows_len(rows.drop_last(), t);
    } else {
        assert(rows.take(i) =~= rows);
    }
}

} // verus!
