//! A shared text buffer followed by a `cola` replica, with a numbered
//! history of its edits.
use vstd::prelude::*;
use vstd::utf8::*;

use crate::crdt::{
    replica_contents, replica_deleted, replica_fork, replica_id, replica_inserted, replica_new,
};
use crate::text::{bytes_of, lemma_valid_cut, lemma_valid_splice, push_range, string_from_valid_utf8, utf8};

verus! {

/// An edit in a document's history, numbered by `timestamp`.
#[derive(Clone, Debug)]
pub enum Action {
    Insertion { pos: usize, text: String, timestamp: u64 },
    Deletion { range_start: usize, range_end: usize, timestamp: u64 },
}

impl Action {
    pub open spec fn ts(self) -> u64 {
        match self {
            Action::Insertion { timestamp, .. } => timestamp,
            Action::Deletion { timestamp, .. } => timestamp,
        }
    }

    /// A copy of the action.
    pub fn duplicate(&self) -> (r: Action)
        ensures
            r == *self,
    {
        match self {
            Action::Insertion { pos, text, timestamp } => Action::Insertion {
                pos: *pos,
                text: text.clone(),
                timestamp: *timestamp,
            },
            Action::Deletion { range_start, range_end, timestamp } => Action::Deletion {
                range_start: *range_start,
                range_end: *range_end,
                timestamp: *timestamp,
            },
        }
    }
}

/// An insertion made locally: the inserted text and the `cola` insertion to
/// send to the other replicas.
pub struct TextInsertion {
    pub text: String,
    pub crdt: cola::Insertion,
}

/// The source of replica ids: a counter starting at 1 that, like an atomic
/// `fetch_add`, wraps around after the largest `u64`.
pub struct ReplicaIdCounter {
    next: u64,
}

impl ReplicaIdCounter {
    pub closed spec fn spec_next(&self) -> u64 {
        self.next
    }

    /// A counter whose first id is 1.
    pub fn new() -> (r: Self)
        ensures
            r.spec_next() == 1,
    {
        ReplicaIdCounter { next: 1 }
    }
}

/// Hands out the counter's current value and advances it by one (wrapping).
pub fn generate_unique_replica_id(counter: &mut ReplicaIdCounter) -> (r: u64)
    ensures
        r == old(counter).spec_next(),
        final(counter).spec_next() == (if old(counter).spec_next() == u64::MAX {
            0
        } else {
            (old(counter).spec_next() + 1) as u64
        }),
{
    let r = counter.next;
    counter.next = counter.next.wrapping_add(1);
    r
}

/// The counter after one id is handed out.
pub open spec fn next_counter(c: u64) -> u64 {
    if c == u64::MAX {
        0
    } else {
        (c + 1) as u64
    }
}

/// The ids `n` calls of [`generate_unique_replica_id`] hand out, in order,
/// from a counter at `start`.
pub open spec fn ids_handed_out(start: u64, n: nat) -> Seq<u64>
    decreases n,
{
    if n == 0 {
        Seq::empty()
    } else {
        seq![start] + ids_handed_out(next_counter(start), (n - 1) as nat)
    }
}

/// Any number of calls on one counter, fewer than it can count, hand out
/// consecutive ids: each call's id is larger than every earlier call's,
/// so all of them are distinct, and none is 0 for a counter that starts at
/// 1 (or above).
pub proof fn law_replica_ids_are_distinct_and_positive(start: u64, n: nat)
    requires
        start + n <= u64::MAX + 1,
    ensures
        ids_handed_out(start, n).len() == n,
        forall|i: int| 0 <= i < n ==> #[trigger] ids_handed_out(start, n)[i] == start + i,
        forall|i: int, j: int|
            0 <= i < j < n ==> ids_handed_out(start, n)[i] < ids_handed_out(start, n)[j],
        start >= 1 ==> forall|i: int| 0 <= i < n ==> #[trigger] ids_handed_out(start, n)[i] >= 1,
    decreases n,
{
    if n > 0 {
        if n > 1 {
            law_replica_ids_are_distinct_and_positive(next_counter(start), (n - 1) as nat);
        }
        let s = ids_handed_out(start, n);
        let t = ids_handed_out(next_counter(start), (n - 1) as nat);
        assert(s == seq![start] + t);
        assert forall|i: int| 0 <= i < n implies #[trigger] s[i] == start + i by {
            if i > 0 {
                assert(s[i] == t[i - 1]);
            }
        }
    }
}

/// The actions of `h` numbered after `last`, in order.
pub open spec fn actions_since(h: Seq<Action>, last: u64) -> Seq<Action>
    decreases h.len(),
{
    if h.len() == 0 {
        h
    } else if h.last().ts() > last {
        actions_since(h.drop_last(), last).push(h.last())
    } else {
        actions_since(h.drop_last(), last)
    }
}

/// The history is numbered from 1 upwards, strictly increasing, up to
/// `current`.
pub open spec fn numbered(h: Seq<Action>, current: u64) -> bool {
    &&& forall|i: int| 0 <= i < h.len() ==> 1 <= (#[trigger] h[i]).ts() <= current
    &&& forall|i: int, j: int| 0 <= i < j < h.len() ==> (#[trigger] h[i]).ts() < (#[trigger] h[j]).ts()
}

/// A text buffer, its `cola` replica and its edit history.
pub struct Document {
    buffer: String,
    crdt: cola::Replica,
    replica_id: u64,
    history: Vec<Action>,
    current_timestamp: u64,
}

impl Document {
    /// The buffer's bytes.
    pub closed spec fn bytes(&self) -> Seq<u8> {
        utf8(self.buffer@)
    }

    pub closed spec fn spec_text(&self) -> Seq<char> {
        self.buffer@
    }

    pub closed spec fn spec_history(&self) -> Seq<Action> {
        self.history@
    }

    pub closed spec fn spec_timestamp(&self) -> u64 {
        self.current_timestamp
    }

    pub closed spec fn spec_replica_id(&self) -> u64 {
        self.replica_id
    }

    /// The replica follows the buffer byte by byte, under the document's
    /// replica id, and the history is numbered up to the current timestamp.
    pub closed spec fn wf(&self) -> bool {
        &&& replica_contents(self.crdt).len() == utf8(self.buffer@).len()
        &&& replica_id(self.crdt) == self.replica_id
        &&& self.replica_id != 0
        &&& numbered(self.history@, self.current_timestamp)
    }

    /// A document holding `text`, followed by a new replica `replica_id`,
    /// with an empty history.
    pub fn new(text: String, replica_id: u64) -> (r: Document)
        requires
            replica_id != 0,
        ensures
            r.wf(),
            r.spec_text() == text@,
            r.spec_history() == Seq::<Action>::empty(),
            r.spec_timestamp() == 0,
            r.spec_replica_id() == replica_id,
    {
        let len = text.as_str().as_bytes().len();
        let crdt = replica_new(replica_id, len);
        Document { buffer: text, crdt, replica_id, history: Vec::new(), current_timestamp: 0 }
    }

    pub fn text(&self) -> (r: &String)
        ensures
            r@ == self.spec_text(),
    {
        &self.buffer
    }

    pub fn replica_id(&self) -> (r: u64)
        ensures
            r == self.spec_replica_id(),
    {
        self.replica_id
    }

    pub fn current_timestamp(&self) -> (r: u64)
        ensures
            r == self.spec_timestamp(),
    {
        self.current_timestamp
    }

    /// A copy of the document under another replica id: `new_replica_id`,
    /// or, when that is this document's own id, `fresh_id` (a newly
    /// generated id). Text, history and timestamp are kept.
    pub fn fork(&self, new_replica_id: u64, fresh_id: u64) -> (r: Document)
        requires
            self.wf(),
            new_replica_id != 0,
            fresh_id != 0,
        ensures
            r.wf(),
            r.spec_replica_id() == (if new_replica_id == self.spec_replica_id() {
                fresh_id
            } else {
                new_replica_id
            }),
            r.spec_text() == self.spec_text(),
            r.spec_history() == self.spec_history(),
            r.spec_timestamp() == self.spec_timestamp(),
    {
        let id = if new_replica_id == self.replica_id {
            fresh_id
        } else {
            new_replica_id
        };
        let crdt = replica_fork(&self.crdt, id);
        let mut history: Vec<Action> = Vec::new();
        let mut i: usize = 0;
        while i < self.history.len()
            invariant
                i <= self.history@.len(),
                history@ == self.history@.take(i as int),
            decreases self.history@.len() - i,
        {
            history.push(self.history[i].duplicate());
            assert(self.history@.take(i + 1) =~= self.history@.take(i as int).push(
                self.history@[i as int],
            ));
            i = i + 1;
        }
        assert(self.history@.take(i as int) =~= self.history@);
        Document {
            buffer: self.buffer.clone(),
            crdt,
            replica_id: id,
            history,
            current_timestamp: self.current_timestamp,
        }
    }

    /// Inserts `text` at byte offset `insert_at`, records the insertion in
    /// the replica and in the history under the next timestamp, and returns
    /// the insertion to send to the other replicas.
    pub fn insert(&mut self, insert_at: usize, text: String) -> (r: TextInsertion)
        requires
            old(self).wf(),
            insert_at <= old(self).bytes().len(),
            is_char_boundary(old(self).bytes(), insert_at as int),
            old(self).bytes().len() + utf8(text@).len() <= usize::MAX,
            old(self).spec_timestamp() < u64::MAX,
        ensures
            final(self).wf(),
            r.text@ == text@,
            final(self).bytes() == old(self).bytes().take(insert_at as int) + utf8(text@) + old(
                self,
            ).bytes().skip(insert_at as int),
            final(self).spec_timestamp() == old(self).spec_timestamp() + 1,
            final(self).spec_replica_id() == old(self).spec_replica_id(),
            final(self).spec_history() == old(self).spec_history().push(
                Action::Insertion {
                    pos: insert_at,
                    text: text,
                    timestamp: (old(self).spec_timestamp() + 1) as u64,
                },
            ),
    {
        let old_bytes = bytes_of(self.buffer.as_str());
        let ins = text.as_str().as_bytes();
        let mut out: Vec<u8> = Vec::new();
        push_range(&mut out, old_bytes.as_slice(), 0, insert_at);
        push_range(&mut out, ins, 0, ins.len());
        push_range(&mut out, old_bytes.as_slice(), insert_at, old_bytes.len());
        proof {
            let t = old_bytes@;
            assert(ins@.subrange(0, ins@.len() as int) =~= ins@);
            assert(t.subrange(0, insert_at as int) =~= t.take(insert_at as int));
            assert(t.subrange(insert_at as int, t.len() as int) =~= t.skip(insert_at as int));
            encode_utf8_valid_utf8(self.buffer@);
            encode_utf8_valid_utf8(text@);
            lemma_valid_splice(t, insert_at as int, ins@);
        }
        self.buffer = string_from_valid_utf8(out);
        let len = ins.len();
        let crdt = replica_inserted(&mut self.crdt, insert_at, len);
        let ghost old_ts = self.current_timestamp;
        self.current_timestamp = self.current_timestamp + 1;
        let action = Action::Insertion {
            pos: insert_at,
            text: text.clone(),
            timestamp: self.current_timestamp,
        };
        let ghost h = self.history@;
        self.history.push(action);
        proof {
            let h2 = self.history@;
            assert forall|i: int| 0 <= i < h2.len() implies 1 <= (#[trigger] h2[i]).ts()
                <= self.current_timestamp by {
                if i < h.len() {
                    assert(h2[i] == h[i]);
                }
            }
            assert forall|i: int, j: int| 0 <= i < j < h2.len() implies (#[trigger] h2[i]).ts() < (
            #[trigger] h2[j]).ts() by {
                assert(h2[i] == h[i]);
                if j < h.len() {
                    assert(h2[j] == h[j]);
                }
            }
        }
        TextInsertion { text, crdt }
    }

    /// Removes the bytes `range`, records the deletion in the replica and in
    /// the history under the next timestamp, and returns the deletion to
    /// send to the other replicas.
    pub fn delete(&mut self, range: std::ops::Range<usize>) -> (r: cola::Deletion)
        requires
            old(self).wf(),
            range.start <= range.end <= old(self).bytes().len(),
            is_char_boundary(old(self).bytes(), range.start as int),
            is_char_boundary(old(self).bytes(), range.end as int),
            old(self).spec_timestamp() < u64::MAX,
        ensures
            final(self).wf(),
            final(self).bytes() == old(self).bytes().take(range.start as int) + old(
                self,
            ).bytes().skip(range.end as int),
            final(self).spec_timestamp() == old(self).spec_timestamp() + 1,
            final(self).spec_replica_id() == old(self).spec_replica_id(),
            final(self).spec_history() == old(self).spec_history().push(
                Action::Deletion {
                    range_start: range.start,
                    range_end: range.end,
                    timestamp: (old(self).spec_timestamp() + 1) as u64,
                },
            ),
    {
        let start = range.start;
        let end = range.end;
        let old_bytes = bytes_of(self.buffer.as_str());
        let mut out: Vec<u8> = Vec::new();
        push_range(&mut out, old_bytes.as_slice(), 0, start);
        push_range(&mut out, old_bytes.as_slice(), end, old_bytes.len());
        proof {
            let t = old_bytes@;
            assert(t.subrange(0, start as int) =~= t.take(start as int));
            assert(t.subrange(end as int, t.len() as int) =~= t.skip(end as int));
            encode_utf8_valid_utf8(self.buffer@);
            lemma_valid_cut(t, start as int, end as int);
        }
        self.buffer = string_from_valid_utf8(out);
        let deletion = replica_deleted(&mut self.crdt, start, end);
        self.current_timestamp = self.current_timestamp + 1;
        let action = Action::Deletion {
            range_start: start,
            range_end: end,
            timestamp: self.current_timestamp,
        };
        let ghost h = self.history@;
        self.history.push(action);
        proof {
            let h2 = self.history@;
            assert forall|i: int| 0 <= i < h2.len() implies 1 <= (#[trigger] h2[i]).ts()
                <= self.current_timestamp by {
                if i < h.len() {
                    assert(h2[i] == h[i]);
                }
            }
            assert forall|i: int, j: int| 0 <= i < j < h2.len() implies (#[trigger] h2[i]).ts() < (
            #[trigger] h2[j]).ts() by {
                assert(h2[i] == h[i]);
                if j < h.len() {
                    assert(h2[j] == h[j]);
                }
            }
        }
        deletion
    }

    /// The edits numbered after `last_timestamp`, in history order.
    pub fn get_operations_since(&self, last_timestamp: u64) -> (r: Vec<Action>)
        ensures
            r@ == actions_since(self.spec_history(), last_timestamp),
    {
        let mut r: Vec<Action> = Vec::new();
        let mut i: usize = 0;
        while i < self.history.len()
            invariant
                i <= self.history@.len(),
                r@ == actions_since(self.history@.take(i as int), last_timestamp),
            decreases self.history@.len() - i,
        {
            let a = &self.history[i];
            let ts = match a {
                Action::Insertion { timestamp, .. } => *timestamp,
                Action::Deletion { timestamp, .. } => *timestamp,
            };
            let ghost prefix = self.history@.take(i + 1);
            assert(prefix.drop_last() =~= self.history@.take(i as int));
            assert(prefix.last() == self.history@[i as int]);
            if ts > last_timestamp {
                r.push(a.duplicate());
            }
            i = i + 1;
        }
        assert(self.history@.take(i as int) =~= self.history@);
        r
    }
}

// ---------------------------------------------------------------------------
// Laws
// ---------------------------------------------------------------------------

/// Nothing is newer than the newest timestamp.
pub proof fn law_nothing_since_now(h: Seq<Action>, current: u64)
    requires
        numbered(h, current),
    ensures
        actions_since(h, current) == Seq::<Action>::empty(),
    decreases h.len(),
{
    if h.len() > 0 {
        assert(h.last() == h[h.len() - 1]);
        assert(numbered(h.drop_last(), current)) by {
            assert forall|i: int| 0 <= i < h.drop_last().len() implies 1 <= (
            #[trigger] h.drop_last()[i]).ts() <= current by {
                assert(h.drop_last()[i] == h[i]);
            }
            assert forall|i: int, j: int|
                0 <= i < j < h.drop_last().len() implies (#[trigger] h.drop_last()[i]).ts() < (
            #[trigger] h.drop_last()[j]).ts() by {
                assert(h.drop_last()[i] == h[i]);
                assert(h.drop_last()[j] == h[j]);
            }
        }
        law_nothing_since_now(h.drop_last(), current);
    }
}

/// A replica that has seen everything up to `current` and asks for what is
/// newer receives exactly the edit made next, and nothing else.
pub proof fn law_sync_returns_the_next_edit(h: Seq<Action>, current: u64, a: Action)
    requires
        numbered(h, current),
        a.ts() > current,
    ensures
        actions_since(h.push(a), current) == seq![a],
{
    law_nothing_since_now(h, current);
    assert(h.push(a).drop_last() =~= h);
    assert(Seq::<Action>::empty().push(a) =~= seq![a]);
}

/// Asking for what is newer than 0 returns the whole numbered history.
pub proof fn law_everything_since_zero(h: Seq<Action>, current: u64)
    requires
        numbered(h, current),
    ensures
        actions_since(h, 0) == h,
    decreases h.len(),
{
    if h.len() > 0 {
        assert(h.last() == h[h.len() - 1]);
        assert(numbered(h.drop_last(), current)) by {
            assert forall|i: int| 0 <= i < h.drop_last().len() implies 1 <= (
            #[trigger] h.drop_last()[i]).ts() <= current by {
                assert(h.drop_last()[i] == h[i]);
            }
            assert forall|i: int, j: int|
                0 <= i < j < h.drop_last().len() implies (#[trigger] h.drop_last()[i]).ts() < (
            #[trigger] h.drop_last()[j]).ts() by {
                assert(h.drop_last()[i] == h[i]);
                assert(h.drop_last()[j] == h[j]);
            }
        }
        law_everything_since_zero(h.drop_last(), current);
        assert(h.drop_last().push(h.last()) =~= h);
    }
}

/// Deleting exactly the bytes an insertion added restores the buffer.
pub proof fn law_delete_undoes_insert(t: Seq<u8>, at: int, x: Seq<u8>)
    requires
        0 <= at <= t.len(),
    ensures
        ({
            let t1 = t.take(at) + x + t.skip(at);
            t1.take(at) + t1.skip(at + x.len()) == t
        }),
{
    let t1 = t.take(at) + x + t.skip(at);
    assert(t1.take(at) =~= t.take(at));
    assert(t1.skip(at + x.len()) =~= t.skip(at));
    assert(t.take(at) + t.skip(at) =~= t);
}


/// What a replica receives when it asks for the edits after `last`: only
/// edits of the history, each newer than `last`, and every such edit.
pub proof fn law_sync_returns_exactly_the_newer_edits(h: Seq<Action>, last: u64)
    ensures
        forall|k: int|
            0 <= k < actions_since(h, last).len() ==> (#[trigger] actions_since(h, last)[k]).ts()
                > last && h.contains(actions_since(h, last)[k]),
        forall|i: int| 0 <= i < h.len() && (#[trigger] h[i]).ts() > last ==> actions_since(h, last).contains(h[i]),
        actions_since(h, last).len() <= h.len(),
    decreases h.len(),
{
    if h.len() > 0 {
        let d = h.drop_last();
        law_sync_returns_exactly_the_newer_edits(d, last);
        let rest = actions_since(d, last);
        let a = actions_since(h, last);
        assert forall|k: int| 0 <= k < a.len() implies (#[trigger] a[k]).ts() > last && h.contains(a[k]) by {
            if k < rest.len() {
                assert(a[k] == rest[k]);
                let j = choose|j: int| 0 <= j < d.len() && d[j] == rest[k];
                assert(h[j] == d[j]);
            } else {
                assert(a[k] == h.last());
                assert(h[h.len() - 1] == h.last());
            }
        }
        assert forall|i: int| 0 <= i < h.len() && (#[trigger] h[i]).ts() > last implies a.contains(h[i]) by {
            if i < d.len() {
                assert(d[i] == h[i]);
                assert(rest.contains(d[i]));
                let k = choose|k: int| 0 <= k < rest.len() && rest[k] == d[i];
                if h.last().ts() > last {
                    assert(a[k] == rest[k]);
                }
            } else {
                assert(h[i] == h.last());
                assert(a[a.len() - 1] == h.last());
            }
        }
    }
}

} // verus!
