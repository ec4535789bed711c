//! The table of execution sessions the runtime keeps: sequential numbering,
//! status and iteration updates, completion with a recorded trace, and the
//! most-recent-first listing.
//!
//! Timestamps (`T`), the descriptive details of a session (`P`: plan,
//! duration, robot) and traces (`R`) are carried, never inspected.

use vstd::prelude::*;
use crate::plan::{ExecutionMode, ExecutionSource, SessionStatus, status_is_terminal};

verus! {

broadcast use vstd::seq_lib::group_to_multiset_ensures;

/// Persistent record of one execution session.
#[derive(Debug)]
pub struct SessionData<T, P> {
    /// Sequential number of the session.
    pub id: u64,
    /// Plan, duration, joint count and robot of the session.
    pub details: P,
    pub source: ExecutionSource,
    pub status: SessionStatus,
    pub started_at: Option<T>,
    pub paused_at: Option<T>,
    pub completed_at: Option<T>,
    pub mode: ExecutionMode,
    /// Current iteration, from 1.
    pub iteration: u32,
    /// Total iterations of the mode; `None` for `Once`.
    pub total_iterations: Option<u32>,
}

/// Index of the first entry of `s` numbered `id`.
pub open spec fn first_with<T, P>(s: Seq<SessionData<T, P>>, id: u64) -> Option<int>
    decreases s.len(),
{
    if s.len() == 0 {
        None
    } else {
        match first_with(s.drop_last(), id) {
            Some(i) => Some(i),
            None => if s.last().id == id {
                Some(s.len() - 1)
            } else {
                None
            },
        }
    }
}

/// Index of the first trace recorded for `id`.
pub open spec fn first_trace<R>(s: Seq<(u64, R)>, id: u64) -> Option<int>
    decreases s.len(),
{
    if s.len() == 0 {
        None
    } else {
        match first_trace(s.drop_last(), id) {
            Some(i) => Some(i),
            None => if s.last().0 == id {
                Some(s.len() - 1)
            } else {
                None
            },
        }
    }
}

/// The numbers of the sessions of `s`, in order.
pub open spec fn ids_of<T, P>(s: Seq<SessionData<T, P>>) -> Seq<u64> {
    s.map_values(|d: SessionData<T, P>| d.id)
}

/// `v` is in non-increasing order.
pub open spec fn descending(v: Seq<u64>) -> bool {
    forall|i: int, j: int| 0 <= i < j < v.len() ==> #[trigger] v[j] <= #[trigger] v[i]
}

/// The largest number in `v` (0 when empty).
pub open spec fn max_id(v: Seq<u64>) -> u64
    decreases v.len(),
{
    if v.len() == 0 {
        0
    } else {
        let m = max_id(v.drop_last());
        if v.last() > m {
            v.last()
        } else {
            m
        }
    }
}

/// `after` is `before` with the entry at `i` changed by `f`'s fields only.
pub open spec fn only_changed<T, P>(
    before: Seq<SessionData<T, P>>,
    after: Seq<SessionData<T, P>>,
    i: int,
) -> bool {
    &&& after.len() == before.len()
    &&& forall|j: int| 0 <= j < before.len() && j != i ==> after[j] == before[j]
}

/// The sessions of the runtime with their recorded traces.
pub struct SessionTable<T, P, R> {
    sessions: Vec<SessionData<T, P>>,
    traces: Vec<(u64, R)>,
    next_id: u64,
}

impl<T, P, R> SessionTable<T, P, R> {
    /// The sessions, in insertion order.
    pub closed spec fn entries(&self) -> Seq<SessionData<T, P>> {
        self.sessions@
    }

    /// The recorded traces, in recording order.
    pub closed spec fn trace_entries(&self) -> Seq<(u64, R)> {
        self.traces@
    }

    /// The number the next registered session receives.
    pub closed spec fn next_id_spec(&self) -> u64 {
        self.next_id
    }

    /// An empty table numbering from 1.
    pub fn new() -> (t: Self)
        ensures
            t.entries() == Seq::<SessionData<T, P>>::empty(),
            t.trace_entries() == Seq::<(u64, R)>::empty(),
            t.next_id_spec() == 1,
    {
        SessionTable { sessions: Vec::new(), traces: Vec::new(), next_id: 1 }
    }

    /// A table holding sessions loaded from storage, numbering on from the
    /// largest number among them.
    pub fn with_sessions(existing: Vec<SessionData<T, P>>) -> (t: Self)
        requires
            forall|i: int| 0 <= i < existing@.len() ==> (#[trigger] existing@[i]).id < u64::MAX,
        ensures
            t.entries() == existing@,
            t.trace_entries() == Seq::<(u64, R)>::empty(),
            t.next_id_spec() == max_id(ids_of(existing@)) + 1,
    {
        let n = existing.len();
        let mut m: u64 = 0;
        let mut i: usize = 0;
        while i < n
            invariant
                n == existing@.len(),
                i <= n,
                m == max_id(ids_of(existing@.take(i as int))),
                m < u64::MAX,
                forall|k: int| 0 <= k < existing@.len() ==> (#[trigger] existing@[k]).id < u64::MAX,
            decreases n - i,
        {
            proof {
                assert(ids_of(existing@.take(i as int + 1)).drop_last() =~= ids_of(
                    existing@.take(i as int),
                ));
            }
            if existing[i].id > m {
                m = existing[i].id;
            }
            i = i + 1;
        }
        proof {
            assert(existing@.take(n as int) =~= existing@);
        }
        SessionTable { sessions: existing, traces: Vec::new(), next_id: m + 1 }
    }

    fn find(&self, id: u64) -> (r: Option<usize>)
        ensures
            r is None <==> first_with(self.entries(), id) is None,
            r matches Some(j) ==> first_with(self.entries(), id) == Some(j as int),
            r matches Some(i) ==> i < self.entries().len() && self.entries()[i as int].id == id,
    {
        proof {
            lemma_first_with_bounds(self.sessions@, id);
        }
        let n = self.sessions.len();
        let mut i: usize = 0;
        while i < n
            invariant
                n == self.sessions@.len(),
                i <= n,
                first_with(self.sessions@.take(i as int), id) is None,
            decreases n - i,
        {
            proof {
                assert(self.sessions@.take(i as int + 1).drop_last() =~= self.sessions@.take(
                    i as int,
                ));
            }
            if self.sessions[i].id == id {
                proof {
                    lemma_first_with_prefix(self.sessions@, id, i as int + 1);
                }
                return Some(i);
            }
            i = i + 1;
        }
        proof {
            assert(self.sessions@.take(n as int) =~= self.sessions@);
        }
        None
    }

    /// Registers a running session started at `now` and returns its number:
    /// the next one, the numbering then moving on (wrapping at the top).
    pub fn register(&mut self, source: ExecutionSource, details: P, mode: ExecutionMode, now: T) -> (id:
        u64)
        ensures
            id == old(self).next_id_spec(),
            final(self).next_id_spec() == (if old(self).next_id_spec() == u64::MAX {
                0
            } else {
                old(self).next_id_spec() + 1
            }),
            final(self).trace_entries() == old(self).trace_entries(),
            final(self).entries() == old(self).entries().push(
                SessionData {
                    id,
                    details,
                    source,
                    status: SessionStatus::Running,
                    started_at: Some(now),
                    paused_at: None,
                    completed_at: None,
                    mode,
                    iteration: 1,
                    total_iterations: match mode {
                        ExecutionMode::Once => None,
                        ExecutionMode::Repeat { count } => Some(count),
                    },
                },
            ),
    {
        let id = self.next_id;
        self.next_id = self.next_id.wrapping_add(1);
        let total_iterations = mode.total_iterations();
        self.sessions.push(
            SessionData {
                id,
                details,
                source,
                status: SessionStatus::Running,
                started_at: Some(now),
                paused_at: None,
                completed_at: None,
                mode,
                iteration: 1,
                total_iterations,
            },
        );
        id
    }

    /// Sets the current iteration of session `id`; false when there is no
    /// such session.
    pub fn set_iteration(&mut self, id: u64, iteration: u32) -> (found: bool)
        ensures
            found == first_with(old(self).entries(), id) is Some,
            final(self).trace_entries() == old(self).trace_entries(),
            final(self).next_id_spec() == old(self).next_id_spec(),
            match first_with(old(self).entries(), id) {
                None => final(self).entries() == old(self).entries(),
                Some(i) => only_changed(old(self).entries(), final(self).entries(), i)
                    && final(self).entries()[i] == SessionData { iteration, ..old(self).entries()[i] },
            },
    {
        match self.find(id) {
            None => false,
            Some(i) => {
                let mut s = self.sessions.remove(i);
                s.iteration = iteration;
                self.sessions.insert(i, s);
                true
            },
        }
    }

    /// Sets the status of session `id`; a terminal status also stamps the
    /// completion time `now`. False when there is no such session.
    pub fn set_status(&mut self, id: u64, status: SessionStatus, now: T) -> (found: bool)
        ensures
            found == first_with(old(self).entries(), id) is Some,
            final(self).trace_entries() == old(self).trace_entries(),
            final(self).next_id_spec() == old(self).next_id_spec(),
            match first_with(old(self).entries(), id) {
                None => final(self).entries() == old(self).entries(),
                Some(i) => only_changed(old(self).entries(), final(self).entries(), i) && (
                if status_is_terminal(status) {
                    final(self).entries()[i] == SessionData {
                        status,
                        completed_at: Some(now),
                        ..old(self).entries()[i]
                    }
                } else {
                    final(self).entries()[i] == SessionData { status, ..old(self).entries()[i] }
                }),
            },
    {
        match self.find(id) {
            None => false,
            Some(i) => {
                let mut s = self.sessions.remove(i);
                s.status = status;
                if status.is_terminal() {
                    s.completed_at = Some(now);
                }
                self.sessions.insert(i, s);
                proof {
                    assert forall|j: int|
                        0 <= j < old(self).sessions@.len() && j != i implies self.sessions@[j]
                        == old(self).sessions@[j] by {}
                }
                true
            },
        }
    }

    /// Finishes session `id` with the terminal `status`, stamps its
    /// completion time `now` and records its trace. False, recording
    /// nothing, when there is no such session.
    pub fn complete_with_status(&mut self, id: u64, trace: R, status: SessionStatus, now: T) -> (found:
        bool)
        requires
            status_is_terminal(status),
        ensures
            found == first_with(old(self).entries(), id) is Some,
            final(self).next_id_spec() == old(self).next_id_spec(),
            match first_with(old(self).entries(), id) {
                None => final(self).entries() == old(self).entries() && final(self).trace_entries()
                    == old(self).trace_entries(),
                Some(i) => {
                    &&& only_changed(old(self).entries(), final(self).entries(), i)
                    &&& final(self).entries()[i] == SessionData {
                        status,
                        completed_at: Some(now),
                        ..old(self).entries()[i]
                    }
                    &&& final(self).trace_entries() == old(self).trace_entries().push((id, trace))
                },
            },
    {
        match self.find(id) {
            None => false,
            Some(i) => {
                let mut s = self.sessions.remove(i);
                s.status = status;
                s.completed_at = Some(now);
                self.sessions.insert(i, s);
                self.traces.push((id, trace));
                proof {
                    assert forall|j: int|
                        0 <= j < old(self).sessions@.len() && j != i implies self.sessions@[j]
                        == old(self).sessions@[j] by {}
                }
                true
            },
        }
    }

    /// The session numbered `id`.
    pub fn get(&self, id: u64) -> (r: Option<&SessionData<T, P>>)
        ensures
            match first_with(self.entries(), id) {
                Some(i) => r == Some(&self.entries()[i]),
                None => r is None,
            },
    {
        match self.find(id) {
            Some(i) => Some(&self.sessions[i]),
            None => None,
        }
    }

    /// The trace recorded for session `id`.
    pub fn get_trace(&self, id: u64) -> (r: Option<&R>)
        ensures
            match first_trace(self.trace_entries(), id) {
                Some(i) => r == Some(&self.trace_entries()[i].1),
                None => r is None,
            },
    {
        proof {
            lemma_first_trace_bounds(self.traces@, id);
        }
        let n = self.traces.len();
        let mut i: usize = 0;
        while i < n
            invariant
                n == self.traces@.len(),
                i <= n,
                first_trace(self.traces@.take(i as int), id) is None,
            decreases n - i,
        {
            proof {
                assert(self.traces@.take(i as int + 1).drop_last() =~= self.traces@.take(i as int));
            }
            if self.traces[i].0 == id {
                proof {
                    lemma_first_trace_prefix(self.traces@, id, i as int + 1);
                }
                return Some(&self.traces[i].1);
            }
            i = i + 1;
        }
        proof {
            assert(self.traces@.take(n as int) =~= self.traces@);
        }
        None
    }

    /// The numbers of all sessions, most recent (highest) first.
    pub fn list_ids(&self) -> (r: Vec<u64>)
        ensures
            descending(r@),
            r@.to_multiset() == ids_of(self.entries()).to_multiset(),
    {
        let n = self.sessions.len();
        let ghost ids = ids_of(self.sessions@);
        let mut out: Vec<u64> = Vec::new();
        let mut i: usize = 0;
        while i < n
            invariant
                n == self.sessions@.len(),
                ids == ids_of(self.sessions@),
                i <= n,
                out@.len() == i,
                descending(out@),
                out@.to_multiset() == ids.take(i as int).to_multiset(),
            decreases n - i,
        {
            let x = self.sessions[i].id;
            let mut p: usize = 0;
            while p < out.len() && out[p] >= x
                invariant
                    p <= out@.len(),
                    forall|k: int| 0 <= k < p ==> out@[k] >= x,
                decreases out@.len() - p,
            {
                p = p + 1;
            }
            let ghost before = out@;
            out.insert(p, x);
            proof {
                assert(ids.take(i as int + 1) =~= ids.take(i as int).push(x));
                vstd::seq_lib::to_multiset_insert(before, p as int, x);
                assert forall|a: int, b: int| 0 <= a < b < out@.len() implies #[trigger] out@[b]
                    <= #[trigger] out@[a] by {
                    if b < p {
                        assert(out@[a] == before[a] && out@[b] == before[b]);
                    } else if b == p {
                        assert(out@[a] == before[a]);
                    } else if a < p {
                        assert(out@[a] == before[a] && out@[b] == before[b - 1]);
                        if p < before.len() {
                            assert(before[p as int] < x);
                            assert(before[b - 1] <= before[p as int]);
                        }
                    } else if a == p {
                        assert(out@[b] == before[b - 1]);
                        assert(before[p as int] < x);
                        assert(before[b - 1] <= before[p as int]);
                    } else {
                        assert(out@[a] == before[a - 1] && out@[b] == before[b - 1]);
                    }
                }
            }
            i = i + 1;
        }
        proof {
            assert(ids.take(n as int) =~= ids);
        }
        out
    }
}

/// Law: a table loaded from storage numbers its next session above every
/// loaded one, so a new session is never confused with an old one.
pub proof fn lemma_next_id_above_loaded<T, P>(existing: Seq<SessionData<T, P>>, k: int)
    requires
        0 <= k < existing.len(),
    ensures
        existing[k].id <= max_id(ids_of(existing)),
    decreases existing.len(),
{
    if k < existing.len() - 1 {
        lemma_next_id_above_loaded(existing.drop_last(), k);
        assert(ids_of(existing).drop_last() =~= ids_of(existing.drop_last()));
    }
}

proof fn lemma_first_with_bounds<T, P>(s: Seq<SessionData<T, P>>, id: u64)
    ensures
        first_with(s, id) matches Some(i) ==> 0 <= i < s.len() && s[i].id == id,
    decreases s.len(),
{
    if s.len() > 0 {
        lemma_first_with_bounds(s.drop_last(), id);
    }
}

proof fn lemma_first_trace_bounds<R>(s: Seq<(u64, R)>, id: u64)
    ensures
        first_trace(s, id) matches Some(i) ==> 0 <= i < s.len() && s[i].0 == id,
    decreases s.len(),
{
    if s.len() > 0 {
        lemma_first_trace_bounds(s.drop_last(), id);
    }
}

proof fn lemma_first_with_prefix<T, P>(s: Seq<SessionData<T, P>>, id: u64, k: int)
    requires
        1 <= k <= s.len(),
        first_with(s.take(k - 1), id) is None,
        s[k - 1].id == id,
    ensures
        first_with(s, id) == Some(k - 1),
    decreases s.len() - k,
{
    assert(s.take(k).drop_last() =~= s.take(k - 1));
    if k < s.len() {
        assert(s.drop_last().take(k) =~= s.take(k));
        assert(s.drop_last().take(k - 1) =~= s.take(k - 1));
        lemma_first_with_prefix(s.drop_last(), id, k);
    } else {
        assert(s.take(k) =~= s);
    }
}

proof fn lemma_first_trace_prefix<R>(s: Seq<(u64, R)>, id: u64, k: int)
    requires
        1 <= k <= s.len(),
        first_trace(s.take(k - 1), id) is None,
        s[k - 1].0 == id,
    ensures
        first_trace(s, id) == Some(k - 1),
    decreases s.len() - k,
{
    assert(s.take(k).drop_last() =~= s.take(k - 1));
    if k < s.len() {
        assert(s.drop_last().take(k) =~= s.take(k));
        assert(s.drop_last().take(k - 1) =~= s.take(k - 1));
        lemma_first_trace_prefix(s.drop_last(), id, k);
    } else {
        assert(s.take(k) =~= s);
    }
}

} // verus!
