//! Bounded, versioned undo history of applied commands.
//!
//! Entries are kept in apply order; undo pops the newest in constant time.
//! Every mutation (push, a pop that removes an entry, clear) bumps a
//! monotonic version, so an undo that peeked `(last, version)` can detect a
//! concurrent mutation before it commits. At capacity, a push evicts the
//! oldest entry; a zero capacity disables retention.

use vstd::prelude::*;

verus! {

/// Default maximum number of retained applied commands.
pub const DEFAULT_HISTORY_CAP: usize = 100;

/// Bounded, versioned history of entries of type `E`.
#[derive(Debug)]
pub struct CommandHistory<E> {
    entries: Vec<E>,
    version: u64,
    cap: usize,
}

/// The retained entries after pushing `e` onto `entries` with capacity `cap`.
pub open spec fn pushed<E>(entries: Seq<E>, cap: nat, e: E) -> Seq<E> {
    if cap == 0 {
        entries
    } else if entries.len() >= cap {
        entries.subrange(1, entries.len() as int).push(e)
    } else {
        entries.push(e)
    }
}

impl<E> CommandHistory<E> {
    /// Retained entries, oldest first.
    pub closed spec fn entries(&self) -> Seq<E> {
        self.entries@
    }

    /// Number of mutations applied so far.
    pub closed spec fn version_spec(&self) -> u64 {
        self.version
    }

    /// Maximum number of retained entries.
    pub closed spec fn cap_spec(&self) -> usize {
        self.cap
    }

    /// Empty history with the default capacity.
    pub fn new() -> (h: Self)
        ensures
            h.entries() == Seq::<E>::empty(),
            h.version_spec() == 0,
            h.cap_spec() == DEFAULT_HISTORY_CAP,
    {
        CommandHistory { entries: Vec::new(), version: 0, cap: DEFAULT_HISTORY_CAP }
    }

    /// Empty history retaining at most `cap` entries.
    pub fn with_cap(cap: usize) -> (h: Self)
        ensures
            h.entries() == Seq::<E>::empty(),
            h.version_spec() == 0,
            h.cap_spec() == cap,
    {
        CommandHistory { entries: Vec::new(), version: 0, cap }
    }

    /// Reconfigures the capacity; existing entries are kept.
    pub fn set_cap(&mut self, cap: usize)
        ensures
            final(self).cap_spec() == cap,
            final(self).entries() == old(self).entries(),
            final(self).version_spec() == old(self).version_spec(),
    {
        self.cap = cap;
    }

    /// Current history version.
    pub fn version(&self) -> (v: u64)
        ensures
            v == self.version_spec(),
    {
        self.version
    }

    /// Appends an entry; at capacity the oldest entry is evicted first, and
    /// with a zero capacity nothing is retained. The version always bumps.
    pub fn push(&mut self, entry: E)
        requires
            old(self).version_spec() < u64::MAX,
        ensures
            final(self).entries() == pushed(old(self).entries(), old(self).cap_spec() as nat, entry),
            final(self).version_spec() == old(self).version_spec() + 1,
            final(self).version_spec() == version_after_push(old(self).version_spec() as nat),
            final(self).cap_spec() == old(self).cap_spec(),
    {
        if self.cap > 0 {
            if self.entries.len() >= self.cap {
                self.entries.remove(0);
            }
            self.entries.push(entry);
        }
        self.version = self.version + 1;
    }

    /// Removes and returns the newest entry; the version bumps only when an
    /// entry was removed.
    pub fn pop(&mut self) -> (r: Option<E>)
        requires
            old(self).entries().len() > 0 ==> old(self).version_spec() < u64::MAX,
        ensures
            old(self).entries().len() == 0 ==> r is None && final(self).entries() == old(
                self,
            ).entries() && final(self).version_spec() == old(self).version_spec(),
            old(self).entries().len() > 0 ==> r == Some(old(self).entries().last())
                && final(self).entries() == old(self).entries().drop_last()
                && final(self).version_spec() == old(self).version_spec() + 1,
            final(self).version_spec() == version_after_pop(
                old(self).entries(),
                old(self).version_spec() as nat,
            ),
            final(self).cap_spec() == old(self).cap_spec(),
    {
        let popped = self.entries.pop();
        if popped.is_some() {
            self.version = self.version + 1;
        }
        popped
    }

    /// The newest entry, if any.
    pub fn last(&self) -> (r: Option<&E>)
        ensures
            self.entries().len() == 0 ==> r is None,
            self.entries().len() > 0 ==> r == Some(&self.entries().last()),
    {
        let n = self.entries.len();
        if n == 0 {
            None
        } else {
            Some(&self.entries[n - 1])
        }
    }

    /// The newest entry together with the current version, read together.
    pub fn last_with_version(&self) -> (r: (Option<&E>, u64))
        ensures
            self.entries().len() == 0 ==> r.0 is None,
            self.entries().len() > 0 ==> r.0 == Some(&self.entries().last()),
            r.1 == self.version_spec(),
    {
        (self.last(), self.version)
    }

    /// Removes every entry; a mutation like any other, so the version bumps.
    pub fn clear(&mut self)
        requires
            old(self).version_spec() < u64::MAX,
        ensures
            final(self).entries() == Seq::<E>::empty(),
            final(self).version_spec() == old(self).version_spec() + 1,
            final(self).cap_spec() == old(self).cap_spec(),
    {
        self.entries.clear();
        self.version = self.version + 1;
    }

    pub fn len(&self) -> (n: usize)
        ensures
            n == self.entries().len(),
    {
        self.entries.len()
    }

    pub fn is_empty(&self) -> (b: bool)
        ensures
            b == (self.entries().len() == 0),
    {
        self.entries.len() == 0
    }
}

impl<E> Default for CommandHistory<E> {
    fn default() -> (h: Self)
        ensures
            h.entries() == Seq::<E>::empty(),
            h.version_spec() == 0,
            h.cap_spec() == DEFAULT_HISTORY_CAP,
    {
        Self::new()
    }
}

/// The version after a push from version `v`: every push counts.
pub open spec fn version_after_push(v: nat) -> nat {
    v + 1
}

/// The version after a pop from `entries` at version `v`: only a pop that
/// removes an entry counts.
pub open spec fn version_after_pop<E>(entries: Seq<E>, v: nat) -> nat {
    if entries.len() > 0 {
        v + 1
    } else {
        v
    }
}

/// The entries and version after `k` pops from `entries` at version `v`.
pub open spec fn after_pops<E>(entries: Seq<E>, v: nat, k: nat) -> (Seq<E>, nat)
    decreases k,
{
    if k == 0 {
        (entries, v)
    } else {
        let (e, w) = after_pops(entries, v, (k - 1) as nat);
        (if e.len() > 0 {
            e.drop_last()
        } else {
            e
        }, version_after_pop(e, w))
    }
}

/// Law: a pop counts as a mutation only when it removes an entry: popping
/// `k` times from `n` entries at version `v` leaves the oldest `n - k`
/// entries at version `v + k` while `k <= n`, and further pops leave the
/// empty history at version `v + n`.
pub proof fn lemma_pops_count<E>(entries: Seq<E>, v: nat, k: nat)
    ensures
        k <= entries.len() ==> after_pops(entries, v, k) == (
            entries.subrange(0, entries.len() - k),
            v + k,
        ),
        k > entries.len() ==> after_pops(entries, v, k) == (Seq::<E>::empty(), v + entries.len()),
    decreases k,
{
    if k > 0 {
        lemma_pops_count(entries, v, (k - 1) as nat);
        if k <= entries.len() {
            assert(entries.subrange(0, entries.len() - (k - 1)).drop_last() =~= entries.subrange(
                0,
                entries.len() - k,
            ));
        } else if k - 1 == entries.len() {
            assert(entries.subrange(0, entries.len() - (k - 1)) =~= Seq::<E>::empty());
        }
    } else {
        assert(entries.subrange(0, entries.len() as int) =~= entries);
    }
}

/// Law: undoing a push counts as a mutation of its own: from version `v`, a
/// push followed by a pop leaves version `v + 2` whenever the history can
/// hold entries.
pub proof fn lemma_push_pop_versions<E>(entries: Seq<E>, cap: nat, e: E, v: nat)
    requires
        cap > 0,
    ensures
        version_after_pop(pushed(entries, cap, e), version_after_push(v)) == v + 2,
{
}

/// Law: undo takes back exactly the last push. Below capacity, pushing `e`
/// and then popping returns `e` and restores the retained entries.
pub proof fn lemma_pop_undoes_push<E>(entries: Seq<E>, cap: nat, e: E)
    requires
        cap > 0,
        entries.len() < cap,
    ensures
        pushed(entries, cap, e).last() == e,
        pushed(entries, cap, e).drop_last() == entries,
{
    assert(entries.push(e).drop_last() =~= entries);
}

/// Law: with a positive capacity a push never lets the history exceed its
/// capacity, always retains the pushed entry as the newest one, and keeps the
/// newest `cap - 1` older entries in order.
pub proof fn lemma_push_is_bounded<E>(entries: Seq<E>, cap: nat, e: E)
    requires
        cap > 0,
        entries.len() <= cap,
    ensures
        pushed(entries, cap, e).len() <= cap,
        pushed(entries, cap, e).last() == e,
        pushed(entries, cap, e).drop_last() == (if entries.len() == cap {
            entries.subrange(1, entries.len() as int)
        } else {
            entries
        }),
{
    if entries.len() == cap {
        assert(entries.subrange(1, entries.len() as int).push(e).drop_last() =~= entries.subrange(
            1,
            entries.len() as int,
        ));
    } else {
        assert(entries.push(e).drop_last() =~= entries);
    }
}

/// Law: after any number of pushes into a history with positive capacity
/// `cap`, exactly the newest `min(n, cap)` pushed entries survive, in order.
pub proof fn lemma_pushes_keep_newest<E>(pushes: Seq<E>, cap: nat)
    requires
        cap > 0,
    ensures
        pushed_all(pushes, cap) == pushes.subrange(
            if pushes.len() > cap {
                pushes.len() - cap
            } else {
                0
            },
            pushes.len() as int,
        ),
    decreases pushes.len(),
{
    if pushes.len() > 0 {
        let init = pushes.drop_last();
        lemma_pushes_keep_newest(init, cap);
        let lo = if init.len() > cap {
            init.len() - cap
        } else {
            0
        };
        let prev = init.subrange(lo, init.len() as int);
        if prev.len() >= cap {
            assert(prev.subrange(1, prev.len() as int).push(pushes.last()) =~= pushes.subrange(
                pushes.len() - cap,
                pushes.len() as int,
            ));
        } else {
            assert(prev.push(pushes.last()) =~= pushes.subrange(
                if pushes.len() > cap {
                    pushes.len() - cap
                } else {
                    0
                },
                pushes.len() as int,
            ));
        }
    }
}

/// The retained entries after pushing each of `pushes`, in order, onto an
/// empty history with capacity `cap`.
pub open spec fn pushed_all<E>(pushes: Seq<E>, cap: nat) -> Seq<E>
    decreases pushes.len(),
{
    if pushes.len() == 0 {
        Seq::empty()
    } else {
        pushed(pushed_all(pushes.drop_last(), cap), cap, pushes.last())
    }
}

} // verus!
