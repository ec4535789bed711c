//! Acquisition leases: the operational right of a consumer to an
//! observation stream, and the subscription each channel needs.
//!
//! A channel is subscribed at the device transport exactly while at least
//! one lease on it is active, at the highest rate any of its leases asks for.
//! The lease table decides; each operation returns the subscription change
//! the caller applies to its transport.

use vstd::prelude::*;

verus! {

/// Identifier of an observation channel.
pub type ChannelId = String;

/// Unique identifier of an acquisition lease.
#[derive(Debug, Clone, Copy, PartialEq, Eq, Hash, Structural)]
pub struct LeaseId(pub u64);

/// Desired sampling policy for an acquisition stream.
#[derive(Debug, Clone, Copy, PartialEq, Eq, Structural)]
pub enum SamplingRequirement {
    Continuous { target_hz: u32 },
    OnDemand,
}

/// Desired sampling policy for an observation stream of the interconnection
/// layer.
#[derive(Debug, Clone, Copy, PartialEq, Eq, Structural)]
pub enum SamplingPolicy {
    Continuous { target_hz: u32 },
    OnDemand,
}

/// Operational requirement for a channel observation stream.
#[derive(Debug, PartialEq, Eq)]
pub struct AcquisitionRequirement {
    pub channel_id: ChannelId,
    pub sampling: SamplingRequirement,
    pub required: bool,
}

/// Operational requirement of a consumer towards the interconnection layer.
#[derive(Debug, PartialEq, Eq)]
pub struct ObservationRequirement {
    pub channel_id: ChannelId,
    pub sampling: SamplingPolicy,
    pub mandatory: bool,
}

/// Handle representing an operational right to an active acquisition stream.
#[derive(Debug, PartialEq, Eq)]
pub struct AcquisitionLease {
    pub id: LeaseId,
    pub channel_id: ChannelId,
    pub target_hz: u32,
}

/// A subscription request to the device transport.
#[derive(Debug, PartialEq, Eq)]
pub struct ChannelSubscription {
    pub channel_id: ChannelId,
    pub target_hz: u32,
}

/// The change of transport subscription an operation requires.
#[derive(Debug, PartialEq, Eq)]
pub enum SubscriptionUpdate {
    /// (Re)subscribe the channel at the given rate.
    Subscribe(ChannelSubscription),
    /// The last lease of the channel is gone: unsubscribe it.
    Unsubscribe(ChannelId),
    /// The transport is left as it is.
    Unchanged,
}

/// One active lease.
#[derive(Debug)]
pub struct LeaseRecord {
    pub id: u64,
    pub channel_id: ChannelId,
    pub target_hz: u32,
}

/// Rate asked for by a sampling requirement (`OnDemand` asks for 1 Hz).
pub open spec fn requested_hz(s: SamplingRequirement) -> u32 {
    match s {
        SamplingRequirement::Continuous { target_hz } => target_hz,
        SamplingRequirement::OnDemand => 1,
    }
}

/// Number of active leases on channel `ch`.
pub open spec fn lease_count(s: Seq<LeaseRecord>, ch: Seq<char>) -> nat
    decreases s.len(),
{
    if s.len() == 0 {
        0
    } else {
        lease_count(s.drop_last(), ch) + if s.last().channel_id@ == ch {
            1nat
        } else {
            0nat
        }
    }
}

/// Highest rate asked for by the leases on channel `ch` (0 when none).
pub open spec fn max_hz(s: Seq<LeaseRecord>, ch: Seq<char>) -> u32
    decreases s.len(),
{
    if s.len() == 0 {
        0
    } else {
        let m = max_hz(s.drop_last(), ch);
        if s.last().channel_id@ == ch && s.last().target_hz > m {
            s.last().target_hz
        } else {
            m
        }
    }
}

/// The leases of `s` but the ones with identifier `id` on channel `ch`.
pub open spec fn without_lease(s: Seq<LeaseRecord>, ch: Seq<char>, id: u64) -> Seq<LeaseRecord>
    decreases s.len(),
{
    if s.len() == 0 {
        s
    } else {
        let rest = without_lease(s.drop_last(), ch, id);
        if s.last().channel_id@ == ch && s.last().id == id {
            rest
        } else {
            rest.push(s.last())
        }
    }
}

/// The subscription a channel needs once its leases are `s`.
pub open spec fn needed_update(s: Seq<LeaseRecord>, ch: Seq<char>, u: SubscriptionUpdate) -> bool {
    if lease_count(s, ch) == 0 {
        u matches SubscriptionUpdate::Unsubscribe(c) && c@ == ch
    } else {
        u matches SubscriptionUpdate::Subscribe(sub) && sub.channel_id@ == ch && sub.target_hz
            == max_hz(s, ch)
    }
}

/// The active leases of an acquisition runtime.
#[derive(Debug)]
pub struct AcquisitionLeases {
    records: Vec<LeaseRecord>,
    next_lease_id: u64,
}

impl AcquisitionLeases {
    /// Active leases, in acquisition order.
    pub closed spec fn records(&self) -> Seq<LeaseRecord> {
        self.records@
    }

    /// Identifier the next lease receives.
    pub closed spec fn next_id(&self) -> u64 {
        self.next_lease_id
    }

    /// Every active lease has an identifier below the next one to be issued.
    pub open spec fn wf(&self) -> bool {
        forall|i: int| 0 <= i < self.records().len() ==> (#[trigger] self.records()[i]).id < self.next_id()
    }

    pub fn new() -> (r: Self)
        ensures
            r.records() == Seq::<LeaseRecord>::empty(),
            r.next_id() == 1,
            r.wf(),
    {
        AcquisitionLeases { records: Vec::new(), next_lease_id: 1 }
    }

    /// Number of active leases on `channel_id`.
    pub fn active_lease_count(&self, channel_id: &ChannelId) -> (n: usize)
        ensures
            n == lease_count(self.records(), channel_id@),
    {
        let len = self.records.len();
        let mut n: usize = 0;
        let mut i: usize = 0;
        while i < len
            invariant
                len == self.records@.len(),
                i <= len,
                n == lease_count(self.records@.take(i as int), channel_id@),
                n <= i,
            decreases len - i,
        {
            proof {
                assert(self.records@.take(i as int + 1).drop_last() =~= self.records@.take(
                    i as int,
                ));
            }
            if self.records[i].channel_id == *channel_id {
                n = n + 1;
            }
            i = i + 1;
        }
        proof {
            assert(self.records@.take(len as int) =~= self.records@);
        }
        n
    }

    /// Highest rate asked for on `channel_id` by its active leases.
    pub fn max_target_hz(&self, channel_id: &ChannelId) -> (hz: u32)
        ensures
            hz == max_hz(self.records(), channel_id@),
    {
        let len = self.records.len();
        let mut m: u32 = 0;
        let mut i: usize = 0;
        while i < len
            invariant
                len == self.records@.len(),
                i <= len,
                m == max_hz(self.records@.take(i as int), channel_id@),
            decreases len - i,
        {
            proof {
                assert(self.records@.take(i as int + 1).drop_last() =~= self.records@.take(
                    i as int,
                ));
            }
            if self.records[i].channel_id == *channel_id && self.records[i].target_hz > m {
                m = self.records[i].target_hz;
            }
            i = i + 1;
        }
        proof {
            assert(self.records@.take(len as int) =~= self.records@);
        }
        m
    }

    /// Acquires a lease for `req`: records it and asks for the channel to be
    /// subscribed at the highest rate among its leases.
    pub fn acquire_lease(&mut self, req: &AcquisitionRequirement) -> (r: (
        AcquisitionLease,
        SubscriptionUpdate,
    ))
        requires
            old(self).next_id() < u64::MAX,
        ensures
            r.0.id == LeaseId(old(self).next_id()),
            r.0.channel_id@ == req.channel_id@,
            r.0.target_hz == requested_hz(req.sampling),
            final(self).next_id() == old(self).next_id() + 1,
            final(self).records().len() == old(self).records().len() + 1,
            final(self).records().drop_last() == old(self).records(),
            final(self).records().last().id == old(self).next_id(),
            final(self).records().last().channel_id@ == req.channel_id@,
            final(self).records().last().target_hz == requested_hz(req.sampling),
            r.1 matches SubscriptionUpdate::Subscribe(sub) && sub.channel_id@ == req.channel_id@
                && sub.target_hz == max_hz(final(self).records(), req.channel_id@),
            old(self).wf() ==> final(self).wf(),
    {
        let target_hz = match req.sampling {
            SamplingRequirement::Continuous { target_hz } => target_hz,
            SamplingRequirement::OnDemand => 1,
        };
        let id = self.next_lease_id;
        self.next_lease_id = id + 1;
        self.records.push(LeaseRecord { id, channel_id: req.channel_id.clone(), target_hz });
        let max = self.max_target_hz(&req.channel_id);
        (
            AcquisitionLease { id: LeaseId(id), channel_id: req.channel_id.clone(), target_hz },
            SubscriptionUpdate::Subscribe(
                ChannelSubscription { channel_id: req.channel_id.clone(), target_hz: max },
            ),
        )
    }

    /// Releases `lease`. A channel without active leases is left alone;
    /// otherwise the lease is dropped and the channel is unsubscribed when it
    /// was its last lease, or resubscribed at the highest remaining rate.
    pub fn release_lease(&mut self, lease: &AcquisitionLease) -> (u: SubscriptionUpdate)
        ensures
            final(self).next_id() == old(self).next_id(),
            lease_count(old(self).records(), lease.channel_id@) == 0 ==> final(self).records()
                == old(self).records() && u == SubscriptionUpdate::Unchanged,
            lease_count(old(self).records(), lease.channel_id@) > 0 ==> final(self).records()
                == without_lease(old(self).records(), lease.channel_id@, lease.id.0) && needed_update(
                final(self).records(),
                lease.channel_id@,
                u,
            ),
            old(self).wf() ==> final(self).wf(),
    {
        if self.active_lease_count(&lease.channel_id) == 0 {
            return SubscriptionUpdate::Unchanged;
        }
        let len = self.records.len();
        let mut kept: Vec<LeaseRecord> = Vec::new();
        let ghost old_records = self.records@;
        let mut i: usize = 0;
        while i < len
            invariant
                len == self.records@.len(),
                self.records@ == old_records,
                i <= len,
                kept@ == without_lease(old_records.take(i as int), lease.channel_id@, lease.id.0),
                forall|k: int| 0 <= k < kept@.len() ==> exists|j: int| 0 <= j < i && #[trigger] kept@[k] == old_records[j],
            decreases len - i,
        {
            proof {
                assert(old_records.take(i as int + 1).drop_last() =~= old_records.take(i as int));
            }
            let rec = &self.records[i];
            if !(rec.channel_id == lease.channel_id && rec.id == lease.id.0) {
                let copy = LeaseRecord {
                    id: rec.id,
                    channel_id: rec.channel_id.clone(),
                    target_hz: rec.target_hz,
                };
                kept.push(copy);
            }
            i = i + 1;
        }
        proof {
            assert(old_records.take(len as int) =~= old_records);
        }
        self.records = kept;
        if self.active_lease_count(&lease.channel_id) == 0 {
            SubscriptionUpdate::Unsubscribe(lease.channel_id.clone())
        } else {
            let max = self.max_target_hz(&lease.channel_id);
            SubscriptionUpdate::Subscribe(
                ChannelSubscription { channel_id: lease.channel_id.clone(), target_hz: max },
            )
        }
    }
}

/// Law: the subscribed rate of a channel serves every lease on it: it is at
/// least the rate of each active lease on the channel, and it is the rate of
/// one of them when the channel has any lease.
pub proof fn lemma_max_hz_serves_every_lease(s: Seq<LeaseRecord>, ch: Seq<char>)
    ensures
        forall|i: int|
            0 <= i < s.len() && (#[trigger] s[i]).channel_id@ == ch ==> s[i].target_hz <= max_hz(s, ch),
        lease_count(s, ch) > 0 ==> exists|i: int|
            0 <= i < s.len() && (#[trigger] s[i]).channel_id@ == ch && s[i].target_hz == max_hz(s, ch),
        lease_count(s, ch) == 0 ==> max_hz(s, ch) == 0,
    decreases s.len(),
{
    if s.len() > 0 {
        let init = s.drop_last();
        lemma_max_hz_serves_every_lease(init, ch);
        assert forall|i: int| 0 <= i < init.len() implies #[trigger] s[i] == init[i] by {}
    }
}

/// Law: acquiring a lease and releasing it again returns the table to the
/// leases it held before, provided no earlier lease on that channel carried
/// the same identifier (which `wf` guarantees for issued leases).
pub proof fn lemma_release_undoes_acquire(s: Seq<LeaseRecord>, x: LeaseRecord)
    requires
        forall|i: int| 0 <= i < s.len() ==> (#[trigger] s[i]).id != x.id,
    ensures
        without_lease(s.push(x), x.channel_id@, x.id) == s,
    decreases s.len(),
{
    lemma_without_absent(s, x.channel_id@, x.id);
    assert(s.push(x).drop_last() =~= s);
}

proof fn lemma_without_absent(s: Seq<LeaseRecord>, ch: Seq<char>, id: u64)
    requires
        forall|i: int| 0 <= i < s.len() ==> (#[trigger] s[i]).id != id,
    ensures
        without_lease(s, ch, id) == s,
    decreases s.len(),
{
    if s.len() > 0 {
        assert forall|i: int| 0 <= i < s.len() - 1 implies (#[trigger] s.drop_last()[i]).id != id by {
        }
        lemma_without_absent(s.drop_last(), ch, id);
    }
}

} // verus!
