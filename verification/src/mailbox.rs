//! The mailbox through which the learner hands model snapshots to the actors:
//! one slot, in which a newer snapshot replaces the older one.

use vstd::prelude::*;

verus! {

/// A copy of the learner's parameters, with the version that the learner
/// gave it.
pub struct ModelSnapshot<P> {
    /// The version; later snapshots have higher ones.
    pub version: usize,
    /// The parameters, in whatever form the model hands them out.
    pub payload: P,
}

/// Whether a snapshot of version `version` may replace what the slot holds:
/// an empty slot takes any, a full one only a strictly higher version.
pub open spec fn accepts<P>(slot: Option<ModelSnapshot<P>>, version: usize) -> bool {
    match slot {
        None => true,
        Some(held) => version > held.version,
    }
}

/// The slot after a snapshot was offered: the snapshot where it is accepted,
/// else what the slot held.
pub open spec fn publish<P>(slot: Option<ModelSnapshot<P>>, snapshot: ModelSnapshot<P>) -> Option<
    ModelSnapshot<P>,
> {
    if accepts(slot, snapshot.version) {
        Some(snapshot)
    } else {
        slot
    }
}

/// The slot after the snapshots of `snapshots` were offered one after the other.
pub open spec fn publish_all<P>(
    slot: Option<ModelSnapshot<P>>,
    snapshots: Seq<ModelSnapshot<P>>,
) -> Option<ModelSnapshot<P>>
    decreases snapshots.len(),
{
    if snapshots.len() == 0 {
        slot
    } else {
        publish(publish_all(slot, snapshots.drop_last()), snapshots.last())
    }
}

/// `a` is no newer than `b`, an empty slot being older than any snapshot.
pub open spec fn no_newer<P>(a: Option<ModelSnapshot<P>>, b: Option<ModelSnapshot<P>>) -> bool {
    match (a, b) {
        (None, _) => true,
        (Some(_), None) => false,
        (Some(x), Some(y)) => x.version <= y.version,
    }
}

/// Whatever is offered, the version in the slot never falls, and a slot that
/// holds a snapshot never becomes empty.
pub proof fn law_versions_never_fall<P>(
    slot: Option<ModelSnapshot<P>>,
    snapshots: Seq<ModelSnapshot<P>>,
)
    ensures
        no_newer(slot, publish_all(slot, snapshots)),
    decreases snapshots.len(),
{
    if snapshots.len() > 0 {
        law_versions_never_fall(slot, snapshots.drop_last());
    }
}

/// Once a snapshot of version `v` was accepted, whatever is offered later
/// leaves a snapshot of version `v` or higher in the slot; so a reader never
/// sees an earlier one again.
pub proof fn law_accepted_version_stays<P>(
    slot: Option<ModelSnapshot<P>>,
    snapshot: ModelSnapshot<P>,
    later: Seq<ModelSnapshot<P>>,
)
    requires
        accepts(slot, snapshot.version),
    ensures
        publish_all(publish(slot, snapshot), later) is Some,
        publish_all(publish(slot, snapshot), later).unwrap().version >= snapshot.version,
{
    law_versions_never_fall(publish(slot, snapshot), later);
}

/// A snapshot whose version is not above the one in the slot changes nothing.
pub proof fn law_stale_publish_is_ignored<P>(
    slot: Option<ModelSnapshot<P>>,
    snapshot: ModelSnapshot<P>,
)
    requires
        slot is Some,
        snapshot.version <= slot.unwrap().version,
    ensures
        publish(slot, snapshot) == slot,
{
}

/// The slot that holds the latest model snapshot.
pub struct Mailbox<P> {
    slot: Option<ModelSnapshot<P>>,
}

impl<P> View for Mailbox<P> {
    type V = Option<ModelSnapshot<P>>;

    closed spec fn view(&self) -> Option<ModelSnapshot<P>> {
        self.slot
    }
}

impl<P> Mailbox<P> {
    /// An empty mailbox.
    pub fn new() -> (r: Mailbox<P>)
        ensures
            r@ is None,
    {
        Mailbox { slot: None }
    }

    /// Offers a snapshot. It replaces what the slot holds where its version is
    /// strictly higher, or the slot is empty; else nothing changes. Tells
    /// whether the snapshot was accepted.
    pub fn broadcast(&mut self, snapshot: ModelSnapshot<P>) -> (r: bool)
        ensures
            r == accepts(old(self)@, snapshot.version),
            final(self)@ == publish(old(self)@, snapshot),
    {
        let fresh: bool = match &self.slot {
            None => true,
            Some(held) => snapshot.version > held.version,
        };
        if fresh {
            self.slot = Some(snapshot);
        }
        fresh
    }

    /// The version of the snapshot in the slot, if there is one.
    pub fn version(&self) -> (r: Option<usize>)
        ensures
            r == match self@ {
                Some(held) => Some(held.version),
                None => None,
            },
    {
        match &self.slot {
            Some(held) => Some(held.version),
            None => None,
        }
    }

    /// The snapshot in the slot, if there is one.
    pub fn latest(&self) -> (r: Option<&ModelSnapshot<P>>)
        ensures
            match r {
                Some(held) => self@ == Some(*held),
                None => self@ is None,
            },
    {
        match &self.slot {
            Some(held) => Some(held),
            None => None,
        }
    }

    /// The snapshot in the slot, where it is newer than the version `seen`
    /// that a reader has applied already; a reader that has applied none
    /// gets whatever the slot holds.
    pub fn newer_than(&self, seen: Option<usize>) -> (r: Option<&ModelSnapshot<P>>)
        ensures
            match r {
                Some(held) => self@ == Some(*held) && accepts_after(seen, held.version),
                None => match self@ {
                    Some(held) => !accepts_after(seen, held.version),
                    None => true,
                },
            },
    {
        match &self.slot {
            Some(held) => {
                let fresh: bool = match seen {
                    None => true,
                    Some(v) => held.version > v,
                };
                if fresh {
                    Some(held)
                } else {
                    None
                }
            },
            None => None,
        }
    }
}

/// Whether a reader that has applied the version `seen`, or none, has yet to
/// apply the version `version`.
pub open spec fn accepts_after(seen: Option<usize>, version: usize) -> bool {
    match seen {
        None => true,
        Some(v) => version > v,
    }
}

} // verus!
