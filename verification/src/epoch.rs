//! Epoch data: the slot range, authority set and randomness that govern slot
//! claims on one fork segment.

use vstd::prelude::*;

use crate::SlotNumber;

verus! {

/// One authority that may author blocks during an epoch: its key, modelled
/// as a plain identifier, and the threshold a primary-slot VRF output is
/// checked against (the authority's stake weight, already evaluated).
#[derive(Clone, Copy, Debug, PartialEq, Eq, Structural)]
pub struct Authority {
    pub key: u64,
    pub threshold: u128,
}

/// An epoch: a contiguous slot range, the ordered authority set valid during
/// it, and the randomness that seeds claim computation. Identified by the
/// block at which it starts; that key lives in the registry entry.
#[derive(Debug)]
pub struct Epoch {
    pub start_slot: SlotNumber,
    pub duration: u64,
    pub authorities: Vec<Authority>,
    pub randomness: u64,
}

/// Field-wise equality of epoch data; the registry hands out copies, so
/// contracts compare contents rather than allocations.
pub open spec fn epoch_eq(a: Epoch, b: Epoch) -> bool {
    &&& a.start_slot == b.start_slot
    &&& a.duration == b.duration
    &&& a.randomness == b.randomness
    &&& a.authorities@ == b.authorities@
}

impl Epoch {
    /// A usable epoch lasts at least one slot and its slot range fits in the
    /// slot type.
    pub open spec fn wf(self) -> bool {
        &&& self.duration >= 1
        &&& self.start_slot + self.duration <= u64::MAX
    }

    /// Exclusive end of the epoch's slot range.
    pub open spec fn spec_end_slot(self) -> int {
        self.start_slot + self.duration
    }

    /// Exclusive end of the epoch's slot range.
    pub fn end_slot(&self) -> (r: u64)
        requires
            self.wf(),
        ensures
            r == self.spec_end_slot(),
    {
        self.start_slot + self.duration
    }

    /// Whether `slot` falls inside the epoch's slot range.
    pub open spec fn spec_contains_slot(self, slot: SlotNumber) -> bool {
        self.start_slot <= slot < self.spec_end_slot()
    }

    /// Whether `slot` falls inside the epoch's slot range.
    pub fn contains_slot(&self, slot: SlotNumber) -> (r: bool)
        ensures
            r == self.spec_contains_slot(slot),
    {
        self.start_slot <= slot && slot - self.start_slot < self.duration
    }

    /// A content-equal copy; the registry returns these so that callers
    /// borrow nothing from the tree.
    pub fn duplicate(&self) -> (r: Epoch)
        ensures
            epoch_eq(r, *self),
    {
        Epoch {
            start_slot: self.start_slot,
            duration: self.duration,
            authorities: clone_authorities(&self.authorities),
            randomness: self.randomness,
        }
    }
}

/// Element-wise copy of an authority list.
fn clone_authorities(v: &Vec<Authority>) -> (r: Vec<Authority>)
    ensures
        r@ == v@,
{
    let mut r: Vec<Authority> = Vec::new();
    let mut i: usize = 0;
    while i < v.len()
        invariant
            i <= v.len(),
            r@ == v@.subrange(0, i as int),
        decreases v.len() - i,
    {
        r.push(v[i]);
        proof {
            assert(v@.subrange(0, i as int + 1) =~= v@.subrange(0, i as int).push(v@[i as int]));
        }
        i = i + 1;
    }
    proof {
        assert(v@.subrange(0, v@.len() as int) =~= v@);
    }
    r
}

/// What the genesis epoch is made from when no transition has been recorded
/// yet: the caller-supplied genesis authority set, randomness and duration.
#[derive(Debug)]
pub struct GenesisConfig {
    pub duration: u64,
    pub authorities: Vec<Authority>,
    pub randomness: u64,
}

impl GenesisConfig {
    /// A usable genesis configuration lasts at least one slot per epoch.
    pub open spec fn wf(self) -> bool {
        self.duration >= 1
    }
}

/// The synthesized genesis epoch: it begins at the queried slot and carries
/// the genesis authority set and randomness.
pub open spec fn spec_genesis_epoch(cfg: GenesisConfig, slot: SlotNumber) -> Epoch {
    Epoch {
        start_slot: slot,
        duration: cfg.duration,
        authorities: cfg.authorities,
        randomness: cfg.randomness,
    }
}

/// Builds [`spec_genesis_epoch`] as a fresh value.
pub fn genesis_epoch(cfg: &GenesisConfig, slot: SlotNumber) -> (r: Epoch)
    ensures
        epoch_eq(r, spec_genesis_epoch(*cfg, slot)),
{
    Epoch {
        start_slot: slot,
        duration: cfg.duration,
        authorities: clone_authorities(&cfg.authorities),
        randomness: cfg.randomness,
    }
}

} // verus!
