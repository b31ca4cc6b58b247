//! Per-slot claim engine: given an epoch and a slot, decides whether one of
//! the local authority keys may author that slot. A primary claim rests on a
//! VRF evaluation below the authority's threshold; failing that, a secondary
//! claim rests on the slot's round-robin author being local. The decision is
//! a pure function of its inputs: the VRF capability and the keystore are
//! external collaborators, so their evaluations enter as plain values, one
//! per local key.

use vstd::prelude::*;

use crate::epoch::{Authority, Epoch};
use crate::SlotNumber;

verus! {

/// What the external VRF capability returns for one (epoch randomness, slot,
/// key) transcript: the output checked against the threshold, and the
/// verifiable evidence carried into the claim.
#[derive(Clone, Copy, Debug, PartialEq, Eq, Structural)]
pub struct VrfEvaluation {
    pub output: u64,
    pub vrf_proof: u64,
}

/// Evidence that the local validator may author a slot. A claim always
/// references the authority that produced it: a primary claim by key, a
/// secondary claim by its index in the epoch's authority list.
#[derive(Clone, Copy, Debug, PartialEq, Eq, Structural)]
pub enum Claim {
    /// The VRF output for the slot fell below the authority's threshold.
    Primary { threshold: u128, key: u64, vrf_output: u64, vrf_proof: u64 },
    /// The slot's round-robin author is a local key.
    Secondary { authority_index: u64 },
}

/// Position of `key` among the local keys (first occurrence), if present.
pub open spec fn spec_key_index(keys: Seq<u64>, key: u64) -> Option<int>
    decreases keys.len(),
{
    if keys.len() == 0 {
        None
    } else if keys[0] == key {
        Some(0int)
    } else {
        match spec_key_index(keys.drop_first(), key) {
            Some(j) => Some(j + 1),
            None => None,
        }
    }
}

/// The primary claim of the first authority, in epoch-authority-list order,
/// that is local and whose VRF output is below its threshold.
pub open spec fn spec_primary_claim(
    auths: Seq<Authority>,
    keys: Seq<u64>,
    evals: Seq<VrfEvaluation>,
) -> Option<Claim>
    decreases auths.len(),
{
    if auths.len() == 0 {
        None
    } else {
        let a = auths[0];
        match spec_key_index(keys, a.key) {
            Some(j) => if (evals[j].output as u128) < a.threshold {
                Some(
                    Claim::Primary {
                        threshold: a.threshold,
                        key: a.key,
                        vrf_output: evals[j].output,
                        vrf_proof: evals[j].vrf_proof,
                    },
                )
            } else {
                spec_primary_claim(auths.drop_first(), keys, evals)
            },
            None => spec_primary_claim(auths.drop_first(), keys, evals),
        }
    }
}

/// The secondary claim for the slot's round-robin author, if that authority
/// is a local key.
pub open spec fn spec_secondary_claim(
    slot: SlotNumber,
    auths: Seq<Authority>,
    keys: Seq<u64>,
) -> Option<Claim> {
    if auths.len() == 0 {
        None
    } else {
        let idx = slot as int % auths.len() as int;
        if spec_key_index(keys, auths[idx].key) is Some {
            Some(Claim::Secondary { authority_index: idx as u64 })
        } else {
            None
        }
    }
}

/// The claim for a slot: the first primary claim if any local key qualifies,
/// otherwise the secondary claim if the round-robin author is local.
pub open spec fn spec_claim_slot(
    slot: SlotNumber,
    auths: Seq<Authority>,
    keys: Seq<u64>,
    evals: Seq<VrfEvaluation>,
) -> Option<Claim> {
    match spec_primary_claim(auths, keys, evals) {
        Some(c) => Some(c),
        None => spec_secondary_claim(slot, auths, keys),
    }
}

/// Position of `key` among the local keys (first occurrence), if present.
pub fn key_index(keys: &Vec<u64>, key: u64) -> (r: Option<usize>)
    ensures
        match r {
            Some(j) => j < keys.len() && spec_key_index(keys@, key) == Some(j as int),
            None => spec_key_index(keys@, key) is None,
        },
{
    let ghost s = keys@;
    proof {
        assert(s.skip(0) =~= s);
    }
    let mut i: usize = 0;
    while i < keys.len()
        invariant
            i <= keys.len(),
            s == keys@,
            spec_key_index(s, key) == (match spec_key_index(s.skip(i as int), key) {
                Some(j) => Some(j + i as int),
                None => None::<int>,
            }),
        decreases keys.len() - i,
    {
        proof {
            assert(s.skip(i as int)[0] == s[i as int]);
            assert(s.skip(i as int).drop_first() =~= s.skip(i as int + 1));
        }
        if keys[i] == key {
            return Some(i);
        }
        i = i + 1;
    }
    proof {
        assert(s.skip(i as int) =~= Seq::<u64>::empty());
    }
    None
}

/// Decides whether a local key may author `slot` under `epoch`. For each
/// authority in epoch-list order, a local key whose VRF output is below the
/// authority's threshold yields a primary claim; if none qualifies and the
/// slot's round-robin author is local, a secondary claim is returned. At
/// most one claim per call; `evals` carries the VRF evaluation for each
/// local key over this slot's transcript.
pub fn claim_slot(
    slot: SlotNumber,
    epoch: &Epoch,
    local_keys: &Vec<u64>,
    evals: &Vec<VrfEvaluation>,
) -> (r: Option<Claim>)
    requires
        evals@.len() == local_keys@.len(),
    ensures
        r == spec_claim_slot(slot, epoch.authorities@, local_keys@, evals@),
{
    let auths = &epoch.authorities;
    let ghost aseq = auths@;
    proof {
        assert(aseq.skip(0) =~= aseq);
    }
    let mut i: usize = 0;
    while i < auths.len()
        invariant
            i <= auths.len(),
            aseq == auths@,
            aseq == epoch.authorities@,
            evals@.len() == local_keys@.len(),
            spec_primary_claim(aseq, local_keys@, evals@) == spec_primary_claim(
                aseq.skip(i as int),
                local_keys@,
                evals@,
            ),
        decreases auths.len() - i,
    {
        proof {
            assert(aseq.skip(i as int)[0] == aseq[i as int]);
            assert(aseq.skip(i as int).drop_first() =~= aseq.skip(i as int + 1));
        }
        let a = auths[i];
        match key_index(local_keys, a.key) {
            Some(j) => {
                if (evals[j].output as u128) < a.threshold {
                    return Some(
                        Claim::Primary {
                            threshold: a.threshold,
                            key: a.key,
                            vrf_output: evals[j].output,
                            vrf_proof: evals[j].vrf_proof,
                        },
                    );
                }
            },
            None => {},
        }
        i = i + 1;
    }
    proof {
        assert(aseq.skip(i as int) =~= Seq::<Authority>::empty());
    }
    if auths.len() > 0 {
        let idx = (slot % (auths.len() as u64)) as usize;
        if key_index(local_keys, auths[idx].key).is_some() {
            return Some(Claim::Secondary { authority_index: idx as u64 });
        }
    }
    None
}

/// Claiming is deterministic: two evaluations of identical inputs return
/// identical claims, same tag and same payload. Independent nodes evaluating
/// the same epoch and slot with the same keys and VRF evaluations agree.
pub proof fn lemma_claim_slot_deterministic(
    slot: SlotNumber,
    auths: Seq<Authority>,
    keys: Seq<u64>,
    evals: Seq<VrfEvaluation>,
    r1: Option<Claim>,
    r2: Option<Claim>,
)
    requires
        r1 == spec_claim_slot(slot, auths, keys, evals),
        r2 == spec_claim_slot(slot, auths, keys, evals),
    ensures
        r1 == r2,
{
}

/// Primary claims are preferred: if any local key's VRF output qualifies for
/// a primary claim on this slot, the engine never answers with a secondary
/// claim.
pub proof fn lemma_primary_preferred(
    slot: SlotNumber,
    auths: Seq<Authority>,
    keys: Seq<u64>,
    evals: Seq<VrfEvaluation>,
)
    requires
        exists|i: int|
            0 <= i < auths.len() && (spec_key_index(keys, (#[trigger] auths[i]).key) matches Some(
                j,
            ) && (evals[j].output as u128) < auths[i].threshold),
    ensures
        spec_claim_slot(slot, auths, keys, evals) matches Some(c) && c is Primary,
{
    lemma_primary_exists(auths, keys, evals);
}

proof fn lemma_primary_exists(auths: Seq<Authority>, keys: Seq<u64>, evals: Seq<VrfEvaluation>)
    requires
        exists|i: int|
            0 <= i < auths.len() && (spec_key_index(keys, (#[trigger] auths[i]).key) matches Some(
                j,
            ) && (evals[j].output as u128) < auths[i].threshold),
    ensures
        spec_primary_claim(auths, keys, evals) matches Some(c) && c is Primary,
    decreases auths.len(),
{
    let i = choose|i: int|
        0 <= i < auths.len() && (spec_key_index(keys, (#[trigger] auths[i]).key) matches Some(j)
            && (evals[j].output as u128) < auths[i].threshold);
    match spec_key_index(keys, auths[0].key) {
        Some(j) => {
            if (evals[j].output as u128) < auths[0].threshold {
            } else {
                assert(i != 0);
                assert(auths.drop_first()[i - 1] == auths[i]);
                lemma_primary_exists(auths.drop_first(), keys, evals);
            }
        },
        None => {
            assert(i != 0);
            assert(auths.drop_first()[i - 1] == auths[i]);
            lemma_primary_exists(auths.drop_first(), keys, evals);
        },
    }
}

} // verus!
