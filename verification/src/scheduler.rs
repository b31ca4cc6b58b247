//! Authorship scheduler: replays the slot-claim engine over an entire
//! epoch's slot range to answer "which slots may we author". A read-only
//! diagnostic path: it consults the registry and the claim engine and never
//! touches block production. The surrounding node runs it on an isolated
//! single-purpose execution context so a long VRF sweep cannot delay slot
//! production, and hands the result back over a one-shot reply path; the
//! sweep itself is decided and verified here.

use vstd::prelude::*;

use crate::chain::{spec_block_number, Chain};
use crate::claim::{claim_slot, spec_claim_slot, Claim, VrfEvaluation};
use crate::epoch::epoch_eq;
use crate::registry::{
    lemma_walk_all_range, lemma_walk_from_entries, spec_epoch_for_slot, spec_epoch_walk,
    EpochRegistry,
};
use crate::{Error, SlotNumber};

verus! {

/// One entry of an epoch schedule: the claim our keys hold for a slot.
#[derive(Clone, Copy, Debug, PartialEq, Eq, Structural)]
pub struct SlotAuthorship {
    pub slot_number: SlotNumber,
    pub claim: Claim,
}

/// Rows of the VRF table as mathematical sequences, one row per slot.
pub open spec fn spec_vrf_rows(vrf: Seq<Vec<VrfEvaluation>>) -> Seq<Seq<VrfEvaluation>> {
    Seq::new(vrf.len(), |i: int| vrf[i]@)
}

/// The claim for `slot` on the fork of the current best head: the governing
/// epoch's claim, or nothing where the epoch lookup fails.
pub open spec fn spec_slot_claim(
    c: Chain,
    reg: EpochRegistry,
    keys: Seq<u64>,
    slot: SlotNumber,
    evals: Seq<VrfEvaluation>,
) -> Option<Claim> {
    match spec_epoch_for_slot(c, reg, c.best, slot) {
        Ok(e) => spec_claim_slot(slot, e.authorities@, keys, evals),
        Err(_) => None,
    }
}

/// The claim for absolute slot `s`, reading its VRF row from a table whose
/// first row belongs to slot `base`.
pub open spec fn spec_scheduled_claim(
    c: Chain,
    reg: EpochRegistry,
    keys: Seq<u64>,
    vrf: Seq<Seq<VrfEvaluation>>,
    base: int,
    s: int,
) -> Option<Claim> {
    spec_slot_claim(c, reg, keys, s as u64, vrf[s - base])
}

/// The schedule over slots `[lo, hi)`: each claimed slot in order, unclaimed
/// slots skipped.
pub open spec fn spec_schedule(
    c: Chain,
    reg: EpochRegistry,
    keys: Seq<u64>,
    lo: int,
    hi: int,
    vrf: Seq<Seq<VrfEvaluation>>,
    base: int,
) -> Seq<SlotAuthorship>
    decreases hi - lo,
{
    if lo >= hi {
        Seq::empty()
    } else {
        let head = match spec_scheduled_claim(c, reg, keys, vrf, base, lo) {
            Some(cl) => seq![SlotAuthorship { slot_number: lo as u64, claim: cl }],
            None => Seq::<SlotAuthorship>::empty(),
        };
        head + spec_schedule(c, reg, keys, lo + 1, hi, vrf, base)
    }
}

/// Extending the range by one slot appends that slot's entry, if claimed.
proof fn lemma_schedule_snoc(
    c: Chain,
    reg: EpochRegistry,
    keys: Seq<u64>,
    lo: int,
    hi: int,
    vrf: Seq<Seq<VrfEvaluation>>,
    base: int,
)
    requires
        0 <= lo <= hi <= u64::MAX,
    ensures
        spec_schedule(c, reg, keys, lo, hi + 1, vrf, base) == spec_schedule(
            c,
            reg,
            keys,
            lo,
            hi,
            vrf,
            base,
        ) + (match spec_scheduled_claim(c, reg, keys, vrf, base, hi) {
            Some(cl) => seq![SlotAuthorship { slot_number: hi as u64, claim: cl }],
            None => Seq::<SlotAuthorship>::empty(),
        }),
    decreases hi - lo,
{
    let tail = (match spec_scheduled_claim(c, reg, keys, vrf, base, hi) {
        Some(cl) => seq![SlotAuthorship { slot_number: hi as u64, claim: cl }],
        None => Seq::<SlotAuthorship>::empty(),
    });
    if lo == hi {
        assert(spec_schedule(c, reg, keys, lo, hi, vrf, base) + tail =~= tail);
        assert(spec_schedule(c, reg, keys, hi + 1, hi + 1, vrf, base)
            =~= Seq::<SlotAuthorship>::empty());
        assert(tail + Seq::<SlotAuthorship>::empty() =~= tail);
    } else {
        lemma_schedule_snoc(c, reg, keys, lo + 1, hi, vrf, base);
        let head = (match spec_scheduled_claim(c, reg, keys, vrf, base, lo) {
            Some(cl) => seq![SlotAuthorship { slot_number: lo as u64, claim: cl }],
            None => Seq::<SlotAuthorship>::empty(),
        });
        let mid = spec_schedule(c, reg, keys, lo + 1, hi, vrf, base);
        assert(head + (mid + tail) =~= (head + mid) + tail);
    }
}

/// Every schedule entry lies in the queried range, and entries are strictly
/// increasing by slot: no slot number appears twice.
pub proof fn lemma_schedule_sorted(
    c: Chain,
    reg: EpochRegistry,
    keys: Seq<u64>,
    lo: int,
    hi: int,
    vrf: Seq<Seq<VrfEvaluation>>,
    base: int,
)
    requires
        0 <= lo,
        hi <= u64::MAX as int + 1,
    ensures
        ({
            let sched = spec_schedule(c, reg, keys, lo, hi, vrf, base);
            &&& forall|a: int|
                0 <= a < sched.len() ==> lo <= (#[trigger] sched[a]).slot_number < hi
            &&& forall|a: int, b: int|
                0 <= a < b < sched.len() ==> (#[trigger] sched[a]).slot_number < (
                #[trigger] sched[b]).slot_number
        }),
    decreases hi - lo,
{
    if lo >= hi {
    } else {
        lemma_schedule_sorted(c, reg, keys, lo + 1, hi, vrf, base);
        let sched = spec_schedule(c, reg, keys, lo, hi, vrf, base);
        let rest = spec_schedule(c, reg, keys, lo + 1, hi, vrf, base);
        match spec_scheduled_claim(c, reg, keys, vrf, base, lo) {
            Some(cl) => {
                let head = seq![SlotAuthorship { slot_number: lo as u64, claim: cl }];
                assert(sched == head + rest);
                assert(sched[0] == head[0]);
                assert forall|a: int| 0 < a < sched.len() implies sched[a] == rest[a - 1] by {}
            },
            None => {
                assert(sched =~= rest);
            },
        }
    }
}

/// Which slots the schedule holds: exactly those slots of the range whose
/// claim exists. Together with [`lemma_schedule_sorted`] this is the no-gaps,
/// no-duplicates shape of the schedule.
pub proof fn lemma_schedule_membership(
    c: Chain,
    reg: EpochRegistry,
    keys: Seq<u64>,
    lo: int,
    hi: int,
    vrf: Seq<Seq<VrfEvaluation>>,
    base: int,
    s: int,
)
    requires
        0 <= lo <= s < hi,
        hi <= u64::MAX as int + 1,
    ensures
        ({
            let sched = spec_schedule(c, reg, keys, lo, hi, vrf, base);
            (spec_scheduled_claim(c, reg, keys, vrf, base, s) is Some) <==> exists|a: int|
                0 <= a < sched.len() && (#[trigger] sched[a]).slot_number == s
        }),
    decreases hi - lo,
{
    let sched = spec_schedule(c, reg, keys, lo, hi, vrf, base);
    let rest = spec_schedule(c, reg, keys, lo + 1, hi, vrf, base);
    lemma_schedule_sorted(c, reg, keys, lo + 1, hi, vrf, base);
    if s == lo {
        match spec_scheduled_claim(c, reg, keys, vrf, base, lo) {
            Some(cl) => {
                assert(sched[0].slot_number == s);
            },
            None => {
                assert(sched =~= rest);
                assert forall|a: int| 0 <= a < sched.len() implies (#[trigger] sched[
                    a
                ]).slot_number != s by {
                    assert(lo + 1 <= rest[a].slot_number);
                }
            },
        }
    } else {
        lemma_schedule_membership(c, reg, keys, lo + 1, hi, vrf, base, s);
        match spec_scheduled_claim(c, reg, keys, vrf, base, lo) {
            Some(cl) => {
                let head = seq![SlotAuthorship { slot_number: lo as u64, claim: cl }];
                assert(sched == head + rest);
                if spec_scheduled_claim(c, reg, keys, vrf, base, s) is Some {
                    let a = choose|a: int|
                        0 <= a < rest.len() && (#[trigger] rest[a]).slot_number == s;
                    assert(sched[a + 1] == rest[a]);
                } else {
                    assert forall|a: int| 0 <= a < sched.len() implies (#[trigger] sched[
                        a
                    ]).slot_number != s by {
                        if a > 0 {
                            assert(sched[a] == rest[a - 1]);
                        }
                    }
                }
            },
            None => {
                assert(sched =~= rest);
            },
        }
    }
}

/// When every slot of the range is claimable, the schedule covers the range
/// completely: one entry per slot, in order, no gaps and no duplicates.
pub proof fn lemma_schedule_full_coverage(
    c: Chain,
    reg: EpochRegistry,
    keys: Seq<u64>,
    lo: int,
    hi: int,
    vrf: Seq<Seq<VrfEvaluation>>,
    base: int,
)
    requires
        0 <= lo <= hi,
        hi <= u64::MAX as int + 1,
        forall|s: int|
            lo <= s < hi ==> #[trigger] spec_scheduled_claim(c, reg, keys, vrf, base, s) is Some,
    ensures
        ({
            let sched = spec_schedule(c, reg, keys, lo, hi, vrf, base);
            &&& sched.len() == hi - lo
            &&& forall|a: int|
                0 <= a < sched.len() ==> (#[trigger] sched[a]).slot_number == lo + a
        }),
    decreases hi - lo,
{
    if lo >= hi {
    } else {
        lemma_schedule_full_coverage(c, reg, keys, lo + 1, hi, vrf, base);
        let sched = spec_schedule(c, reg, keys, lo, hi, vrf, base);
        let rest = spec_schedule(c, reg, keys, lo + 1, hi, vrf, base);
        assert(spec_scheduled_claim(c, reg, keys, vrf, base, lo) is Some);
        match spec_scheduled_claim(c, reg, keys, vrf, base, lo) {
            Some(cl) => {
                let head = seq![SlotAuthorship { slot_number: lo as u64, claim: cl }];
                assert(sched == head + rest);
                assert forall|a: int| 0 <= a < sched.len() implies (#[trigger] sched[
                    a
                ]).slot_number == lo + a by {
                    if a > 0 {
                        assert(sched[a] == rest[a - 1]);
                    }
                }
            },
            None => {},
        }
    }
}

/// Computes the full authorship schedule of the epoch governing
/// `epoch_start_slot` on the current best head's fork: every slot from the
/// epoch's start to its end, each resolved against its own governing epoch
/// (a slot near a boundary may fall into a newer epoch) and decided by the
/// claim engine. Returns the whole schedule or a single error, never a
/// partial schedule. `vrf` holds one row per slot of the epoch, one
/// evaluation per local key.
pub fn schedule_for_epoch(
    chain: &Chain,
    registry: &EpochRegistry,
    local_keys: &Vec<u64>,
    epoch_start_slot: SlotNumber,
    vrf: &Vec<Vec<VrfEvaluation>>,
) -> (r: Result<Vec<SlotAuthorship>, Error>)
    requires
        chain.wf(),
        registry.wf(),
        registry.genesis matches Some(cfg) ==> epoch_start_slot + cfg.duration <= u64::MAX,
        (spec_epoch_for_slot(*chain, *registry, chain.best, epoch_start_slot) matches Ok(e0)
            ==> vrf@.len() == e0.duration),
        forall|i: int| 0 <= i < vrf@.len() ==> (#[trigger] vrf@[i])@.len() == local_keys@.len(),
    ensures
        match r {
            Ok(v) => (spec_epoch_for_slot(*chain, *registry, chain.best, epoch_start_slot)
                matches Ok(e0) && v@ == spec_schedule(
                *chain,
                *registry,
                local_keys@,
                e0.start_slot as int,
                e0.spec_end_slot(),
                spec_vrf_rows(vrf@),
                e0.start_slot as int,
            )),
            Err(err) => (spec_epoch_for_slot(*chain, *registry, chain.best, epoch_start_slot)
                matches Err(le) && err == Error::Consensus(le)),
        },
        registry.genesis is Some ==> r is Ok,
{
    let ghost c = *chain;
    let ghost reg = *registry;
    let e0 = match registry.epoch_for_slot(chain, chain.best, epoch_start_slot) {
        Ok(e) => e,
        Err(le) => {
            return Err(Error::Consensus(le));
        },
    };
    proof {
        match spec_epoch_walk(
            c.blocks@,
            reg.entries@,
            c.best,
            epoch_start_slot,
            spec_block_number(c.blocks@, c.best),
        ) {
            Some(e) => {
                lemma_walk_from_entries(
                    c.blocks@,
                    reg.entries@,
                    c.best,
                    epoch_start_slot,
                    spec_block_number(c.blocks@, c.best),
                );
                let k = choose|k: int|
                    0 <= k < reg.entries@.len() && (#[trigger] reg.entries@[k]).epoch == e;
                assert(reg.entries@[k].epoch.wf());
            },
            None => {},
        }
        assert(e0.wf());
    }
    let start = e0.start_slot;
    let end = e0.end_slot();
    let mut out: Vec<SlotAuthorship> = Vec::new();
    let mut slot = start;
    let mut off: usize = 0;
    while slot < end
        invariant
            off == slot - start,
            chain.wf(),
            registry.wf(),
            c == *chain,
            reg == *registry,
            start <= slot <= end,
            spec_epoch_for_slot(c, reg, c.best, epoch_start_slot) matches Ok(e0s) && epoch_eq(
                e0,
                e0s,
            ) && start == e0s.start_slot && end == e0s.spec_end_slot(),
            vrf@.len() == end - start,
            forall|i: int| 0 <= i < vrf@.len() ==> (#[trigger] vrf@[i])@.len() == local_keys@.len(),
            registry.genesis matches Some(cfg) ==> epoch_start_slot + cfg.duration <= u64::MAX,
            out@ == spec_schedule(
                c,
                reg,
                local_keys@,
                start as int,
                slot as int,
                spec_vrf_rows(vrf@),
                start as int,
            ),
        decreases end - slot,
    {
        let ghost rows = spec_vrf_rows(vrf@);
        proof {
            match spec_epoch_walk(
                c.blocks@,
                reg.entries@,
                c.best,
                epoch_start_slot,
                spec_block_number(c.blocks@, c.best),
            ) {
                Some(e) => {
                    lemma_walk_all_range(
                        c.blocks@,
                        reg.entries@,
                        c.best,
                        epoch_start_slot,
                        slot,
                        spec_block_number(c.blocks@, c.best),
                    );
                },
                None => {},
            }
        }
        let es = match registry.epoch_for_slot(chain, chain.best, slot) {
            Ok(e) => e,
            Err(_) => {
                proof {
                    assert(false);
                }
                unreached()
            },
        };
        proof {
            assert(0 <= slot - start < vrf@.len());
        }
        let row = &vrf[off];
        let claim_opt = claim_slot(slot, &es, local_keys, row);
        proof {
            assert(rows[slot - start as int] == vrf@[slot - start as int]@);
            assert(row@ == vrf@[slot - start as int]@);
            match spec_epoch_for_slot(c, reg, c.best, slot) {
                Ok(e_spec) => {
                    assert(epoch_eq(es, e_spec));
                    assert(es.authorities@ == e_spec.authorities@);
                    assert(claim_opt == spec_claim_slot(
                        slot,
                        e_spec.authorities@,
                        local_keys@,
                        row@,
                    ));
                    assert(spec_slot_claim(c, reg, local_keys@, slot, rows[slot - start as int])
                        == claim_opt);
                },
                Err(_) => {
                    assert(false);
                },
            }
            assert(spec_scheduled_claim(c, reg, local_keys@, rows, start as int, slot as int)
                == claim_opt);
        }
        if let Some(cl) = claim_opt {
            out.push(SlotAuthorship { slot_number: slot, claim: cl });
        }
        proof {
            lemma_schedule_snoc(
                c,
                reg,
                local_keys@,
                start as int,
                slot as int,
                rows,
                start as int,
            );
            assert(out@ =~= spec_schedule(
                c,
                reg,
                local_keys@,
                start as int,
                slot as int + 1,
                rows,
                start as int,
            ));
        }
        slot = slot + 1;
        proof {
            assert(vrf.len() == vrf@.len());
        }
        off = off + 1;
    }
    Ok(out)
}

/// Handler for the authorship query surface: holds the epoch registry and
/// the local keystore's keys, and answers the epoch-authorship query. The
/// surrounding node wraps it in its query protocol and worker thread.
#[derive(Debug)]
pub struct BabeRPC {
    pub registry: EpochRegistry,
    pub keystore: Vec<u64>,
}

impl BabeRPC {
    /// A new handler over the given registry and local keys.
    pub fn new(registry: EpochRegistry, keystore: Vec<u64>) -> (r: BabeRPC)
        ensures
            r.registry == registry,
            r.keystore == keystore,
    {
        BabeRPC { registry, keystore }
    }

    /// The authorship query: the full schedule of the epoch governing
    /// `epoch_start_slot` on the best head's fork, or one descriptive
    /// error.
    pub fn epoch_authorship(
        &self,
        chain: &Chain,
        epoch_start_slot: SlotNumber,
        vrf: &Vec<Vec<VrfEvaluation>>,
    ) -> (r: Result<Vec<SlotAuthorship>, Error>)
        requires
            chain.wf(),
            self.registry.wf(),
            self.registry.genesis matches Some(cfg) ==> epoch_start_slot + cfg.duration
                <= u64::MAX,
            (spec_epoch_for_slot(*chain, self.registry, chain.best, epoch_start_slot) matches Ok(
                e0,
            ) ==> vrf@.len() == e0.duration),
            forall|i: int|
                0 <= i < vrf@.len() ==> (#[trigger] vrf@[i])@.len() == self.keystore@.len(),
        ensures
            match r {
                Ok(v) => (spec_epoch_for_slot(*chain, self.registry, chain.best, epoch_start_slot)
                    matches Ok(e0) && v@ == spec_schedule(
                    *chain,
                    self.registry,
                    self.keystore@,
                    e0.start_slot as int,
                    e0.spec_end_slot(),
                    spec_vrf_rows(vrf@),
                    e0.start_slot as int,
                )),
                Err(err) => (spec_epoch_for_slot(
                    *chain,
                    self.registry,
                    chain.best,
                    epoch_start_slot,
                ) matches Err(le) && err == Error::Consensus(le)),
            },
            self.registry.genesis is Some ==> r is Ok,
    {
        schedule_for_epoch(chain, &self.registry, &self.keystore, epoch_start_slot, vrf)
    }
}

} // verus!
