//! Fork-aware epoch registry: a tree of epoch records keyed by the block at
//! which each epoch starts. "Which epoch governs slot S on the fork ending at
//! block B" is answered by walking B's ancestry toward genesis until a record
//! whose slot range contains S is found, so concurrent branches may be in
//! different epochs at once. Mutation is append-only.

use vstd::prelude::*;

use crate::chain::{spec_block_number, spec_find_block, spec_is_ancestor, spec_reachable, BlockRecord, Chain};
use crate::epoch::{epoch_eq, genesis_epoch, spec_genesis_epoch, Epoch, GenesisConfig};
use crate::{BlockHash, LookupError, SlotNumber};

verus! {

/// One record of the epoch tree: the epoch that begins at `start_block`.
#[derive(Debug)]
pub struct EpochEntry {
    pub start_block: BlockHash,
    pub epoch: Epoch,
}

/// The epoch tree plus the caller-supplied genesis fallback. Ancestry is
/// resolved through the chain value, so the registry itself holds no links.
#[derive(Debug)]
pub struct EpochRegistry {
    pub entries: Vec<EpochEntry>,
    pub genesis: Option<GenesisConfig>,
}

/// First entry recorded at `block` whose epoch covers `slot`, if any.
pub open spec fn spec_find_entry(
    entries: Seq<EpochEntry>,
    block: BlockHash,
    slot: SlotNumber,
) -> Option<Epoch>
    decreases entries.len(),
{
    if entries.len() == 0 {
        None
    } else if entries[0].start_block == block && entries[0].epoch.spec_contains_slot(slot) {
        Some(entries[0].epoch)
    } else {
        spec_find_entry(entries.drop_first(), block, slot)
    }
}

/// Whether any epoch record is keyed by `block`.
pub open spec fn spec_has_entry(entries: Seq<EpochEntry>, block: BlockHash) -> bool {
    exists|i: int| 0 <= i < entries.len() && (#[trigger] entries[i]).start_block == block
}

/// A found entry covers the queried slot and is keyed by the queried block;
/// a miss means no entry at that block covers the slot.
pub proof fn lemma_find_entry_props(entries: Seq<EpochEntry>, block: BlockHash, slot: SlotNumber)
    ensures
        match spec_find_entry(entries, block, slot) {
            Some(e) => e.spec_contains_slot(slot) && exists|k: int|
                0 <= k < entries.len() && (#[trigger] entries[k]).start_block == block
                    && entries[k].epoch == e,
            None => forall|k: int|
                0 <= k < entries.len() && (#[trigger] entries[k]).start_block == block
                    ==> !entries[k].epoch.spec_contains_slot(slot),
        },
    decreases entries.len(),
{
    if entries.len() == 0 {
    } else if entries[0].start_block == block && entries[0].epoch.spec_contains_slot(slot) {
        assert(entries[0].start_block == block && entries[0].epoch == entries[0].epoch);
    } else {
        lemma_find_entry_props(entries.drop_first(), block, slot);
        match spec_find_entry(entries.drop_first(), block, slot) {
            Some(e) => {
                let k = choose|k: int|
                    0 <= k < entries.drop_first().len() && (#[trigger] entries.drop_first()[
                        k
                    ]).start_block == block && entries.drop_first()[k].epoch == e;
                assert(entries[k + 1] == entries.drop_first()[k]);
            },
            None => {
                assert forall|k: int|
                    0 <= k < entries.len() && (#[trigger] entries[k]).start_block == block implies
                    !entries[k].epoch.spec_contains_slot(slot) by {
                    if k > 0 {
                        assert(entries.drop_first()[k - 1] == entries[k]);
                    }
                }
            },
        }
    }
}

/// Appending an entry leaves every successful lookup unchanged and resolves
/// a miss exactly when the new entry is keyed by the block and covers the
/// slot.
pub proof fn lemma_find_entry_push(
    entries: Seq<EpochEntry>,
    x: EpochEntry,
    block: BlockHash,
    slot: SlotNumber,
)
    ensures
        spec_find_entry(entries.push(x), block, slot) == (if spec_find_entry(
            entries,
            block,
            slot,
        ) is Some {
            spec_find_entry(entries, block, slot)
        } else if x.start_block == block && x.epoch.spec_contains_slot(slot) {
            Some(x.epoch)
        } else {
            None
        }),
    decreases entries.len(),
{
    if entries.len() == 0 {
        assert(entries.push(x)[0] == x);
        assert(entries.push(x).drop_first() =~= Seq::<EpochEntry>::empty());
        if x.start_block == block && x.epoch.spec_contains_slot(slot) {
            assert(spec_find_entry(entries.push(x), block, slot) == Some(x.epoch));
        } else {
            assert(spec_find_entry(entries.push(x), block, slot) is None) by {
                reveal_with_fuel(spec_find_entry, 2);
            }
        }
    } else {
        assert(entries.push(x)[0] == entries[0]);
        assert(entries.push(x).drop_first() =~= entries.drop_first().push(x));
        lemma_find_entry_push(entries.drop_first(), x, block, slot);
        if entries[0].start_block == block && entries[0].epoch.spec_contains_slot(slot) {
            assert(spec_find_entry(entries.push(x), block, slot) == Some(entries[0].epoch));
            assert(spec_find_entry(entries, block, slot) == Some(entries[0].epoch));
        } else {
            assert(spec_find_entry(entries.push(x), block, slot) == spec_find_entry(
                entries.drop_first().push(x),
                block,
                slot,
            ));
            assert(spec_find_entry(entries, block, slot) == spec_find_entry(
                entries.drop_first(),
                block,
                slot,
            ));
        }
    }
}

/// The ancestry walk: from `head` toward genesis, the first epoch record on
/// the path that covers `slot`, spending one unit of fuel per parent link.
pub open spec fn spec_epoch_walk(
    chain: Seq<BlockRecord>,
    entries: Seq<EpochEntry>,
    head: BlockHash,
    slot: SlotNumber,
    fuel: nat,
) -> Option<Epoch>
    decreases fuel,
{
    match spec_find_block(chain, head) {
        None => None,
        Some(b) => match spec_find_entry(entries, head, slot) {
            Some(e) => Some(e),
            None => if fuel > 0 && b.header.number > 0 {
                spec_epoch_walk(chain, entries, b.header.parent_hash, slot, (fuel - 1) as nat)
            } else {
                None
            },
        },
    }
}

/// An epoch found by the walk covers the queried slot.
pub proof fn lemma_walk_covers_slot(
    chain: Seq<BlockRecord>,
    entries: Seq<EpochEntry>,
    head: BlockHash,
    slot: SlotNumber,
    fuel: nat,
)
    ensures
        spec_epoch_walk(chain, entries, head, slot, fuel) matches Some(e)
            ==> e.spec_contains_slot(slot),
    decreases fuel,
{
    lemma_find_entry_props(entries, head, slot);
    match spec_find_block(chain, head) {
        None => {},
        Some(b) => {
            if spec_find_entry(entries, head, slot) is None && fuel > 0 && b.header.number > 0 {
                lemma_walk_covers_slot(
                    chain,
                    entries,
                    b.header.parent_hash,
                    slot,
                    (fuel - 1) as nat,
                );
            }
        },
    }
}

/// An epoch found by the walk is one of the registry's records.
pub proof fn lemma_walk_from_entries(
    chain: Seq<BlockRecord>,
    entries: Seq<EpochEntry>,
    head: BlockHash,
    slot: SlotNumber,
    fuel: nat,
)
    ensures
        spec_epoch_walk(chain, entries, head, slot, fuel) matches Some(e) ==> exists|k: int|
            0 <= k < entries.len() && (#[trigger] entries[k]).epoch == e,
    decreases fuel,
{
    lemma_find_entry_props(entries, head, slot);
    match spec_find_block(chain, head) {
        None => {},
        Some(b) => {
            if spec_find_entry(entries, head, slot) is None && fuel > 0 && b.header.number > 0 {
                lemma_walk_from_entries(
                    chain,
                    entries,
                    b.header.parent_hash,
                    slot,
                    (fuel - 1) as nat,
                );
            } else {
                match spec_find_entry(entries, head, slot) {
                    None => {},
                    Some(e) => {
                        let k = choose|k: int|
                            0 <= k < entries.len() && (#[trigger] entries[k]).start_block == head
                                && entries[k].epoch == e;
                        assert(entries[k].epoch == e);
                    },
                }
            }
        },
    }
}

/// If the walk finds an epoch for `slot0` and that epoch also covers `s`,
/// then the walk finds an epoch for `s` as well: an epoch record covering
/// `s` stands on the path, so the lookup for `s` cannot come up empty.
pub proof fn lemma_walk_all_range(
    chain: Seq<BlockRecord>,
    entries: Seq<EpochEntry>,
    head: BlockHash,
    slot0: SlotNumber,
    s: SlotNumber,
    fuel: nat,
)
    requires
        spec_epoch_walk(chain, entries, head, slot0, fuel) matches Some(e)
            && e.spec_contains_slot(s),
    ensures
        spec_epoch_walk(chain, entries, head, s, fuel) is Some,
    decreases fuel,
{
    match spec_find_block(chain, head) {
        None => {},
        Some(b) => {
            match spec_find_entry(entries, head, s) {
                Some(_) => {},
                None => {
                    lemma_find_entry_props(entries, head, s);
                    match spec_find_entry(entries, head, slot0) {
                        Some(e) => {
                            lemma_find_entry_props(entries, head, slot0);
                            let k = choose|k: int|
                                0 <= k < entries.len() && (#[trigger] entries[k]).start_block
                                    == head && entries[k].epoch == e;
                            assert(!entries[k].epoch.spec_contains_slot(s));
                            assert(false);
                        },
                        None => {
                            lemma_walk_all_range(
                                chain,
                                entries,
                                b.header.parent_hash,
                                slot0,
                                s,
                                (fuel - 1) as nat,
                            );
                        },
                    }
                },
            }
        },
    }
}

/// What `epoch_for_slot` answers: the walk's find, or the synthesized
/// genesis epoch, or the structured failure.
pub open spec fn spec_epoch_for_slot(
    chain: Chain,
    reg: EpochRegistry,
    head: BlockHash,
    slot: SlotNumber,
) -> Result<Epoch, LookupError> {
    if spec_find_block(chain.blocks@, head) is None {
        Err(LookupError::ChainLookup)
    } else {
        match spec_epoch_walk(
            chain.blocks@,
            reg.entries@,
            head,
            slot,
            spec_block_number(chain.blocks@, head),
        ) {
            Some(e) => Ok(e),
            None => match reg.genesis {
                Some(cfg) => Ok(spec_genesis_epoch(cfg, slot)),
                None => Err(LookupError::NoEpochData),
            },
        }
    }
}

impl EpochRegistry {
    /// Well-formedness: at most one epoch record per start block, every
    /// recorded epoch well-formed, and a well-formed genesis fallback if one
    /// is configured.
    pub open spec fn wf(self) -> bool {
        &&& forall|i: int, j: int|
            0 <= i < j < self.entries.len() ==> (#[trigger] self.entries[i]).start_block != (
            #[trigger] self.entries[j]).start_block
        &&& forall|i: int|
            0 <= i < self.entries.len() ==> (#[trigger] self.entries[i]).epoch.wf()
        &&& (self.genesis matches Some(cfg) ==> cfg.wf())
    }

    /// An empty tree over the given genesis fallback.
    pub fn new(genesis: Option<GenesisConfig>) -> (r: EpochRegistry)
        requires
            genesis matches Some(cfg) ==> cfg.wf(),
        ensures
            r.wf(),
            r.entries@ == Seq::<EpochEntry>::empty(),
            r.genesis == genesis,
    {
        EpochRegistry { entries: Vec::new(), genesis }
    }

    /// Index of the first entry at `block` covering `slot`.
    fn find_entry(&self, block: BlockHash, slot: SlotNumber) -> (r: Option<usize>)
        ensures
            match r {
                Some(j) => j < self.entries.len() && spec_find_entry(self.entries@, block, slot)
                    == Some(self.entries@[j as int].epoch),
                None => spec_find_entry(self.entries@, block, slot) is None,
            },
    {
        let ghost es = self.entries@;
        proof {
            assert(es.skip(0) =~= es);
        }
        let mut j: usize = 0;
        while j < self.entries.len()
            invariant
                j <= self.entries.len(),
                es == self.entries@,
                spec_find_entry(es, block, slot) == spec_find_entry(es.skip(j as int), block, slot),
            decreases self.entries.len() - j,
        {
            proof {
                assert(es.skip(j as int)[0] == es[j as int]);
                assert(es.skip(j as int).drop_first() =~= es.skip(j as int + 1));
            }
            let e = &self.entries[j];
            if e.start_block == block && e.epoch.contains_slot(slot) {
                return Some(j);
            }
            j = j + 1;
        }
        proof {
            assert(es.skip(j as int) =~= Seq::<EpochEntry>::empty());
        }
        None
    }

    /// Whether any epoch record is keyed by `block`.
    pub fn has_entry(&self, block: BlockHash) -> (r: bool)
        ensures
            r == spec_has_entry(self.entries@, block),
    {
        let mut j: usize = 0;
        while j < self.entries.len()
            invariant
                j <= self.entries.len(),
                forall|k: int| 0 <= k < j ==> (#[trigger] self.entries@[k]).start_block != block,
            decreases self.entries.len() - j,
        {
            if self.entries[j].start_block == block {
                return true;
            }
            j = j + 1;
        }
        false
    }

    /// Records that `epoch` begins at `start_block`. Append-only: an existing
    /// record at the same block is left untouched and the call reports that
    /// nothing was recorded, so a lookup racing with this call observes
    /// either the pre- or the post-transition tree, never a partial record.
    pub fn import_epoch_transition(&mut self, start_block: BlockHash, epoch: Epoch) -> (r: bool)
        requires
            old(self).wf(),
            epoch.wf(),
        ensures
            final(self).wf(),
            r == !spec_has_entry(old(self).entries@, start_block),
            r ==> final(self).entries@ == old(self).entries@.push(
                EpochEntry { start_block, epoch },
            ),
            !r ==> final(self).entries@ == old(self).entries@,
            final(self).genesis == old(self).genesis,
    {
        if self.has_entry(start_block) {
            return false;
        }
        self.entries.push(EpochEntry { start_block, epoch });
        true
    }

    /// The epoch governing `slot` on the fork ending at `fork_head`: the
    /// nearest epoch record on `fork_head`'s ancestry whose slot range
    /// contains `slot`, or the synthesized genesis epoch when the tree has no
    /// such record, or a structured failure.
    pub fn epoch_for_slot(&self, chain: &Chain, fork_head: BlockHash, slot: SlotNumber) -> (r:
        Result<Epoch, LookupError>)
        requires
            chain.wf(),
        ensures
            match spec_epoch_for_slot(*chain, *self, fork_head, slot) {
                Ok(e) => r matches Ok(re) && epoch_eq(re, e),
                Err(le) => r matches Err(rle) && rle == le,
            },
    {
        let ghost s = chain.blocks@;
        let ghost es = self.entries@;
        let mut cur = fork_head;
        if chain.find_index(cur).is_none() {
            return Err(LookupError::ChainLookup);
        }
        loop
            invariant
                chain.wf(),
                s == chain.blocks@,
                es == self.entries@,
                spec_find_block(s, cur) is Some,
                spec_find_block(s, fork_head) is Some,
                spec_epoch_walk(s, es, fork_head, slot, spec_block_number(s, fork_head))
                    == spec_epoch_walk(s, es, cur, slot, spec_block_number(s, cur)),
            ensures
                spec_epoch_walk(s, es, fork_head, slot, spec_block_number(s, fork_head)) is None,
            decreases spec_block_number(s, cur),
        {
            if let Some(j) = self.find_entry(cur, slot) {
                return Ok(self.entries[j].epoch.duplicate());
            }
            let i = match chain.find_index(cur) {
                Some(i) => i,
                None => unreached(),
            };
            let b = &chain.blocks[i];
            if b.header.number == 0 {
                break;
            }
            proof {
                assert(spec_find_block(s, s[i as int].header.parent_hash) matches Some(p)
                    && p.header.number + 1 == s[i as int].header.number);
            }
            cur = b.header.parent_hash;
        }
        match &self.genesis {
            Some(cfg) => Ok(genesis_epoch(cfg, slot)),
            None => Err(LookupError::NoEpochData),
        }
    }
}

/// Once a transition recording `epoch` at block `at` is imported, the walk
/// from every descendant of `at` (for the transition's start slot) finds an
/// epoch record covering that slot: the new record is on the path, so the
/// lookup can no longer fall back to the genesis epoch or fail.
pub proof fn lemma_transition_visible_to_descendants(
    chain: Chain,
    before: EpochRegistry,
    after: EpochRegistry,
    at: BlockHash,
    epoch: Epoch,
    head: BlockHash,
)
    requires
        epoch.wf(),
        !spec_has_entry(before.entries@, at),
        after.entries@ == before.entries@.push(EpochEntry { start_block: at, epoch }),
        spec_is_ancestor(chain.blocks@, head, at),
    ensures
        spec_epoch_for_slot(chain, after, head, epoch.start_slot) matches Ok(e)
            && e.spec_contains_slot(epoch.start_slot),
{
    let s = chain.blocks@;
    let fuel = spec_block_number(s, head);
    lemma_walk_reaches_new_entry(s, before.entries@, after.entries@, at, epoch, head, fuel);
    lemma_walk_covers_slot(s, after.entries@, head, epoch.start_slot, fuel);
}

proof fn lemma_walk_reaches_new_entry(
    s: Seq<BlockRecord>,
    before: Seq<EpochEntry>,
    after: Seq<EpochEntry>,
    at: BlockHash,
    epoch: Epoch,
    cur: BlockHash,
    fuel: nat,
)
    requires
        epoch.wf(),
        !spec_has_entry(before, at),
        after == before.push(EpochEntry { start_block: at, epoch }),
        spec_reachable(s, cur, at, fuel),
    ensures
        spec_epoch_walk(s, after, cur, epoch.start_slot, fuel) is Some,
    decreases fuel,
{
    let slot0 = epoch.start_slot;
    match spec_find_block(s, cur) {
        None => {},
        Some(b) => {
            match spec_find_entry(after, cur, slot0) {
                Some(_) => {},
                None => {
                    if cur == at {
                        lemma_find_entry_props(before, at, slot0);
                        match spec_find_entry(before, at, slot0) {
                            None => {},
                            Some(e) => {
                                let k = choose|k: int|
                                    0 <= k < before.len() && (#[trigger] before[k]).start_block
                                        == at && before[k].epoch == e;
                                assert(spec_has_entry(before, at));
                            },
                        }
                        lemma_find_entry_push(
                            before,
                            EpochEntry { start_block: at, epoch },
                            at,
                            slot0,
                        );
                        assert(epoch.spec_contains_slot(slot0));
                        assert(false);
                    } else {
                        lemma_walk_reaches_new_entry(
                            s,
                            before,
                            after,
                            at,
                            epoch,
                            b.header.parent_hash,
                            (fuel - 1) as nat,
                        );
                    }
                },
            }
        },
    }
}

/// A transition recorded at block `at` is invisible to every fork head that
/// does not descend from `at`: such a head resolves every slot exactly as it
/// did before the transition was imported.
pub proof fn lemma_transition_invisible_elsewhere(
    chain: Chain,
    before: EpochRegistry,
    after: EpochRegistry,
    at: BlockHash,
    epoch: Epoch,
    head: BlockHash,
    slot: SlotNumber,
)
    requires
        after.entries@ == before.entries@.push(EpochEntry { start_block: at, epoch }),
        after.genesis == before.genesis,
        !spec_is_ancestor(chain.blocks@, head, at),
    ensures
        spec_epoch_for_slot(chain, after, head, slot) == spec_epoch_for_slot(
            chain,
            before,
            head,
            slot,
        ),
{
    let s = chain.blocks@;
    lemma_walk_skips_foreign_entry(
        s,
        before.entries@,
        after.entries@,
        at,
        epoch,
        head,
        slot,
        spec_block_number(s, head),
    );
}

proof fn lemma_walk_skips_foreign_entry(
    s: Seq<BlockRecord>,
    before: Seq<EpochEntry>,
    after: Seq<EpochEntry>,
    at: BlockHash,
    epoch: Epoch,
    cur: BlockHash,
    slot: SlotNumber,
    fuel: nat,
)
    requires
        after == before.push(EpochEntry { start_block: at, epoch }),
        !spec_reachable(s, cur, at, fuel),
    ensures
        spec_epoch_walk(s, after, cur, slot, fuel) == spec_epoch_walk(s, before, cur, slot, fuel),
    decreases fuel,
{
    match spec_find_block(s, cur) {
        None => {},
        Some(b) => {
            assert(cur != at);
            lemma_find_entry_push(before, EpochEntry { start_block: at, epoch }, cur, slot);
            match spec_find_entry(before, cur, slot) {
                Some(_) => {},
                None => {
                    if fuel > 0 && b.header.number > 0 {
                        lemma_walk_skips_foreign_entry(
                            s,
                            before,
                            after,
                            at,
                            epoch,
                            b.header.parent_hash,
                            slot,
                            (fuel - 1) as nat,
                        );
                    }
                },
            }
        },
    }
}

} // verus!
