//! Block production and import: turns a sealing command into a committed
//! block. The pipeline checks the pending-transaction pool, resolves the
//! base header, builds a proposal from the pool snapshot plus inherents,
//! imports the result under a fork-choice rule and reports the outcome
//! through a one-shot reply path, exactly once on every exit.

use vstd::prelude::*;

use crate::chain::{
    header_hash, extrinsics_root, spec_block_number, spec_extrinsics_root, spec_find_block,
    spec_header_hash, BlockRecord, Chain, Header,
};
use crate::channel::{ChannelState, ResultChannel};
use crate::{BlockHash, Error, ImportRejection, LookupError};

verus! {

/// A pending transaction as the pool reports it: its identifier and whether
/// the runtime would accept it during proposal. Transactions the runtime
/// rejects are dropped from the proposal, not from the pool's ready count.
#[derive(Clone, Copy, Debug, PartialEq, Eq, Structural)]
pub struct Extrinsic {
    pub id: u64,
    pub valid: bool,
}

/// Snapshot of the external transaction pool's ready queue, read-only for
/// this pipeline.
#[derive(Debug)]
pub struct TransactionPool {
    pub ready: Vec<Extrinsic>,
}

/// The pool's status report: how many transactions are ready.
#[derive(Clone, Copy, Debug, PartialEq, Eq, Structural)]
pub struct PoolStatus {
    pub ready: usize,
}

impl TransactionPool {
    /// Status query against the shared pool.
    pub fn status(&self) -> (r: PoolStatus)
        ensures
            r.ready == self.ready@.len(),
    {
        PoolStatus { ready: self.ready.len() }
    }
}

/// Where a block came from; locally sealed blocks are marked as own.
#[derive(Clone, Copy, Debug, PartialEq, Eq, Structural)]
pub enum BlockOrigin {
    /// Authored by this node.
    Own,
    /// Received from the network.
    NetworkBroadcast,
}

/// How the import pipeline picks the best head after a commit.
#[derive(Clone, Copy, Debug, PartialEq, Eq, Structural)]
pub enum ForkChoiceStrategy {
    /// The higher block wins.
    LongestChain,
    /// The caller decides.
    Custom(bool),
}

/// Auxiliary data describing import side effects.
#[derive(Clone, Copy, Debug, PartialEq, Eq, Structural)]
pub struct ImportedAux {
    pub is_new_best: bool,
}

/// What the import pipeline answered.
#[derive(Clone, Copy, Debug, PartialEq, Eq, Structural)]
pub enum ImportResult {
    /// Committed, with auxiliary data.
    Imported(ImportedAux),
    /// A block with this hash is already committed.
    AlreadyInChain,
    /// The parent is not part of the chain.
    UnknownParent,
    /// The block is inconsistent with its parent.
    KnownBad,
}

/// Parameters handed to the import pipeline.
#[derive(Debug)]
pub struct BlockImportParams {
    pub origin: BlockOrigin,
    pub header: Header,
    pub body: Option<Vec<u64>>,
    pub finalized: bool,
    pub fork_choice: ForkChoiceStrategy,
}

/// The committed block reported back to a sealing caller.
#[derive(Clone, Copy, Debug, PartialEq, Eq, Structural)]
pub struct CreatedBlock {
    pub hash: BlockHash,
    pub aux: ImportedAux,
}

/// An unsealed proposal: header plus body, immutable once constructed.
#[derive(Debug)]
pub struct ProposedBlock {
    pub header: Header,
    pub body: Vec<u64>,
}

/// A sealing command: whether empty blocks are acceptable, whether to
/// finalize immediately, an optional explicit parent override, the reply
/// path, and the collaborator snapshots the attempt works from.
#[derive(Debug)]
pub struct SealBlockParams {
    pub create_empty: bool,
    pub finalize: bool,
    pub parent_hash: Option<BlockHash>,
    pub sender: ResultChannel,
    pub pool: TransactionPool,
    pub inherents: Vec<u64>,
}

/// Identifiers of the ready transactions the runtime accepts, in pool
/// order.
pub open spec fn spec_valid_ids(ready: Seq<Extrinsic>) -> Seq<u64>
    decreases ready.len(),
{
    if ready.len() == 0 {
        Seq::empty()
    } else {
        let rest = spec_valid_ids(ready.drop_last());
        if ready.last().valid {
            rest.push(ready.last().id)
        } else {
            rest
        }
    }
}

/// Body of a proposal: the required inherents first, then the accepted
/// ready transactions.
pub open spec fn spec_proposal_body(inherents: Seq<u64>, ready: Seq<Extrinsic>) -> Seq<u64> {
    inherents + spec_valid_ids(ready)
}

/// Whether a block at `number` becomes the new best head under the given
/// fork-choice rule.
pub open spec fn spec_is_new_best(c: Chain, number: u64, fork_choice: ForkChoiceStrategy) -> bool {
    match fork_choice {
        ForkChoiceStrategy::LongestChain => number > spec_block_number(c.blocks@, c.best),
        ForkChoiceStrategy::Custom(b) => b,
    }
}

/// What importing a header into `c` answers: already known, unknown parent,
/// inconsistent height, or committed with its fork-choice outcome.
pub open spec fn spec_import_result(
    c: Chain,
    header: Header,
    fork_choice: ForkChoiceStrategy,
) -> ImportResult {
    let h = spec_header_hash(header);
    if spec_find_block(c.blocks@, h) is Some {
        ImportResult::AlreadyInChain
    } else {
        match spec_find_block(c.blocks@, header.parent_hash) {
            None => ImportResult::UnknownParent,
            Some(p) => if header.number != p.header.number + 1 {
                ImportResult::KnownBad
            } else {
                ImportResult::Imported(
                    ImportedAux { is_new_best: spec_is_new_best(c, header.number, fork_choice) },
                )
            },
        }
    }
}

/// How a successful import changes the chain: the block is appended, the
/// best head moves exactly when fork choice says so, and the finalized head
/// moves exactly when finalization was requested.
pub open spec fn spec_imported_chain(
    old: Chain,
    new: Chain,
    header: Header,
    body: Seq<u64>,
    finalized: bool,
    fork_choice: ForkChoiceStrategy,
) -> bool {
    let h = spec_header_hash(header);
    &&& new.blocks@.len() == old.blocks@.len() + 1
    &&& new.blocks@.subrange(0, old.blocks@.len() as int) == old.blocks@
    &&& new.blocks@.last().hash == h
    &&& new.blocks@.last().header == header
    &&& new.blocks@.last().body@ == body
    &&& new.best == (if spec_is_new_best(old, header.number, fork_choice) {
        h
    } else {
        old.best
    })
    &&& new.finalized == (if finalized {
        h
    } else {
        old.finalized
    })
}

/// Builds the proposal body: inherents first, then accepted ready
/// transactions.
fn build_body(inherents: &Vec<u64>, pool: &TransactionPool) -> (r: Vec<u64>)
    ensures
        r@ == spec_proposal_body(inherents@, pool.ready@),
{
    let mut body: Vec<u64> = Vec::new();
    let mut i: usize = 0;
    while i < inherents.len()
        invariant
            i <= inherents.len(),
            body@ == inherents@.subrange(0, i as int),
        decreases inherents.len() - i,
    {
        body.push(inherents[i]);
        proof {
            assert(inherents@.subrange(0, i as int + 1) =~= inherents@.subrange(0, i as int).push(
                inherents@[i as int],
            ));
        }
        i = i + 1;
    }
    proof {
        assert(inherents@.subrange(0, inherents@.len() as int) =~= inherents@);
        assert(spec_valid_ids(pool.ready@.subrange(0, 0)) =~= Seq::<u64>::empty());
        assert(body@ =~= inherents@ + spec_valid_ids(pool.ready@.subrange(0, 0)));
    }
    let mut k: usize = 0;
    while k < pool.ready.len()
        invariant
            k <= pool.ready.len(),
            body@ == inherents@ + spec_valid_ids(pool.ready@.subrange(0, k as int)),
        decreases pool.ready.len() - k,
    {
        proof {
            assert(pool.ready@.subrange(0, k as int + 1).drop_last() =~= pool.ready@.subrange(
                0,
                k as int,
            ));
            assert(pool.ready@.subrange(0, k as int + 1).last() == pool.ready@[k as int]);
        }
        let e = pool.ready[k];
        if e.valid {
            body.push(e.id);
        }
        k = k + 1;
    }
    proof {
        assert(pool.ready@.subrange(0, pool.ready@.len() as int) =~= pool.ready@);
    }
    body
}

/// The proposer: builds an immutable proposal on the chosen parent from the
/// pool snapshot plus inherents. The real proposal budget and runtime are
/// the surrounding node's collaborators; which transactions a proposal
/// carries is decided here.
pub fn propose(
    parent_hash: BlockHash,
    parent: &Header,
    inherents: &Vec<u64>,
    pool: &TransactionPool,
) -> (r: ProposedBlock)
    requires
        parent.number < u64::MAX,
    ensures
        r.header.parent_hash == parent_hash,
        r.header.number == parent.number + 1,
        r.header.extrinsics_root == spec_extrinsics_root(
            spec_proposal_body(inherents@, pool.ready@),
        ),
        r.body@ == spec_proposal_body(inherents@, pool.ready@),
{
    let body = build_body(inherents, pool);
    let root = extrinsics_root(&body);
    ProposedBlock {
        header: Header { parent_hash, number: parent.number + 1, extrinsics_root: root },
        body,
    }
}

/// Commits a produced block under the supplied fork-choice strategy, or
/// answers why it cannot. Validity beyond parent linkage and height is the
/// external block-import collaborator's business.
pub fn import_block(chain: &mut Chain, params: BlockImportParams) -> (r: ImportResult)
    requires
        old(chain).wf(),
    ensures
        final(chain).wf(),
        r == spec_import_result(*old(chain), params.header, params.fork_choice),
        (r matches ImportResult::Imported(aux) && spec_imported_chain(
            *old(chain),
            *final(chain),
            params.header,
            match params.body {
                Some(b) => b@,
                None => Seq::<u64>::empty(),
            },
            params.finalized,
            params.fork_choice,
        )) || (!(r is Imported) && *final(chain) == *old(chain)),
{
    let header = params.header;
    let h = header_hash(&header);
    if chain.find_index(h).is_some() {
        return ImportResult::AlreadyInChain;
    }
    let pi = match chain.find_index(header.parent_hash) {
        Some(i) => i,
        None => {
            return ImportResult::UnknownParent;
        },
    };
    let parent_number = chain.blocks[pi].header.number;
    if header.number != parent_number + 1 {
        return ImportResult::KnownBad;
    }
    let is_new_best = match params.fork_choice {
        ForkChoiceStrategy::LongestChain => {
            let bi = match chain.find_index(chain.best) {
                Some(i) => i,
                None => unreached(),
            };
            header.number > chain.blocks[bi].header.number
        },
        ForkChoiceStrategy::Custom(b) => b,
    };
    let body = match params.body {
        Some(b) => b,
        None => Vec::new(),
    };
    let ghost olds = chain.blocks@;
    let ghost old_chain = *chain;
    let record = BlockRecord { hash: h, header, body };
    let ghost rec = record;
    chain.blocks.push(record);
    if is_new_best {
        chain.best = h;
    }
    if params.finalized {
        chain.finalized = h;
    }
    proof {
        let news = chain.blocks@;
        assert(news == olds.push(rec));
        crate::chain::lemma_find_block_props(olds, h);
        assert forall|i: int, j: int| 0 <= i < j < news.len() implies (#[trigger] news[i]).hash
            != (#[trigger] news[j]).hash by {
            if j < olds.len() {
                assert(news[i] == olds[i] && news[j] == olds[j]);
            } else {
                assert(news[j] == rec);
                assert(news[i] == olds[i]);
            }
        }
        assert forall|i: int|
            0 <= i < news.len() && (#[trigger] news[i]).header.number > 0 implies (spec_find_block(
            news,
            news[i].header.parent_hash,
        ) matches Some(p) && p.header.number + 1 == news[i].header.number) by {
            crate::chain::lemma_find_block_push(olds, rec, news[i].header.parent_hash);
            if i < olds.len() {
                assert(news[i] == olds[i]);
                assert(olds[i] == old_chain.blocks@[i]);
            } else {
                assert(news[i] == rec);
            }
        }
        assert forall|i: int| 0 <= i < news.len() implies (#[trigger] news[i]).header.number
            < news.len() by {
            if i < olds.len() {
                assert(news[i] == olds[i]);
            } else {
                assert(news[i] == rec);
            }
        }
        crate::chain::lemma_find_block_push(olds, rec, chain.best);
        crate::chain::lemma_find_block_push(olds, rec, chain.finalized);
        assert(news[0] == olds[0]);
        assert(news.subrange(0, olds.len() as int) =~= olds);
    }
    ImportResult::Imported(ImportedAux { is_new_best })
}

/// The parent a sealing attempt builds on: the explicit override if one was
/// given, else the current best head.
pub open spec fn spec_resolved_parent(c: Chain, parent_hash: Option<BlockHash>) -> BlockHash {
    match parent_hash {
        Some(ph) => ph,
        None => c.best,
    }
}

/// Outcome of one sealing attempt over the given chain, pool snapshot and
/// inherents: each error with exactly the inputs on which it comes, and on
/// success the committed block's hash and import side effects.
pub open spec fn spec_seal_outcome(
    c: Chain,
    create_empty: bool,
    finalize: bool,
    parent_hash: Option<BlockHash>,
    ready: Seq<Extrinsic>,
    inherents: Seq<u64>,
) -> Result<CreatedBlock, Error> {
    if ready.len() == 0 && !create_empty {
        Err(Error::EmptyTransactionPool)
    } else {
        match parent_hash {
            Some(ph) => match spec_find_block(c.blocks@, ph) {
                None => Err(Error::BlockNotFound(ph)),
                Some(p) => spec_seal_propose(c, create_empty, finalize, ph, p, ready, inherents),
            },
            None => match spec_find_block(c.blocks@, c.best) {
                None => Err(Error::Consensus(LookupError::ChainLookup)),
                Some(p) => spec_seal_propose(
                    c,
                    create_empty,
                    finalize,
                    c.best,
                    p,
                    ready,
                    inherents,
                ),
            },
        }
    }
}

/// Continuation of [`spec_seal_outcome`] once the parent is resolved:
/// the produced block's emptiness re-check, then the import verdict.
pub open spec fn spec_seal_propose(
    c: Chain,
    create_empty: bool,
    finalize: bool,
    parent_hash: BlockHash,
    p: BlockRecord,
    ready: Seq<Extrinsic>,
    inherents: Seq<u64>,
) -> Result<CreatedBlock, Error> {
    let body = spec_proposal_body(inherents, ready);
    if body.len() == 0 && !create_empty {
        Err(Error::EmptyTransactionPool)
    } else {
        let header = Header {
            parent_hash,
            number: (p.header.number + 1) as u64,
            extrinsics_root: spec_extrinsics_root(body),
        };
        match spec_import_result(c, header, ForkChoiceStrategy::LongestChain) {
            ImportResult::Imported(aux) => Ok(
                CreatedBlock { hash: spec_header_hash(header), aux },
            ),
            ImportResult::AlreadyInChain => Err(Error::Import(ImportRejection::AlreadyInChain)),
            ImportResult::UnknownParent => Err(Error::Import(ImportRejection::UnknownParent)),
            ImportResult::KnownBad => Err(Error::Import(ImportRejection::KnownBad)),
        }
    }
}

/// One synchronous sealing attempt: pool emptiness policy, parent
/// resolution, proposal, produced-block emptiness re-check, import under
/// longest-chain fork choice. The chain changes exactly on success; every
/// failure leaves it untouched and the import pipeline is never reached
/// after a policy failure.
pub fn attempt_seal(
    create_empty: bool,
    finalize: bool,
    parent_hash: Option<BlockHash>,
    pool: &TransactionPool,
    inherents: &Vec<u64>,
    chain: &mut Chain,
) -> (r: Result<CreatedBlock, Error>)
    requires
        old(chain).wf(),
    ensures
        final(chain).wf(),
        r == spec_seal_outcome(
            *old(chain),
            create_empty,
            finalize,
            parent_hash,
            pool.ready@,
            inherents@,
        ),
        match r {
            Ok(cb) => ({
                let ph = spec_resolved_parent(*old(chain), parent_hash);
                let body = spec_proposal_body(inherents@, pool.ready@);
                let header = Header {
                    parent_hash: ph,
                    number: (spec_block_number(old(chain).blocks@, ph) + 1) as u64,
                    extrinsics_root: spec_extrinsics_root(body),
                };
                &&& cb.hash == spec_header_hash(header)
                &&& spec_imported_chain(
                    *old(chain),
                    *final(chain),
                    header,
                    body,
                    finalize,
                    ForkChoiceStrategy::LongestChain,
                )
            }),
            Err(_) => *final(chain) == *old(chain),
        },
{
    if pool.status().ready == 0 && !create_empty {
        return Err(Error::EmptyTransactionPool);
    }
    let (phash, pheader) = match parent_hash {
        Some(ph) => match chain.lookup_header(ph) {
            Some(hdr) => (ph, hdr),
            None => {
                return Err(Error::BlockNotFound(ph));
            },
        },
        None => (chain.best, chain.best_header()),
    };
    proof {
        crate::chain::lemma_find_block_props(chain.blocks@, phash);
        match spec_find_block(chain.blocks@, phash) {
            Some(b) => {
                let i = choose|i: int| 0 <= i < chain.blocks@.len() && chain.blocks@[i] == b;
                assert(chain.blocks@[i].header.number < chain.blocks@.len());
                assert(pheader == b.header);
            },
            None => {
                assert(false);
            },
        }
    }
    let block = propose(phash, &pheader, inherents, pool);
    if block.body.len() == 0 && !create_empty {
        return Err(Error::EmptyTransactionPool);
    }
    let header = block.header;
    let import_params = BlockImportParams {
        origin: BlockOrigin::Own,
        header,
        body: Some(block.body),
        finalized: finalize,
        fork_choice: ForkChoiceStrategy::LongestChain,
    };
    match import_block(chain, import_params) {
        ImportResult::Imported(aux) => Ok(CreatedBlock { hash: header_hash(&header), aux }),
        ImportResult::AlreadyInChain => Err(Error::Import(ImportRejection::AlreadyInChain)),
        ImportResult::UnknownParent => Err(Error::Import(ImportRejection::UnknownParent)),
        ImportResult::KnownBad => Err(Error::Import(ImportRejection::KnownBad)),
    }
}

/// Seals a new block as the command asks and reports the outcome through
/// the command's reply path, exactly once, whichever step decided it. The
/// returned channel is the same reply path, carrying the sent outcome
/// unless the consumer had already abandoned it.
///
/// Two sealing requests against the same parent are not serialized here by
/// design: a caller that needs that exclusivity must order its requests
/// itself, or the requests race on which block becomes canonical.
pub fn seal_new_block(params: SealBlockParams, chain: &mut Chain) -> (reply: ResultChannel)
    requires
        old(chain).wf(),
        params.sender.state is Pending || params.sender.state is Abandoned,
    ensures
        final(chain).wf(),
        ({
            let outcome = spec_seal_outcome(
                *old(chain),
                params.create_empty,
                params.finalize,
                params.parent_hash,
                params.pool.ready@,
                params.inherents@,
            );
            &&& (params.sender.state is Pending ==> reply.state == ChannelState::Sent(outcome))
            &&& (params.sender.state is Abandoned ==> reply.state is Abandoned)
            &&& match outcome {
                Ok(cb) => ({
                    let ph = spec_resolved_parent(*old(chain), params.parent_hash);
                    let body = spec_proposal_body(params.inherents@, params.pool.ready@);
                    let header = Header {
                        parent_hash: ph,
                        number: (spec_block_number(old(chain).blocks@, ph) + 1) as u64,
                        extrinsics_root: spec_extrinsics_root(body),
                    };
                    &&& cb.hash == spec_header_hash(header)
                    &&& spec_imported_chain(
                        *old(chain),
                        *final(chain),
                        header,
                        body,
                        params.finalize,
                        ForkChoiceStrategy::LongestChain,
                    )
                }),
                Err(_) => *final(chain) == *old(chain),
            }
        }),
{
    let SealBlockParams { create_empty, finalize, parent_hash, mut sender, pool, inherents } =
        params;
    let outcome = attempt_seal(create_empty, finalize, parent_hash, &pool, &inherents, chain);
    sender.send(outcome);
    sender
}

} // verus!
