//! Model of the chain metadata that the ancestry-query collaborator serves:
//! committed blocks keyed by hash, parent links, and the best and finalized
//! heads. Lookups and ancestry walks are pure functions of this value.

use vstd::prelude::*;

use crate::BlockHash;

verus! {

/// Header of a block: parent link, height and a digest of the body.
#[derive(Clone, Copy, Debug, PartialEq, Eq, Structural)]
pub struct Header {
    pub parent_hash: BlockHash,
    pub number: u64,
    pub extrinsics_root: u64,
}

/// A committed block: its hash, header and body of extrinsic identifiers.
#[derive(Debug)]
pub struct BlockRecord {
    pub hash: BlockHash,
    pub header: Header,
    pub body: Vec<u64>,
}

/// The chain: an append-only set of blocks reachable from one genesis block,
/// plus the best and finalized heads chosen by fork choice.
#[derive(Debug)]
pub struct Chain {
    pub blocks: Vec<BlockRecord>,
    pub best: BlockHash,
    pub finalized: BlockHash,
}

/// First block in `s` whose hash is `h`, if any.
pub open spec fn spec_find_block(s: Seq<BlockRecord>, h: BlockHash) -> Option<BlockRecord>
    decreases s.len(),
{
    if s.len() == 0 {
        None
    } else if s[0].hash == h {
        Some(s[0])
    } else {
        spec_find_block(s.drop_first(), h)
    }
}

/// Height of the block with hash `h`, or zero if `h` is unknown.
pub open spec fn spec_block_number(s: Seq<BlockRecord>, h: BlockHash) -> nat {
    match spec_find_block(s, h) {
        Some(b) => b.header.number as nat,
        None => 0,
    }
}

/// A found block carries the looked-up hash and sits in the sequence; a miss
/// means no element carries the hash.
pub proof fn lemma_find_block_props(s: Seq<BlockRecord>, h: BlockHash)
    ensures
        match spec_find_block(s, h) {
            Some(b) => b.hash == h && exists|i: int| 0 <= i < s.len() && s[i] == b,
            None => forall|i: int| 0 <= i < s.len() ==> (#[trigger] s[i]).hash != h,
        },
    decreases s.len(),
{
    if s.len() == 0 {
    } else if s[0].hash == h {
        assert(s[0] == s[0]);
    } else {
        lemma_find_block_props(s.drop_first(), h);
        match spec_find_block(s.drop_first(), h) {
            Some(b) => {
                let i = choose|i: int| 0 <= i < s.drop_first().len() && s.drop_first()[i] == b;
                assert(s[i + 1] == b);
            },
            None => {
                assert forall|i: int| 0 <= i < s.len() implies (#[trigger] s[i]).hash != h by {
                    if i > 0 {
                        assert(s.drop_first()[i - 1] == s[i]);
                    }
                }
            },
        }
    }
}

/// Appending a block leaves every successful lookup unchanged and resolves a
/// previous miss exactly when the new block carries the hash.
pub proof fn lemma_find_block_push(s: Seq<BlockRecord>, b: BlockRecord, h: BlockHash)
    ensures
        spec_find_block(s.push(b), h) == (if spec_find_block(s, h) is Some {
            spec_find_block(s, h)
        } else if b.hash == h {
            Some(b)
        } else {
            None
        }),
    decreases s.len(),
{
    if s.len() == 0 {
        assert(s.push(b)[0] == b);
        assert(s.push(b).drop_first() =~= Seq::<BlockRecord>::empty());
    } else {
        assert(s.push(b)[0] == s[0]);
        assert(s.push(b).drop_first() =~= s.drop_first().push(b));
        lemma_find_block_push(s.drop_first(), b, h);
    }
}

/// Every non-genesis block's parent is present, one level down.
pub open spec fn spec_linked(s: Seq<BlockRecord>) -> bool {
    forall|i: int|
        0 <= i < s.len() && (#[trigger] s[i]).header.number > 0 ==> (spec_find_block(
            s,
            s[i].header.parent_hash,
        ) matches Some(p) && p.header.number + 1 == s[i].header.number)
}

/// `target` lies on the parent path of `head`, walking at most `fuel` links.
pub open spec fn spec_reachable(
    s: Seq<BlockRecord>,
    head: BlockHash,
    target: BlockHash,
    fuel: nat,
) -> bool
    decreases fuel,
{
    match spec_find_block(s, head) {
        None => false,
        Some(b) => head == target || (fuel > 0 && b.header.number > 0 && spec_reachable(
            s,
            b.header.parent_hash,
            target,
            (fuel - 1) as nat,
        )),
    }
}

/// `target` is `head` itself or one of its ancestors. On a well-formed chain
/// the parent path from a block has exactly its height many links.
pub open spec fn spec_is_ancestor(s: Seq<BlockRecord>, head: BlockHash, target: BlockHash) -> bool {
    spec_reachable(s, head, target, spec_block_number(s, head))
}

impl Chain {
    /// Well-formedness: one genesis block at height zero, unique hashes,
    /// parent links one level down, heights bounded by the block count, and
    /// best and finalized heads that the chain holds.
    pub open spec fn wf(self) -> bool {
        &&& self.blocks.len() >= 1
        &&& self.blocks[0].header.number == 0
        &&& forall|i: int, j: int|
            0 <= i < j < self.blocks.len() ==> (#[trigger] self.blocks[i]).hash != (
            #[trigger] self.blocks[j]).hash
        &&& spec_linked(self.blocks@)
        &&& forall|i: int|
            0 <= i < self.blocks.len() ==> (#[trigger] self.blocks[i]).header.number
                < self.blocks.len()
        &&& spec_find_block(self.blocks@, self.best) is Some
        &&& spec_find_block(self.blocks@, self.finalized) is Some
    }

    /// A fresh chain holding only a genesis block under the given hash; the
    /// genesis block is its own best and finalized head.
    pub fn new(genesis_hash: BlockHash) -> (r: Chain)
        ensures
            r.wf(),
            r.blocks@.len() == 1,
            r.blocks@[0].hash == genesis_hash,
            r.blocks@[0].header == (Header { parent_hash: genesis_hash, number: 0, extrinsics_root: 0 }),
            r.blocks@[0].body@ == Seq::<u64>::empty(),
            r.best == genesis_hash,
            r.finalized == genesis_hash,
    {
        let record = BlockRecord {
            hash: genesis_hash,
            header: Header { parent_hash: genesis_hash, number: 0, extrinsics_root: 0 },
            body: Vec::new(),
        };
        let mut blocks: Vec<BlockRecord> = Vec::new();
        blocks.push(record);
        let r = Chain { blocks, best: genesis_hash, finalized: genesis_hash };
        proof {
            assert(spec_find_block(r.blocks@, genesis_hash) == Some(r.blocks@[0]));
        }
        r
    }

    /// Index of the block with hash `h`, mirroring the first-match lookup.
    pub fn find_index(&self, h: BlockHash) -> (r: Option<usize>)
        ensures
            match r {
                Some(i) => i < self.blocks.len() && self.blocks@[i as int].hash == h
                    && spec_find_block(self.blocks@, h) == Some(self.blocks@[i as int]),
                None => spec_find_block(self.blocks@, h) is None,
            },
    {
        let ghost s = self.blocks@;
        proof {
            assert(s.skip(0) =~= s);
        }
        let mut i: usize = 0;
        while i < self.blocks.len()
            invariant
                i <= self.blocks.len(),
                s == self.blocks@,
                spec_find_block(s, h) == spec_find_block(s.skip(i as int), h),
            decreases self.blocks.len() - i,
        {
            if self.blocks[i].hash == h {
                proof {
                    assert(s.skip(i as int)[0] == s[i as int]);
                }
                return Some(i);
            }
            proof {
                assert(s.skip(i as int)[0] == s[i as int]);
                assert(s.skip(i as int).drop_first() =~= s.skip(i as int + 1));
            }
            i = i + 1;
        }
        proof {
            assert(s.skip(i as int) =~= Seq::<BlockRecord>::empty());
        }
        None
    }

    /// Header of the block with hash `h`, as the chain-metadata collaborator
    /// would serve it.
    pub fn lookup_header(&self, h: BlockHash) -> (r: Option<Header>)
        ensures
            match spec_find_block(self.blocks@, h) {
                Some(b) => r == Some(b.header),
                None => r is None,
            },
    {
        match self.find_index(h) {
            Some(i) => Some(self.blocks[i].header),
            None => None,
        }
    }

    /// Header of the current best head, as the chain-selection collaborator
    /// would serve it.
    pub fn best_header(&self) -> (r: Header)
        requires
            self.wf(),
        ensures
            spec_find_block(self.blocks@, self.best) matches Some(b) && r == b.header,
    {
        match self.find_index(self.best) {
            Some(i) => self.blocks[i].header,
            None => unreached(),
        }
    }

    /// Whether `target` is `head` or one of its ancestors, walking parent
    /// links from `head`.
    pub fn is_ancestor(&self, head: BlockHash, target: BlockHash) -> (r: bool)
        requires
            self.wf(),
        ensures
            r == spec_is_ancestor(self.blocks@, head, target),
    {
        let ghost s = self.blocks@;
        let mut cur = head;
        if self.find_index(cur).is_none() {
            return false;
        }
        loop
            invariant
                self.wf(),
                s == self.blocks@,
                spec_find_block(s, cur) is Some,
                spec_is_ancestor(s, head, target) == spec_reachable(
                    s,
                    cur,
                    target,
                    spec_block_number(s, cur),
                ),
            decreases spec_block_number(s, cur),
        {
            if cur == target {
                return true;
            }
            let i = match self.find_index(cur) {
                Some(i) => i,
                None => unreached(),
            };
            let b = &self.blocks[i];
            if b.header.number == 0 {
                return false;
            }
            proof {
                assert(spec_find_block(s, s[i as int].header.parent_hash) matches Some(p)
                    && p.header.number + 1 == s[i as int].header.number);
            }
            cur = b.header.parent_hash;
        }
    }
}

/// Rotate-and-mix digest of a block body, standing in for the extrinsics
/// commitment a real header would carry.
pub open spec fn spec_extrinsics_root(body: Seq<u64>) -> u64
    decreases body.len(),
{
    if body.len() == 0 {
        0u64
    } else {
        let acc = spec_extrinsics_root(body.drop_last());
        (((acc << 5) | (acc >> 59)) ^ body.last()) as u64
    }
}

/// Computes [`spec_extrinsics_root`] over the body.
pub fn extrinsics_root(body: &Vec<u64>) -> (r: u64)
    ensures
        r == spec_extrinsics_root(body@),
{
    let ghost s = body@;
    let mut acc: u64 = 0;
    let mut i: usize = 0;
    while i < body.len()
        invariant
            i <= body.len(),
            s == body@,
            acc == spec_extrinsics_root(s.subrange(0, i as int)),
        decreases body.len() - i,
    {
        proof {
            assert(s.subrange(0, i as int + 1).drop_last() =~= s.subrange(0, i as int));
            assert(s.subrange(0, i as int + 1).last() == s[i as int]);
        }
        acc = ((acc << 5) | (acc >> 59)) ^ body[i];
        i = i + 1;
    }
    proof {
        assert(s.subrange(0, i as int) =~= s);
    }
    acc
}

/// Identity of a header: a mix of parent hash, height and body digest. It
/// stands in for the cryptographic header hash of a real chain.
pub open spec fn spec_header_hash(h: Header) -> u64 {
    ((((h.parent_hash << 7) | (h.parent_hash >> 57)) ^ ((h.number << 23) | (h.number >> 41)))
        ^ h.extrinsics_root) as u64
}

/// Computes [`spec_header_hash`].
pub fn header_hash(h: &Header) -> (r: u64)
    ensures
        r == spec_header_hash(*h),
{
    (((h.parent_hash << 7) | (h.parent_hash >> 57)) ^ ((h.number << 23) | (h.number >> 41)))
        ^ h.extrinsics_root
}

} // verus!
