use slot_authorship::chain::{header_hash, Chain, Header};
use slot_authorship::channel::ResultChannel;
use slot_authorship::seal::{
    attempt_seal, import_block, seal_new_block, BlockImportParams, BlockOrigin, Extrinsic,
    ForkChoiceStrategy, ImportResult, SealBlockParams, TransactionPool,
};
use slot_authorship::{Error, ImportRejection};

fn pool_of(ready: Vec<Extrinsic>) -> TransactionPool {
    TransactionPool { ready }
}

#[test]
fn empty_pool_without_create_empty_fails() {
    let mut chain = Chain::new(1);
    let pool = pool_of(vec![]);
    let inherents: Vec<u64> = vec![];
    let r = attempt_seal(false, false, None, &pool, &inherents, &mut chain);
    assert_eq!(r, Err(Error::EmptyTransactionPool));
    // the import pipeline was never reached: the chain is untouched
    assert_eq!(chain.blocks.len(), 1);
    assert_eq!(chain.best, 1);
    assert_eq!(chain.finalized, 1);
}

#[test]
fn create_empty_seals_block_with_zero_transactions() {
    let mut chain = Chain::new(1);
    let pool = pool_of(vec![]);
    let inherents: Vec<u64> = vec![];
    let r = attempt_seal(true, false, None, &pool, &inherents, &mut chain);
    let cb = r.expect("empty block allowed");
    assert_eq!(chain.blocks.len(), 2);
    assert_eq!(chain.blocks[1].body.len(), 0);
    assert_eq!(chain.blocks[1].hash, cb.hash);
    assert!(cb.aux.is_new_best);
    assert_eq!(chain.best, cb.hash);
    // finalize was not requested
    assert_eq!(chain.finalized, 1);
}

#[test]
fn unknown_explicit_parent_fails_with_block_not_found() {
    let mut chain = Chain::new(1);
    let pool = pool_of(vec![Extrinsic { id: 10, valid: true }]);
    let inherents: Vec<u64> = vec![];
    let r = attempt_seal(false, false, Some(999), &pool, &inherents, &mut chain);
    assert_eq!(r, Err(Error::BlockNotFound(999)));
    assert_eq!(chain.blocks.len(), 1);
}

#[test]
fn end_to_end_three_transactions_finalized() {
    let mut chain = Chain::new(1);
    let pool = pool_of(vec![
        Extrinsic { id: 10, valid: true },
        Extrinsic { id: 11, valid: true },
        Extrinsic { id: 12, valid: true },
    ]);
    let inherents: Vec<u64> = vec![];
    let params = SealBlockParams {
        create_empty: false,
        finalize: true,
        parent_hash: None,
        sender: ResultChannel::new(),
        pool,
        inherents,
    };
    let mut reply = seal_new_block(params, &mut chain);
    let outcome = reply.recv().expect("outcome is delivered exactly once");
    let cb = outcome.expect("sealing succeeds");
    assert_eq!(chain.blocks.len(), 2);
    assert_eq!(chain.blocks[1].body, vec![10, 11, 12]);
    assert_eq!(chain.blocks[1].header.number, 1);
    assert_eq!(chain.best, cb.hash);
    assert_eq!(chain.finalized, cb.hash);
    assert!(cb.aux.is_new_best);
    // the channel was consumed; a second receive yields nothing
    assert_eq!(reply.recv(), None);
}

#[test]
fn pool_whose_transactions_are_all_rejected_fails_after_proposal() {
    let mut chain = Chain::new(1);
    // the pool reports ready transactions, but the runtime rejects them all
    let pool = pool_of(vec![
        Extrinsic { id: 10, valid: false },
        Extrinsic { id: 11, valid: false },
    ]);
    let inherents: Vec<u64> = vec![];
    let r = attempt_seal(false, false, None, &pool, &inherents, &mut chain);
    assert_eq!(r, Err(Error::EmptyTransactionPool));
    assert_eq!(chain.blocks.len(), 1);
}

#[test]
fn rejected_transactions_are_dropped_from_the_block() {
    let mut chain = Chain::new(1);
    let pool = pool_of(vec![
        Extrinsic { id: 10, valid: true },
        Extrinsic { id: 11, valid: false },
        Extrinsic { id: 12, valid: true },
    ]);
    let inherents: Vec<u64> = vec![7];
    let r = attempt_seal(false, false, None, &pool, &inherents, &mut chain);
    assert!(r.is_ok());
    // inherents first, then the accepted transactions, in pool order
    assert_eq!(chain.blocks[1].body, vec![7, 10, 12]);
}

#[test]
fn sealing_twice_on_the_same_parent_is_already_in_chain() {
    let mut chain = Chain::new(1);
    let pool = pool_of(vec![Extrinsic { id: 10, valid: true }]);
    let inherents: Vec<u64> = vec![];
    let first = attempt_seal(false, false, Some(1), &pool, &inherents, &mut chain);
    assert!(first.is_ok());
    let second = attempt_seal(false, false, Some(1), &pool, &inherents, &mut chain);
    assert_eq!(second, Err(Error::Import(ImportRejection::AlreadyInChain)));
    assert_eq!(chain.blocks.len(), 2);
}

#[test]
fn import_rejects_unknown_parent() {
    let mut chain = Chain::new(1);
    let header = Header { parent_hash: 555, number: 1, extrinsics_root: 0 };
    let r = import_block(
        &mut chain,
        BlockImportParams {
            origin: BlockOrigin::Own,
            header,
            body: Some(vec![]),
            finalized: false,
            fork_choice: ForkChoiceStrategy::LongestChain,
        },
    );
    assert_eq!(r, ImportResult::UnknownParent);
    assert_eq!(chain.blocks.len(), 1);
}

#[test]
fn import_rejects_inconsistent_height() {
    let mut chain = Chain::new(1);
    let header = Header { parent_hash: 1, number: 5, extrinsics_root: 0 };
    let r = import_block(
        &mut chain,
        BlockImportParams {
            origin: BlockOrigin::Own,
            header,
            body: Some(vec![]),
            finalized: false,
            fork_choice: ForkChoiceStrategy::LongestChain,
        },
    );
    assert_eq!(r, ImportResult::KnownBad);
    assert_eq!(chain.blocks.len(), 1);
}

#[test]
fn custom_fork_choice_keeps_the_old_best() {
    let mut chain = Chain::new(1);
    let header = Header { parent_hash: 1, number: 1, extrinsics_root: 0 };
    let h = header_hash(&header);
    let r = import_block(
        &mut chain,
        BlockImportParams {
            origin: BlockOrigin::NetworkBroadcast,
            header,
            body: Some(vec![]),
            finalized: false,
            fork_choice: ForkChoiceStrategy::Custom(false),
        },
    );
    match r {
        ImportResult::Imported(aux) => assert!(!aux.is_new_best),
        other => panic!("expected Imported, got {:?}", other),
    }
    assert_eq!(chain.blocks.len(), 2);
    assert_eq!(chain.blocks[1].hash, h);
    assert_eq!(chain.best, 1);
}
