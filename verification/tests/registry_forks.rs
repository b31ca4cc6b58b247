use slot_authorship::chain::{header_hash, Chain, Header};
use slot_authorship::epoch::{Authority, Epoch, GenesisConfig};
use slot_authorship::registry::EpochRegistry;
use slot_authorship::seal::{import_block, BlockImportParams, BlockOrigin, ForkChoiceStrategy, ImportResult};
use slot_authorship::LookupError;

fn genesis_config() -> GenesisConfig {
    GenesisConfig {
        duration: 20,
        authorities: vec![Authority { key: 7, threshold: 0 }],
        randomness: 3,
    }
}

/// Appends a child of `parent_hash` carrying `root` and returns its hash.
fn grow(chain: &mut Chain, parent_hash: u64, root: u64) -> u64 {
    let number = match chain.lookup_header(parent_hash) {
        Some(h) => h.number + 1,
        None => panic!("parent must be in the chain"),
    };
    let header = Header { parent_hash, number, extrinsics_root: root };
    let h = header_hash(&header);
    let r = import_block(
        chain,
        BlockImportParams {
            origin: BlockOrigin::Own,
            header,
            body: Some(vec![]),
            finalized: false,
            fork_choice: ForkChoiceStrategy::Custom(false),
        },
    );
    assert!(matches!(r, ImportResult::Imported(_)));
    h
}

#[test]
fn genesis_fallback_when_tree_is_empty() {
    let chain = Chain::new(1);
    let registry = EpochRegistry::new(Some(genesis_config()));
    let e = registry.epoch_for_slot(&chain, 1, 42).expect("genesis fallback applies");
    assert_eq!(e.start_slot, 42);
    assert_eq!(e.duration, 20);
    assert_eq!(e.randomness, 3);
    assert_eq!(e.authorities.len(), 1);
    assert_eq!(e.authorities[0].key, 7);
}

#[test]
fn no_epoch_data_without_genesis_fallback() {
    let chain = Chain::new(1);
    let registry = EpochRegistry::new(None);
    let r = registry.epoch_for_slot(&chain, 1, 42);
    assert_eq!(r.err(), Some(LookupError::NoEpochData));
}

#[test]
fn unknown_fork_head_is_a_chain_lookup_failure() {
    let chain = Chain::new(1);
    let registry = EpochRegistry::new(Some(genesis_config()));
    let r = registry.epoch_for_slot(&chain, 888, 42);
    assert_eq!(r.err(), Some(LookupError::ChainLookup));
}

#[test]
fn transition_governs_descendants_only() {
    let mut chain = Chain::new(1);
    // two children of genesis: separate forks
    let a = grow(&mut chain, 1, 100);
    let b = grow(&mut chain, 1, 200);
    let a2 = grow(&mut chain, a, 101);

    let mut registry = EpochRegistry::new(Some(genesis_config()));
    let epoch = Epoch {
        start_slot: 100,
        duration: 50,
        authorities: vec![Authority { key: 9, threshold: 1 }],
        randomness: 5,
    };
    assert!(registry.import_epoch_transition(a, epoch));

    // every descendant of the transition block sees the recorded epoch
    for head in [a, a2] {
        let e = registry.epoch_for_slot(&chain, head, 100).expect("epoch is recorded");
        assert_eq!(e.start_slot, 100);
        assert_eq!(e.duration, 50);
        assert_eq!(e.randomness, 5);
        assert_eq!(e.authorities[0].key, 9);
    }

    // the sibling fork still resolves to the pre-transition (genesis) epoch
    let e = registry.epoch_for_slot(&chain, b, 100).expect("genesis fallback applies");
    assert_eq!(e.start_slot, 100);
    assert_eq!(e.duration, 20);
    assert_eq!(e.randomness, 3);
    assert_eq!(e.authorities[0].key, 7);
}

#[test]
fn ancestry_follows_parent_links() {
    let mut chain = Chain::new(1);
    let a = grow(&mut chain, 1, 100);
    let b = grow(&mut chain, 1, 200);
    let a2 = grow(&mut chain, a, 101);
    assert!(chain.is_ancestor(a2, a));
    assert!(chain.is_ancestor(a2, 1));
    assert!(chain.is_ancestor(a2, a2));
    assert!(!chain.is_ancestor(a2, b));
    assert!(!chain.is_ancestor(a, a2));
    assert!(!chain.is_ancestor(888, 1));
}

#[test]
fn epoch_transitions_are_append_only() {
    let mut registry = EpochRegistry::new(None);
    let epoch = Epoch {
        start_slot: 0,
        duration: 10,
        authorities: vec![],
        randomness: 0,
    };
    assert!(registry.import_epoch_transition(5, epoch));
    let second = Epoch {
        start_slot: 90,
        duration: 10,
        authorities: vec![],
        randomness: 1,
    };
    // a second record at the same block leaves the first untouched
    assert!(!registry.import_epoch_transition(5, second));
    assert_eq!(registry.entries.len(), 1);
    assert_eq!(registry.entries[0].epoch.start_slot, 0);
}

#[test]
fn nearest_covering_record_wins() {
    let mut chain = Chain::new(1);
    let a = grow(&mut chain, 1, 100);
    let a2 = grow(&mut chain, a, 101);

    let mut registry = EpochRegistry::new(None);
    let outer = Epoch {
        start_slot: 0,
        duration: 1000,
        authorities: vec![Authority { key: 1, threshold: 0 }],
        randomness: 1,
    };
    let inner = Epoch {
        start_slot: 500,
        duration: 100,
        authorities: vec![Authority { key: 2, threshold: 0 }],
        randomness: 2,
    };
    assert!(registry.import_epoch_transition(a, outer));
    assert!(registry.import_epoch_transition(a2, inner));

    // a slot covered by both resolves to the record nearest to the head
    let e = registry.epoch_for_slot(&chain, a2, 550).expect("covered");
    assert_eq!(e.randomness, 2);
    // a slot only the outer record covers walks one level further
    let e = registry.epoch_for_slot(&chain, a2, 100).expect("covered");
    assert_eq!(e.randomness, 1);
}
