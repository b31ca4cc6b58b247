use slot_authorship::chain::Chain;
use slot_authorship::claim::{claim_slot, Claim, VrfEvaluation};
use slot_authorship::epoch::{Authority, Epoch, GenesisConfig};
use slot_authorship::registry::EpochRegistry;
use slot_authorship::scheduler::{schedule_for_epoch, BabeRPC};
use slot_authorship::{Error, LookupError};

const ALWAYS: u128 = 1u128 << 64;

fn epoch_of(authorities: Vec<Authority>) -> Epoch {
    Epoch { start_slot: 0, duration: 100, authorities, randomness: 11 }
}

#[test]
fn primary_claim_when_output_is_below_threshold() {
    let epoch = epoch_of(vec![Authority { key: 7, threshold: ALWAYS }]);
    let keys = vec![7u64];
    let evals = vec![VrfEvaluation { output: 5, vrf_proof: 9 }];
    let r = claim_slot(3, &epoch, &keys, &evals);
    assert_eq!(
        r,
        Some(Claim::Primary { threshold: ALWAYS, key: 7, vrf_output: 5, vrf_proof: 9 })
    );
}

#[test]
fn secondary_claim_when_round_robin_author_is_local() {
    let epoch = epoch_of(vec![
        Authority { key: 7, threshold: 0 },
        Authority { key: 8, threshold: 0 },
    ]);
    let keys = vec![8u64];
    let evals = vec![VrfEvaluation { output: 5, vrf_proof: 9 }];
    // slot 1 mod 2 authorities: authority index 1, key 8, which is local
    let r = claim_slot(1, &epoch, &keys, &evals);
    assert_eq!(r, Some(Claim::Secondary { authority_index: 1 }));
    // slot 0 belongs to authority 0, key 7, which is not local
    let r = claim_slot(0, &epoch, &keys, &evals);
    assert_eq!(r, None);
}

#[test]
fn no_claim_without_local_keys() {
    let epoch = epoch_of(vec![Authority { key: 7, threshold: ALWAYS }]);
    let keys: Vec<u64> = vec![];
    let evals: Vec<VrfEvaluation> = vec![];
    assert_eq!(claim_slot(3, &epoch, &keys, &evals), None);
}

#[test]
fn primary_claims_are_preferred_over_secondary() {
    // the round-robin author of slot 0 is local, but so is a primary-capable key
    let epoch = epoch_of(vec![Authority { key: 7, threshold: ALWAYS }]);
    let keys = vec![7u64];
    let evals = vec![VrfEvaluation { output: 1, vrf_proof: 2 }];
    let r = claim_slot(0, &epoch, &keys, &evals);
    match r {
        Some(Claim::Primary { key, .. }) => assert_eq!(key, 7),
        other => panic!("expected a primary claim, got {:?}", other),
    }
}

#[test]
fn claim_slot_is_deterministic() {
    let epoch = epoch_of(vec![
        Authority { key: 7, threshold: ALWAYS },
        Authority { key: 8, threshold: 0 },
    ]);
    let keys = vec![8u64, 7u64];
    let evals = vec![
        VrfEvaluation { output: 3, vrf_proof: 4 },
        VrfEvaluation { output: 5, vrf_proof: 6 },
    ];
    let r1 = claim_slot(13, &epoch, &keys, &evals);
    let r2 = claim_slot(13, &epoch, &keys, &evals);
    assert_eq!(r1, r2);
}

#[test]
fn schedule_covers_every_slot_when_all_claims_exist() {
    let chain = Chain::new(1);
    let registry = EpochRegistry::new(Some(GenesisConfig {
        duration: 4,
        authorities: vec![Authority { key: 7, threshold: ALWAYS }],
        randomness: 11,
    }));
    let keys = vec![7u64];
    let vrf: Vec<Vec<VrfEvaluation>> = (0..4)
        .map(|i| vec![VrfEvaluation { output: i, vrf_proof: i }])
        .collect();
    let v = schedule_for_epoch(&chain, &registry, &keys, 0, &vrf).expect("schedule");
    assert_eq!(v.len(), 4);
    for (i, entry) in v.iter().enumerate() {
        assert_eq!(entry.slot_number, i as u64);
        assert!(matches!(entry.claim, Claim::Primary { .. }));
    }
}

#[test]
fn schedule_skips_unclaimable_slots() {
    let chain = Chain::new(1);
    let registry = EpochRegistry::new(Some(GenesisConfig {
        duration: 4,
        authorities: vec![Authority { key: 9, threshold: 0 }],
        randomness: 11,
    }));
    // the only authority is not local: no primary, no secondary
    let keys = vec![7u64];
    let vrf: Vec<Vec<VrfEvaluation>> = (0..4)
        .map(|_| vec![VrfEvaluation { output: 0, vrf_proof: 0 }])
        .collect();
    let v = schedule_for_epoch(&chain, &registry, &keys, 0, &vrf).expect("schedule");
    assert_eq!(v.len(), 0);
}

#[test]
fn authorship_query_fails_without_epoch_data() {
    let chain = Chain::new(1);
    let rpc = BabeRPC::new(EpochRegistry::new(None), vec![7u64]);
    let vrf: Vec<Vec<VrfEvaluation>> = vec![];
    let r = rpc.epoch_authorship(&chain, 0, &vrf);
    assert_eq!(r.err(), Some(Error::Consensus(LookupError::NoEpochData)));
}

#[test]
fn authorship_query_returns_the_epoch_schedule() {
    let chain = Chain::new(1);
    let rpc = BabeRPC::new(
        EpochRegistry::new(Some(GenesisConfig {
            duration: 3,
            authorities: vec![
                Authority { key: 7, threshold: 0 },
                Authority { key: 9, threshold: 0 },
            ],
            randomness: 11,
        })),
        vec![7u64],
    );
    let vrf: Vec<Vec<VrfEvaluation>> = (0..3)
        .map(|_| vec![VrfEvaluation { output: 0, vrf_proof: 0 }])
        .collect();
    let v = rpc.epoch_authorship(&chain, 0, &vrf).expect("schedule");
    // slots 0 and 2 round-robin to authority 0 (local key 7); slot 1 does not
    assert_eq!(v.len(), 2);
    assert_eq!(v[0].slot_number, 0);
    assert_eq!(v[0].claim, Claim::Secondary { authority_index: 0 });
    assert_eq!(v[1].slot_number, 2);
    assert_eq!(v[1].claim, Claim::Secondary { authority_index: 0 });
}
