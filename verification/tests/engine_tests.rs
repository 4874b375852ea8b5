use authority_round::address_of;
use authority_round::engine::AuthorityRoundEngine;
use authority_round::engine::AuthorityRoundParams;
use authority_round::engine::EngineError;
use authority_round::engine::EngineStatus;
use authority_round::engine::Header;
use authority_round::engine::HeaderPreimage;
use authority_round::engine::Spec;
use authority_round::seal::Seal;
use authority_round::seal::SealError;
use authority_round::seal::seal_message;
use authority_round::seal::sign_message;
use authority_round::step_clock::StepClock;

const K0: u64 = 1001;
const K1: u64 = 1002;
const K2: u64 = 1003;
const K3: u64 = 1004;
const K4: u64 = 1005;

fn three_validators() -> Vec<u64> {
    vec![address_of(K0), address_of(K1), address_of(K2)]
}

fn params_with(validators: Vec<u64>, step_duration: u64, genesis_time: u64) -> AuthorityRoundParams {
    AuthorityRoundParams {
        step_duration,
        validators,
        start_block: None,
        empty_steps_enabled: false,
        genesis_time,
        engine_id: 7,
    }
}

#[test]
fn scenario_a_step_and_proposer() {
    // Validator set [V0, V1, V2], step duration 5 s, genesis at T0 = 100.
    let engine = AuthorityRoundEngine::new(params_with(three_validators(), 5, 100), K2).unwrap();
    // At now = T0 + 12 s the clock reads step 2 ...
    assert_eq!(engine.clock.current_step(112), 2);
    // ... and V2 proposes it, at any height.
    assert_eq!(engine.validators.proposer_for(1, 2), address_of(K2));
    assert_eq!(engine.validators.proposer_for(900, 2), address_of(K2));
    assert!(engine.is_proposer(1, 2));
}

#[test]
fn proposer_rotates_round_robin() {
    let engine = AuthorityRoundEngine::new(params_with(three_validators(), 5, 100), K0).unwrap();
    assert_eq!(engine.validators.proposer_for(1, 0), address_of(K0));
    assert_eq!(engine.validators.proposer_for(1, 1), address_of(K1));
    assert_eq!(engine.validators.proposer_for(1, 2), address_of(K2));
    assert_eq!(engine.validators.proposer_for(1, 3), address_of(K0));
    assert_eq!(engine.validators.proposer_for(1, 7), address_of(K1));
}

#[test]
fn single_validator_always_proposes() {
    let engine =
        AuthorityRoundEngine::new(params_with(vec![address_of(K0)], 1, 0), K0).unwrap();
    for step in [0u64, 1, 2, 77, 1_000_000] {
        assert!(engine.is_proposer(5, step));
    }
}

#[test]
fn two_validators_alternate() {
    let vals = vec![address_of(K0), address_of(K1)];
    let engine = AuthorityRoundEngine::new(params_with(vals.clone(), 5, 0), K0).unwrap();
    for step in 0..10u64 {
        assert_eq!(
            engine.validators.proposer_for(1, step),
            vals[(step % 2) as usize]
        );
    }
}

#[test]
fn seven_validators_wrap() {
    let vals: Vec<u64> = (0..7u64).map(|i| address_of(2000 + i)).collect();
    let engine = AuthorityRoundEngine::new(params_with(vals.clone(), 5, 0), 2000).unwrap();
    for step in 0..21u64 {
        assert_eq!(
            engine.validators.proposer_for(3, step),
            vals[(step % 7) as usize]
        );
    }
}

#[test]
fn current_step_is_monotonic_and_idempotent() {
    let clock = StepClock::new(100, 5);
    let readings = [90u64, 100, 101, 104, 105, 105, 112, 112, 200, u64::MAX];
    let mut last = 0u64;
    for now in readings {
        let step = clock.current_step(now);
        assert!(step >= last);
        assert_eq!(step, clock.current_step(now));
        last = step;
    }
    // Before genesis the clock clamps to step zero.
    assert_eq!(clock.current_step(0), 0);
    assert_eq!(clock.current_step(100), 0);
}

#[test]
fn duration_remaining_until_step() {
    let clock = StepClock::new(100, 5);
    // Step 3 begins at 115.
    assert_eq!(clock.duration_remaining(3, 112), 3);
    assert_eq!(clock.duration_remaining(3, 115), 0);
    assert_eq!(clock.duration_remaining(3, 200), 0);
    assert_eq!(clock.duration_remaining(0, 0), 100);
    // A step whose start does not fit saturates to the far future.
    assert_eq!(
        clock.duration_remaining(u64::MAX, 50),
        u64::MAX - 50
    );
}

#[test]
fn digest_matches_reference_values() {
    // 64-bit FNV-1a test vectors: the offset basis for the empty string,
    // and the digest of the single byte `a`.
    assert_eq!(authority_round::seal::digest(&vec![]), 0xcbf2_9ce4_8422_2325);
    assert_eq!(authority_round::seal::digest(&vec![0x61]), 0xaf63_dc4c_8601_ec8c);
}

#[test]
fn signature_recovers_its_signer() {
    let message = seal_message(7, 2, 0xabcd);
    let signer = address_of(K1);
    let signature = sign_message(signer, &message);
    assert_eq!(authority_round::seal::recover_signer(signature, &message), signer);
}

#[test]
fn generated_seal_verifies() {
    let mut engine =
        AuthorityRoundEngine::new(params_with(three_validators(), 5, 100), K2).unwrap();
    let preimage = HeaderPreimage { parent_step: 1, content_hash: 0xabcd };
    let seal = engine.generate_seal(&preimage, 10, 2).unwrap();
    assert_eq!(seal.step, 2);
    let header = Header { parent_step: 1, content_hash: 0xabcd, seal };
    assert_eq!(engine.verify_seal(&header, 10), Ok(()));
}

#[test]
fn foreign_seal_is_rejected() {
    let engine = AuthorityRoundEngine::new(params_with(three_validators(), 5, 100), K2).unwrap();
    let message = seal_message(7, 2, 0xabcd);

    // Signed by an identity outside the validator set.
    let stranger = address_of(K3);
    let seal = Seal { step: 2, signature: sign_message(stranger, &message), empty_step_proofs: vec![] };
    let header = Header { parent_step: 1, content_hash: 0xabcd, seal };
    assert_eq!(engine.verify_seal(&header, 10), Err(SealError::UnknownAuthority));

    // Signed by a validator that does not hold step 2.
    let wrong_turn = address_of(K0);
    let seal = Seal { step: 2, signature: sign_message(wrong_turn, &message), empty_step_proofs: vec![] };
    let header = Header { parent_step: 1, content_hash: 0xabcd, seal };
    assert_eq!(engine.verify_seal(&header, 10), Err(SealError::BadSignature));
}

#[test]
fn seal_step_must_advance_past_parent() {
    let mut engine =
        AuthorityRoundEngine::new(params_with(three_validators(), 5, 100), K2).unwrap();
    let preimage = HeaderPreimage { parent_step: 1, content_hash: 5 };
    let seal = engine.generate_seal(&preimage, 10, 2).unwrap();
    // The same seal presented over a parent already at step 2 is stale.
    let header = Header { parent_step: 2, content_hash: 5, seal };
    assert_eq!(engine.verify_seal(&header, 10), Err(SealError::StepMismatch));
}

#[test]
fn double_seal_guard() {
    let mut engine =
        AuthorityRoundEngine::new(params_with(three_validators(), 5, 100), K2).unwrap();
    let preimage = HeaderPreimage { parent_step: 1, content_hash: 5 };
    assert!(engine.generate_seal(&preimage, 10, 2).is_ok());
    // The same instance must refuse to seal step 2 a second time.
    assert_eq!(
        engine.generate_seal(&preimage, 10, 2).err(),
        Some(EngineError::AlreadySealed)
    );
    // Later steps are still available.
    let preimage5 = HeaderPreimage { parent_step: 2, content_hash: 6 };
    assert!(engine.generate_seal(&preimage5, 10, 5).is_ok());
}

#[test]
fn not_proposer_cannot_seal() {
    let mut engine =
        AuthorityRoundEngine::new(params_with(three_validators(), 5, 100), K0).unwrap();
    let preimage = HeaderPreimage { parent_step: 1, content_hash: 5 };
    // Step 2 belongs to V2, not V0.
    assert_eq!(
        engine.generate_seal(&preimage, 10, 2).err(),
        Some(EngineError::NotProposer)
    );
}

#[test]
fn scenario_b_empty_step_attestations() {
    // V1 holds step 7 but is offline; no block arrives.  Step 8 begins and
    // V2, its proposer, seals with an attestation for the skipped step 7.
    let mut params = params_with(three_validators(), 5, 100);
    params.empty_steps_enabled = true;
    let mut engine = AuthorityRoundEngine::new(params, K2).unwrap();
    assert_eq!(engine.validators.proposer_for(10, 8), address_of(K2));

    let preimage = HeaderPreimage { parent_step: 6, content_hash: 0xfeed };
    let seal = engine.generate_seal(&preimage, 10, 8).unwrap();
    assert_eq!(seal.empty_step_proofs.len(), 1);
    assert_eq!(seal.empty_step_proofs[0].step, 7);

    let header = Header { parent_step: 6, content_hash: 0xfeed, seal: seal.clone() };
    assert_eq!(engine.verify_seal(&header, 10), Ok(()));

    // A header claiming step 7 was empty without the correctly formed
    // attestation is rejected.
    let bare = Seal { step: seal.step, signature: seal.signature, empty_step_proofs: vec![] };
    let header = Header { parent_step: 6, content_hash: 0xfeed, seal: bare };
    assert_eq!(
        engine.verify_seal(&header, 10),
        Err(SealError::MissingEmptyStepProof)
    );
}

#[test]
fn scenario_c_epoch_transition() {
    // An epoch transition at height 1000 grows the set from 3 to 5 members.
    let old_vals = three_validators();
    let new_vals = vec![
        address_of(K0),
        address_of(K1),
        address_of(K2),
        address_of(K3),
        address_of(K4),
    ];
    let mut engine =
        AuthorityRoundEngine::new(params_with(old_vals.clone(), 5, 100), K0).unwrap();
    engine.validators.add_transition(1000, new_vals.clone()).unwrap();

    for step in 0..30u64 {
        assert_eq!(
            engine.validators.proposer_for(999, step),
            old_vals[(step % 3) as usize]
        );
        assert_eq!(
            engine.validators.proposer_for(1000, step),
            new_vals[(step % 5) as usize]
        );
        assert_eq!(
            engine.validators.proposer_for(5000, step),
            new_vals[(step % 5) as usize]
        );
    }
}

#[test]
fn transition_rejects_bad_lists() {
    let mut engine =
        AuthorityRoundEngine::new(params_with(three_validators(), 5, 100), K0).unwrap();
    assert_eq!(
        engine.validators.add_transition(50, vec![]).err(),
        Some(EngineError::InvalidConfiguration)
    );
    let twice = address_of(K3);
    assert_eq!(
        engine.validators.add_transition(50, vec![twice, twice]).err(),
        Some(EngineError::InvalidConfiguration)
    );
    // A height already holding a transition cannot be overwritten.
    engine.validators.add_transition(60, vec![address_of(K3)]).unwrap();
    assert_eq!(
        engine.validators.add_transition(60, vec![address_of(K4)]).err(),
        Some(EngineError::InvalidConfiguration)
    );
}

#[test]
fn failed_transition_stops_the_engine() {
    let mut engine =
        AuthorityRoundEngine::new(params_with(three_validators(), 5, 100), K0).unwrap();
    assert!(engine.start());
    assert_eq!(
        engine.apply_transition(500, vec![]).err(),
        Some(EngineError::InvalidConfiguration)
    );
    assert_eq!(engine.status, EngineStatus::Stopped);

    let mut engine =
        AuthorityRoundEngine::new(params_with(three_validators(), 5, 100), K0).unwrap();
    assert!(engine.start());
    engine.apply_transition(500, vec![address_of(K3)]).unwrap();
    assert_eq!(engine.status, EngineStatus::Running);
    assert_eq!(engine.validators.proposer_for(500, 0), address_of(K3));
    assert_eq!(engine.validators.proposer_for(499, 0), address_of(K0));
}

#[test]
fn construction_rejects_bad_configuration() {
    assert_eq!(
        AuthorityRoundEngine::new(params_with(vec![], 5, 100), K0).err(),
        Some(EngineError::InvalidConfiguration)
    );
    let dup = address_of(K0);
    assert_eq!(
        AuthorityRoundEngine::new(params_with(vec![dup, dup], 5, 100), K0).err(),
        Some(EngineError::InvalidConfiguration)
    );
    assert_eq!(
        AuthorityRoundEngine::new(params_with(three_validators(), 0, 100), K0).err(),
        Some(EngineError::InvalidConfiguration)
    );
}

#[test]
fn lifecycle_is_one_way() {
    let mut engine =
        AuthorityRoundEngine::new(params_with(three_validators(), 5, 100), K0).unwrap();
    assert_eq!(engine.status, EngineStatus::Idle);
    assert!(engine.start());
    assert_eq!(engine.status, EngineStatus::Running);
    assert!(!engine.start());
    assert!(engine.stop());
    assert_eq!(engine.status, EngineStatus::Stopped);
    // Stopped is terminal: no restart.
    assert!(!engine.start());
    assert!(!engine.stop());
    assert_eq!(engine.status, EngineStatus::Stopped);
}

#[test]
fn step_watch_reports_latest_and_never_regresses() {
    let mut engine =
        AuthorityRoundEngine::new(params_with(three_validators(), 5, 100), K0).unwrap();
    assert!(!engine.on_step_change(5));
    assert_eq!(engine.watch.read(), (1, 5));
    // A backward clock jump is reported and clamped, never propagated.
    assert!(engine.on_step_change(3));
    assert_eq!(engine.watch.read(), (2, 5));
    assert_eq!(engine.observed_step, 5);
    assert!(!engine.on_step_change(9));
    assert_eq!(engine.watch.read(), (3, 9));
}

#[test]
fn spec_from_params() {
    let spec = Spec::from_params("round".to_string(), params_with(three_validators(), 5, 100), K0)
        .unwrap();
    assert_eq!(spec.name, "round");
    assert_eq!(spec.engine.status, EngineStatus::Idle);
    assert_eq!(
        Spec::from_params("round".to_string(), params_with(vec![], 5, 100), K0).err(),
        Some(EngineError::InvalidConfiguration)
    );
}
