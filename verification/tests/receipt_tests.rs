use zkvm_pipeline::claim::{claim_digest, Claim, ExitCode};
use zkvm_pipeline::digest::Digest;
use zkvm_pipeline::executor::{execute, image_id, ExecutorEnv, OP_COMMIT_LEN, OP_HALT, OP_READ};
use zkvm_pipeline::local::LocalProver;
use zkvm_pipeline::program::HashSuiteKind;
use zkvm_pipeline::prover::{prove_segment, ProverError, ProverOpts};
use zkvm_pipeline::receipt::{
    succinct_seal, verify, SuccinctReceipt, VerifierContext, VerifyError,
};
use zkvm_pipeline::recursion::{join, lift, resolve};

fn lift_id() -> Digest {
    Digest::new([10, 0, 0, 0, 0, 0, 0, 1])
}

fn join_id() -> Digest {
    Digest::new([20, 0, 0, 0, 0, 0, 0, 2])
}

fn resolve_id() -> Digest {
    Digest::new([30, 0, 0, 0, 0, 0, 0, 3])
}

fn test_ctx() -> VerifierContext {
    VerifierContext::new(
        HashSuiteKind::Sha256,
        vec![lift_id(), join_id(), resolve_id()],
    )
}

fn test_opts() -> ProverOpts {
    ProverOpts {
        hash_suite: HashSuiteKind::Sha256,
        lift_control_id: lift_id(),
        join_control_id: join_id(),
    }
}

fn sample_claim(tag: u32) -> Claim {
    Claim {
        image_id: Digest::new([tag, 1, 2, 3, 4, 5, 6, 7]),
        pre_state: Digest::new([tag, 0, 0, 0, 0, 0, 0, 8]),
        post_state: Digest::new([tag, 0, 0, 0, 0, 0, 0, 9]),
        journal_digest: Digest::new([tag, 0, 0, 0, 0, 0, 0, 10]),
        exit_code: ExitCode::Halted(0),
    }
}

fn succinct(control_id: Digest, claim: Claim, assumptions: Vec<Digest>) -> SuccinctReceipt {
    let seal = succinct_seal(HashSuiteKind::Sha256, &control_id, &claim, &assumptions);
    SuccinctReceipt {
        seal,
        control_id,
        claim,
        hash_suite: HashSuiteKind::Sha256,
        assumptions,
    }
}

#[test]
fn verify_rejects_unregistered_control_id() {
    let binary = vec![OP_READ, OP_COMMIT_LEN, OP_HALT];
    let env = ExecutorEnv::new(vec![b"hi".to_vec()], 4).unwrap();
    let prover = LocalProver::new("local");
    let mut receipt = prover
        .prove_with_ctx(&env, &test_ctx(), &binary, &test_opts())
        .unwrap();
    let img = image_id(&binary);
    assert!(verify(&receipt, &img, &test_ctx()).is_ok());
    let stranger = Digest::new([42, 42, 42, 42, 42, 42, 42, 42]);
    receipt.inner.control_id = stranger;
    assert_eq!(
        verify(&receipt, &img, &test_ctx()),
        Err(VerifyError::ControlIdNotRegistered)
    );
}

#[test]
fn verify_rejects_journal_mismatch() {
    let binary = vec![OP_READ, OP_COMMIT_LEN, OP_HALT];
    let env = ExecutorEnv::new(vec![b"hi".to_vec()], 4).unwrap();
    let prover = LocalProver::new("local");
    let mut receipt = prover
        .prove_with_ctx(&env, &test_ctx(), &binary, &test_opts())
        .unwrap();
    let img = image_id(&binary);
    receipt.journal = vec![9, 9];
    assert_eq!(
        verify(&receipt, &img, &test_ctx()),
        Err(VerifyError::JournalMismatch)
    );
}

#[test]
fn verify_rejects_unresolved_assumptions() {
    let assumed = sample_claim(2);
    let cond = succinct(lift_id(), sample_claim(1), vec![claim_digest(&assumed)]);
    let receipt = zkvm_pipeline::receipt::Receipt {
        inner: cond,
        journal: Vec::new(),
    };
    let img = receipt.inner.claim.image_id;
    assert_eq!(
        verify(&receipt, &img, &test_ctx()),
        Err(VerifyError::UnresolvedAssumptions)
    );
}

#[test]
fn lift_rejects_suite_mismatch() {
    let binary = vec![OP_HALT];
    let env = ExecutorEnv::new(vec![], 4).unwrap();
    let session = execute(&env, &binary).unwrap();
    let sr = prove_segment(&session.segments[0], &test_ctx(), &test_opts()).unwrap();
    let poseidon_ctx = VerifierContext::new(HashSuiteKind::Poseidon2, vec![lift_id()]);
    assert_eq!(
        lift(&sr, &poseidon_ctx, &lift_id()),
        Err(VerifyError::SuiteMismatch)
    );
}

#[test]
fn lift_rejects_tampered_seal() {
    let binary = vec![OP_HALT];
    let env = ExecutorEnv::new(vec![], 4).unwrap();
    let session = execute(&env, &binary).unwrap();
    let mut sr = prove_segment(&session.segments[0], &test_ctx(), &test_opts()).unwrap();
    sr.seal[3] ^= 1;
    assert_eq!(
        lift(&sr, &test_ctx(), &lift_id()),
        Err(VerifyError::InvalidSeal)
    );
}

#[test]
fn join_rejects_claims_that_do_not_chain() {
    let a = succinct(lift_id(), sample_claim(1), Vec::new());
    let mut cb = sample_claim(1);
    // Break the chain: b does not start where a ended.
    cb.pre_state = Digest::new([7, 7, 7, 7, 7, 7, 7, 7]);
    let b = succinct(lift_id(), cb, Vec::new());
    assert_eq!(
        join(&a, &b, &test_ctx(), &join_id()),
        Err(VerifyError::ClaimMismatch)
    );
}

#[test]
fn resolve_discharges_assumption() {
    let assumed = sample_claim(2);
    let cond = succinct(lift_id(), sample_claim(1), vec![claim_digest(&assumed)]);
    let assumption = succinct(lift_id(), assumed, Vec::new());
    let resolved = resolve(&cond, &assumption, &test_ctx(), &resolve_id()).unwrap();
    assert_eq!(resolved.claim, cond.claim);
    assert!(resolved.assumptions.is_empty());
    assert_eq!(resolved.control_id, resolve_id());
}

#[test]
fn resolve_rejects_wrong_assumption() {
    let assumed = sample_claim(2);
    let cond = succinct(lift_id(), sample_claim(1), vec![claim_digest(&assumed)]);
    let other = succinct(lift_id(), sample_claim(3), Vec::new());
    assert_eq!(
        resolve(&cond, &other, &test_ctx(), &resolve_id()),
        Err(VerifyError::AssumptionMismatch)
    );
}

#[test]
fn resolve_rejects_when_nothing_outstanding() {
    let cond = succinct(lift_id(), sample_claim(1), Vec::new());
    let assumption = succinct(lift_id(), sample_claim(2), Vec::new());
    assert_eq!(
        resolve(&cond, &assumption, &test_ctx(), &resolve_id()),
        Err(VerifyError::NothingToResolve)
    );
}

#[test]
fn image_id_is_deterministic_and_binding() {
    let a = vec![OP_READ, OP_COMMIT_LEN, OP_HALT];
    let b = vec![OP_HALT];
    assert_eq!(image_id(&a), image_id(&a));
    assert_ne!(image_id(&a), image_id(&b));
}

#[test]
fn image_id_is_sha256_of_the_binary() {
    // SHA-256 of the empty stream, packed little-endian:
    // e3b0c44298fc1c149afbf4c8996fb92427ae41e4649b934ca495991b7852b855.
    let empty: Vec<u8> = Vec::new();
    let d = image_id(&empty);
    assert_eq!(
        d,
        Digest::new([
            0x42c4b0e3, 0x141cfc98, 0xc8f4fb9a, 0x24b96f99, 0xe441ae27, 0x4c939b64, 0x1b9995a4,
            0x55b85278,
        ])
    );
}

#[test]
fn prove_segment_reports_config_mismatch() {
    let binary = vec![OP_HALT];
    let env = ExecutorEnv::new(vec![], 4).unwrap();
    let session = execute(&env, &binary).unwrap();
    let opts = ProverOpts {
        hash_suite: HashSuiteKind::Poseidon2,
        lift_control_id: lift_id(),
        join_control_id: join_id(),
    };
    let err = prove_segment(&session.segments[0], &test_ctx(), &opts).unwrap_err();
    assert!(matches!(err, ProverError::ConfigMismatch));
}

#[test]
fn resolved_receipt_round_trips() {
    let assumed = sample_claim(2);
    let cond = succinct(lift_id(), sample_claim(1), vec![claim_digest(&assumed)]);
    let assumption = succinct(lift_id(), assumed, Vec::new());
    let resolved = resolve(&cond, &assumption, &test_ctx(), &resolve_id()).unwrap();
    let receipt = zkvm_pipeline::receipt::Receipt {
        inner: resolved,
        journal: Vec::new(),
    };
    let words = zkvm_pipeline::codec::serialize(&receipt);
    let back = zkvm_pipeline::codec::deserialize(&words).unwrap();
    assert_eq!(back, receipt);
}

#[test]
fn verify_rejects_suite_mismatch() {
    let binary = vec![OP_READ, OP_COMMIT_LEN, OP_HALT];
    let env = ExecutorEnv::new(vec![b"hi".to_vec()], 4).unwrap();
    let prover = LocalProver::new("local");
    let receipt = prover
        .prove_with_ctx(&env, &test_ctx(), &binary, &test_opts())
        .unwrap();
    let img = image_id(&binary);
    assert!(verify(&receipt, &img, &test_ctx()).is_ok());
    // Same allow-list, other hash suite: deterministic rejection.
    let poseidon_ctx = VerifierContext::new(
        HashSuiteKind::Poseidon2,
        vec![lift_id(), join_id(), resolve_id()],
    );
    assert_eq!(
        verify(&receipt, &img, &poseidon_ctx),
        Err(VerifyError::SuiteMismatch)
    );
}

#[test]
fn join_rejects_suite_mismatch() {
    let ca = sample_claim(1);
    let mut cb = sample_claim(1);
    cb.pre_state = ca.post_state;
    let a = succinct(lift_id(), ca, Vec::new());
    let b = succinct(lift_id(), cb, Vec::new());
    let poseidon_ctx = VerifierContext::new(
        HashSuiteKind::Poseidon2,
        vec![lift_id(), join_id(), resolve_id()],
    );
    assert_eq!(
        join(&a, &b, &poseidon_ctx, &join_id()),
        Err(VerifyError::SuiteMismatch)
    );
}

#[test]
fn resolve_rejects_suite_mismatch() {
    let assumed = sample_claim(2);
    let cond = succinct(lift_id(), sample_claim(1), vec![claim_digest(&assumed)]);
    let assumption = succinct(lift_id(), assumed, Vec::new());
    let poseidon_ctx = VerifierContext::new(
        HashSuiteKind::Poseidon2,
        vec![lift_id(), join_id(), resolve_id()],
    );
    assert_eq!(
        resolve(&cond, &assumption, &poseidon_ctx, &resolve_id()),
        Err(VerifyError::SuiteMismatch)
    );
}
