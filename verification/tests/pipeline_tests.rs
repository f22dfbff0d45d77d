use zkvm_pipeline::claim::ExitCode;
use zkvm_pipeline::digest::Digest;
use zkvm_pipeline::executor::{
    execute, image_id, ExecutorEnv, OP_COMMIT, OP_COMMIT_LEN, OP_HALT, OP_READ,
};
use zkvm_pipeline::local::LocalProver;
use zkvm_pipeline::program::HashSuiteKind;
use zkvm_pipeline::prover::{prove_segment, ProverError, ProverOpts};
use zkvm_pipeline::receipt::{verify, VerifierContext, VerifyError};
use zkvm_pipeline::recursion::{join, lift};

fn lift_id() -> Digest {
    Digest::new([10, 0, 0, 0, 0, 0, 0, 1])
}

fn join_id() -> Digest {
    Digest::new([20, 0, 0, 0, 0, 0, 0, 2])
}

fn test_ctx() -> VerifierContext {
    VerifierContext::new(HashSuiteKind::Sha256, vec![lift_id(), join_id()])
}

fn test_opts() -> ProverOpts {
    ProverOpts {
        hash_suite: HashSuiteKind::Sha256,
        lift_control_id: lift_id(),
        join_control_id: join_id(),
    }
}

#[test]
fn end_to_end_hello_session() {
    let binary = vec![OP_READ, OP_COMMIT_LEN, OP_HALT];
    let env = ExecutorEnv::new(vec![b"hello".to_vec()], 4).unwrap();
    let prover = LocalProver::new("local");
    let info = prover.execute(&env, &binary).unwrap();
    assert_eq!(info.exit_code, ExitCode::Halted(0));
    assert_eq!(info.segments.len(), 1);
    assert_eq!(info.journal, vec![5, 0, 0, 0]);
}

#[test]
fn end_to_end_hello_receipt_verifies() {
    let binary = vec![OP_READ, OP_COMMIT_LEN, OP_HALT];
    let env = ExecutorEnv::new(vec![b"hello".to_vec()], 4).unwrap();
    let prover = LocalProver::new("local");
    let receipt = prover
        .prove_with_ctx(&env, &test_ctx(), &binary, &test_opts())
        .unwrap();
    assert_eq!(receipt.journal, vec![5, 0, 0, 0]);
    let img = image_id(&binary);
    assert!(verify(&receipt, &img, &test_ctx()).is_ok());
    let other = image_id(&vec![OP_HALT]);
    assert_eq!(
        verify(&receipt, &other, &test_ctx()),
        Err(VerifyError::ImageIdMismatch)
    );
}

#[test]
fn multi_segment_chain_is_contiguous() {
    // Five instructions under a two-cycle segment bound: three segments.
    let binary = vec![OP_COMMIT, OP_COMMIT, OP_COMMIT, OP_COMMIT, OP_HALT];
    let env = ExecutorEnv::new(vec![], 1).unwrap();
    let session = execute(&env, &binary).unwrap();
    assert_eq!(session.segments.len(), 3);
    for i in 0..session.segments.len() - 1 {
        assert_eq!(
            session.segments[i].post_state,
            session.segments[i + 1].pre_state
        );
        assert_eq!(session.segments[i].exit_code, ExitCode::SystemSplit);
        assert_eq!(session.segments[i].cycles, 2);
    }
    let last = &session.segments[session.segments.len() - 1];
    assert_eq!(last.exit_code, ExitCode::Halted(0));
    assert_eq!(session.exit_code, ExitCode::Halted(0));
    for (i, seg) in session.segments.iter().enumerate() {
        assert_eq!(seg.index as usize, i);
        assert!(seg.cycles <= 1 << seg.po2);
    }
}

#[test]
fn multi_segment_receipt_verifies() {
    let binary = vec![
        OP_READ,
        OP_COMMIT_LEN,
        OP_COMMIT,
        OP_COMMIT,
        OP_COMMIT_LEN,
        OP_HALT,
    ];
    let env = ExecutorEnv::new(vec![b"ab".to_vec()], 1).unwrap();
    let prover = LocalProver::new("local");
    let receipt = prover
        .prove_with_ctx(&env, &test_ctx(), &binary, &test_opts())
        .unwrap();
    let img = image_id(&binary);
    assert!(verify(&receipt, &img, &test_ctx()).is_ok());
    // journal: len 2, then "ab" twice, then len 2 again.
    assert_eq!(
        receipt.journal,
        vec![2, 0, 0, 0, b'a', b'b', b'a', b'b', 2, 0, 0, 0]
    );
}

#[test]
fn lift_preserves_claim() {
    let binary = vec![OP_READ, OP_COMMIT_LEN, OP_HALT];
    let env = ExecutorEnv::new(vec![b"hello".to_vec()], 4).unwrap();
    let session = execute(&env, &binary).unwrap();
    let sr = prove_segment(&session.segments[0], &test_ctx(), &test_opts()).unwrap();
    let lifted = lift(&sr, &test_ctx(), &lift_id()).unwrap();
    assert_eq!(lifted.claim, sr.claim);
    assert_eq!(lifted.control_id, lift_id());
}

#[test]
fn join_is_associative_in_result() {
    // Five instructions under a two-cycle bound: three lifted receipts to
    // fold either way.
    let binary = vec![
        OP_COMMIT_LEN,
        OP_COMMIT_LEN,
        OP_COMMIT_LEN,
        OP_COMMIT_LEN,
        OP_HALT,
    ];
    let env = ExecutorEnv::new(vec![], 1).unwrap();
    let session = execute(&env, &binary).unwrap();
    assert_eq!(session.segments.len(), 3);
    let ctx = test_ctx();
    let opts = test_opts();
    let mut lifted = Vec::new();
    for seg in session.segments.iter() {
        let sr = prove_segment(seg, &ctx, &opts).unwrap();
        lifted.push(lift(&sr, &ctx, &lift_id()).unwrap());
    }
    let left = join(
        &join(&lifted[0], &lifted[1], &ctx, &join_id()).unwrap(),
        &lifted[2],
        &ctx,
        &join_id(),
    )
    .unwrap();
    let right = join(
        &lifted[0],
        &join(&lifted[1], &lifted[2], &ctx, &join_id()).unwrap(),
        &ctx,
        &join_id(),
    )
    .unwrap();
    assert_eq!(left.claim, right.claim);
}

#[test]
fn join_rejects_unregistered_control_id() {
    let binary = vec![OP_COMMIT_LEN, OP_COMMIT_LEN, OP_COMMIT_LEN, OP_HALT];
    let env = ExecutorEnv::new(vec![], 1).unwrap();
    let session = execute(&env, &binary).unwrap();
    assert!(session.segments.len() >= 2);
    let ctx = test_ctx();
    let opts = test_opts();
    let sr0 = prove_segment(&session.segments[0], &ctx, &opts).unwrap();
    let sr1 = prove_segment(&session.segments[1], &ctx, &opts).unwrap();
    let a = lift(&sr0, &ctx, &lift_id()).unwrap();
    let mut b = lift(&sr1, &ctx, &lift_id()).unwrap();
    // A verifier that does not recognize the lift program's control ID.
    let narrow = VerifierContext::new(HashSuiteKind::Sha256, vec![join_id()]);
    assert_eq!(
        join(&a, &b, &narrow, &join_id()),
        Err(VerifyError::ControlIdNotRegistered)
    );
    // A receipt naming a control ID outside the allow-list.
    b.control_id = Digest::new([99, 99, 99, 99, 99, 99, 99, 99]);
    assert_eq!(
        join(&a, &b, &ctx, &join_id()),
        Err(VerifyError::ControlIdNotRegistered)
    );
}

#[test]
fn executor_faults_on_illegal_instruction() {
    let binary = vec![OP_COMMIT_LEN, 9];
    let env = ExecutorEnv::new(vec![], 4).unwrap();
    let err = execute(&env, &binary).unwrap_err();
    assert_eq!(err.exit_code, ExitCode::Fault);
    // The journal produced so far is carried with the error.
    assert_eq!(err.journal, vec![0, 0, 0, 0]);
}

#[test]
fn executor_faults_on_read_past_inputs() {
    let binary = vec![OP_READ, OP_HALT];
    let env = ExecutorEnv::new(vec![], 4).unwrap();
    let err = execute(&env, &binary).unwrap_err();
    assert_eq!(err.exit_code, ExitCode::Fault);
}

#[test]
fn executor_faults_on_running_off_the_end() {
    let binary = vec![OP_COMMIT];
    let env = ExecutorEnv::new(vec![], 4).unwrap();
    let err = execute(&env, &binary).unwrap_err();
    assert_eq!(err.exit_code, ExitCode::Fault);
}

#[test]
fn prover_rejects_suite_mismatch_before_work() {
    let binary = vec![OP_HALT];
    let env = ExecutorEnv::new(vec![], 4).unwrap();
    let prover = LocalProver::new("local");
    let opts = ProverOpts {
        hash_suite: HashSuiteKind::Poseidon2,
        lift_control_id: lift_id(),
        join_control_id: join_id(),
    };
    let err = prover
        .prove_with_ctx(&env, &test_ctx(), &binary, &opts)
        .unwrap_err();
    assert!(matches!(err, ProverError::ConfigMismatch));
}

#[test]
fn prover_rejects_unregistered_recursion_programs() {
    let binary = vec![OP_HALT];
    let env = ExecutorEnv::new(vec![], 4).unwrap();
    let prover = LocalProver::new("local");
    let narrow = VerifierContext::new(HashSuiteKind::Sha256, vec![lift_id()]);
    let err = prover
        .prove_with_ctx(&env, &narrow, &binary, &test_opts())
        .unwrap_err();
    assert!(matches!(err, ProverError::ControlIdNotRegistered));
}

#[test]
fn prover_surfaces_execution_fault() {
    let binary = vec![7];
    let env = ExecutorEnv::new(vec![], 4).unwrap();
    let prover = LocalProver::new("local");
    let err = prover
        .prove_with_ctx(&env, &test_ctx(), &binary, &test_opts())
        .unwrap_err();
    match err {
        ProverError::Execution(code, _) => assert_eq!(code, ExitCode::Fault),
        _ => panic!("expected an execution fault"),
    }
}

#[test]
fn local_prover_reports_name() {
    let prover = LocalProver::new("local");
    assert_eq!(prover.get_name(), "local".to_string());
}
