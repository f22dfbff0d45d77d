use zkvm_pipeline::codec::{deserialize, serialize};
use zkvm_pipeline::digest::Digest;
use zkvm_pipeline::executor::{image_id, ExecutorEnv, OP_COMMIT_LEN, OP_HALT, OP_READ};
use zkvm_pipeline::local::LocalProver;
use zkvm_pipeline::program::HashSuiteKind;
use zkvm_pipeline::prover::ProverOpts;
use zkvm_pipeline::receipt::{verify, Receipt, VerifierContext};

fn lift_id() -> Digest {
    Digest::new([10, 0, 0, 0, 0, 0, 0, 1])
}

fn join_id() -> Digest {
    Digest::new([20, 0, 0, 0, 0, 0, 0, 2])
}

fn test_ctx() -> VerifierContext {
    VerifierContext::new(HashSuiteKind::Sha256, vec![lift_id(), join_id()])
}

fn sample_receipt() -> (Receipt, Vec<u8>) {
    let binary = vec![OP_READ, OP_COMMIT_LEN, OP_HALT];
    let env = ExecutorEnv::new(vec![b"hello".to_vec()], 4).unwrap();
    let prover = LocalProver::new("local");
    let opts = ProverOpts {
        hash_suite: HashSuiteKind::Sha256,
        lift_control_id: lift_id(),
        join_control_id: join_id(),
    };
    let receipt = prover
        .prove_with_ctx(&env, &test_ctx(), &binary, &opts)
        .unwrap();
    (receipt, binary)
}

#[test]
fn round_trip_is_exact() {
    let (receipt, _) = sample_receipt();
    let words = serialize(&receipt);
    let back = deserialize(&words).unwrap();
    assert_eq!(back, receipt);
    // And the re-serialization is word-for-word the same stream.
    assert_eq!(serialize(&back), words);
}

#[test]
fn round_trip_survives_verification() {
    let (receipt, binary) = sample_receipt();
    let back = deserialize(&serialize(&receipt)).unwrap();
    assert!(verify(&back, &image_id(&binary), &test_ctx()).is_ok());
}

#[test]
fn deserialize_rejects_truncated_stream() {
    let (receipt, _) = sample_receipt();
    let mut words = serialize(&receipt);
    words.pop();
    assert!(deserialize(&words).is_none());
    assert!(deserialize(&Vec::new()).is_none());
}

#[test]
fn deserialize_rejects_appended_words() {
    let (receipt, _) = sample_receipt();
    let mut words = serialize(&receipt);
    words.push(0);
    assert!(deserialize(&words).is_none());
}

#[test]
fn tampering_any_bit_of_the_stream_is_rejected() {
    let (receipt, binary) = sample_receipt();
    let words = serialize(&receipt);
    let img = image_id(&binary);
    let ctx = test_ctx();
    for i in 0..words.len() {
        for bit in 0..32 {
            let mut tampered = words.clone();
            tampered[i] ^= 1u32 << bit;
            match deserialize(&tampered) {
                None => {},
                Some(parsed) => {
                    assert!(
                        verify(&parsed, &img, &ctx).is_err(),
                        "flipping bit {bit} of word {i} went unnoticed"
                    );
                },
            }
        }
    }
}

#[test]
fn tampering_any_bit_of_the_seal_is_rejected() {
    let (receipt, binary) = sample_receipt();
    let img = image_id(&binary);
    let ctx = test_ctx();
    assert!(verify(&receipt, &img, &ctx).is_ok());
    for i in 0..receipt.inner.seal.len() {
        for bit in 0..32 {
            let mut tampered = receipt.clone();
            tampered.inner.seal[i] ^= 1u32 << bit;
            assert!(
                verify(&tampered, &img, &ctx).is_err(),
                "flipping bit {bit} of seal word {i} went unnoticed"
            );
        }
    }
}
