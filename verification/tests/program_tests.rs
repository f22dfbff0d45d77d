use zkvm_pipeline::program::{
    HashSuiteKind, Program, RECURSION_CODE_SIZE, RECURSION_CYCLES,
};

fn sample_code(rows: usize, fill: u32) -> Vec<u32> {
    let mut code = Vec::new();
    for i in 0..rows * RECURSION_CODE_SIZE {
        code.push(fill.wrapping_add(i as u32));
    }
    code
}

#[test]
fn control_id_deterministic_sha256() {
    let code = sample_code(3, 7);
    let p = Program::from_encoded(&code);
    let d1 = p.compute_control_id(HashSuiteKind::Sha256);
    let d2 = p.compute_control_id(HashSuiteKind::Sha256);
    assert_eq!(d1, d2);
}

#[test]
fn control_id_deterministic_poseidon2() {
    let code = sample_code(2, 11);
    let p = Program::from_encoded(&code);
    let d1 = p.compute_control_id(HashSuiteKind::Poseidon2);
    let d2 = p.compute_control_id(HashSuiteKind::Poseidon2);
    assert_eq!(d1, d2);
}

#[test]
fn control_id_same_code_same_id() {
    let code = sample_code(4, 0);
    let p = Program::from_encoded(&code);
    let q = Program::from_encoded(&code);
    assert_eq!(
        p.compute_control_id(HashSuiteKind::Sha256),
        q.compute_control_id(HashSuiteKind::Sha256)
    );
}

#[test]
fn control_id_differs_for_different_code() {
    let p = Program::from_encoded(&sample_code(2, 1));
    let q = Program::from_encoded(&sample_code(2, 2));
    assert_ne!(
        p.compute_control_id(HashSuiteKind::Sha256),
        q.compute_control_id(HashSuiteKind::Sha256)
    );
}

#[test]
fn control_id_differs_per_suite() {
    let p = Program::from_encoded(&sample_code(2, 5));
    assert_ne!(
        p.compute_control_id(HashSuiteKind::Sha256),
        p.compute_control_id(HashSuiteKind::Poseidon2)
    );
}

#[test]
fn control_id_of_empty_program_is_deterministic() {
    let code: Vec<u32> = Vec::new();
    let p = Program::from_encoded(&code);
    let d1 = p.compute_control_id(HashSuiteKind::Sha256);
    let d2 = p.compute_control_id(HashSuiteKind::Sha256);
    assert_eq!(d1, d2);
}

#[test]
fn from_encoded_structural_invariant() {
    let code = sample_code(5, 3);
    let p = Program::from_encoded(&code);
    assert_eq!(p.code.len() % RECURSION_CODE_SIZE, 0);
    assert_eq!(p.code_rows() * RECURSION_CODE_SIZE, p.code.len());
    assert_eq!(p.code_rows(), 5);
    assert_eq!(p.code_size, RECURSION_CODE_SIZE);
}

#[test]
fn code_by_row_matches_layout() {
    let code = sample_code(3, 100);
    let p = Program::from_encoded(&code);
    let rows = p.code_by_row();
    assert_eq!(rows.len(), 3);
    for (j, row) in rows.iter().enumerate() {
        assert_eq!(row.len(), RECURSION_CODE_SIZE);
        for (i, w) in row.iter().enumerate() {
            assert_eq!(*w, code[j * RECURSION_CODE_SIZE + i]);
        }
    }
}

#[test]
fn try_from_encoded_rejects_ragged_stream() {
    let code = vec![0u32; RECURSION_CODE_SIZE + 1];
    assert!(Program::try_from_encoded(&code).is_none());
}

#[test]
fn try_from_encoded_rejects_overlong_stream() {
    let code = vec![0u32; RECURSION_CODE_SIZE * (RECURSION_CYCLES + 1)];
    assert!(Program::try_from_encoded(&code).is_none());
}

#[test]
fn try_from_encoded_accepts_whole_rows() {
    let code = sample_code(2, 9);
    let p = Program::try_from_encoded(&code).unwrap();
    assert_eq!(p.code, code);
}
