//! Recursion-circuit programs and their content-derived control IDs.
//!
//! A [`Program`] is the machine code of one fixed recursion-circuit control
//! program, encoded as field-element words laid out row by row, `code_size`
//! columns per row. Its identity is the control ID: the Merkle root of the
//! polynomial commitment to its code columns, padded to a canonical trace
//! length of `2^RECURSION_PO2` rows so every program commits at one fixed
//! degree. Identical code and hash suite must always give an identical
//! digest: the control ID is the trust anchor every verifier checks.

use vstd::arithmetic::div_mod::lemma_fundamental_div_mod_converse;
use vstd::prelude::*;

use crate::digest::Digest;

use risc0_zkp::field::baby_bear::{BabyBear, BabyBearElem};
use risc0_zkp::hal::cpu::CpuHal;
use risc0_zkp::hal::Hal;
use risc0_zkp::prove::poly_group::PolyGroup;

verus! {

/// Number of code columns of the recursion circuit.
pub const RECURSION_CODE_SIZE: usize = 23;

/// Log2 of the canonical number of rows every recursion program is padded to.
pub const RECURSION_PO2: usize = 8;

/// Canonical number of rows of the padded code group: `2^RECURSION_PO2`.
pub const RECURSION_CYCLES: usize = 256;

/// The hash suite a commitment is built with. Proving and verifying must
/// name the same suite or verification fails.
#[derive(Clone, Copy, Debug, PartialEq, Eq, Structural)]
pub enum HashSuiteKind {
    /// SHA-256 based Merkle commitment and transcript.
    Sha256,
    /// Poseidon2 based Merkle commitment and transcript.
    Poseidon2,
}

impl HashSuiteKind {
    /// Numeric tag of the suite, used to index the named commitment root.
    pub open spec fn id(self) -> int {
        match self {
            HashSuiteKind::Sha256 => 0,
            HashSuiteKind::Poseidon2 => 1,
        }
    }

    /// The word that names this suite inside a seal.
    pub open spec fn spec_word(self) -> u32 {
        match self {
            HashSuiteKind::Sha256 => 0u32,
            HashSuiteKind::Poseidon2 => 1u32,
        }
    }

    /// Emit the suite's seal word.
    pub fn word(self) -> (r: u32)
        ensures
            r == self.spec_word(),
    {
        match self {
            HashSuiteKind::Sha256 => 0u32,
            HashSuiteKind::Poseidon2 => 1u32,
        }
    }

    /// The suite a seal word names, if any.
    pub fn from_word(w: u32) -> (r: Option<HashSuiteKind>)
        ensures
            match r {
                Some(s) => s.spec_word() == w,
                None => w != 0 && w != 1,
            },
    {
        if w == 0 {
            Some(HashSuiteKind::Sha256)
        } else if w == 1 {
            Some(HashSuiteKind::Poseidon2)
        } else {
            None
        }
    }
}

/// Merkle root of the committed code group: the result of interpolating the
/// padded column-major code words, blinding them, and Merkle-committing the
/// evaluated polynomial group under the given hash suite. A pure function of
/// the suite, the column count and the padded words alone.
pub uninterp spec fn code_group_root_of(suite: int, code_size: int, padded: Seq<u32>) -> Digest;

/// A program for the recursion circuit (for example a lift or join program).
///
/// The recursion circuit is an application-specific virtual machine with a
/// limited instruction set, no control flow, and a write-once memory tape.
/// Programs are loaded into the public control columns of the witness and are
/// identified by their control ID.
#[derive(Clone, Debug)]
pub struct Program {
    /// The code of the program: field-element words, row-major.
    pub code: Vec<u32>,
    /// The number of code columns.
    pub code_size: usize,
}

impl Program {
    /// A structurally sound program: the code is whole rows of
    /// `RECURSION_CODE_SIZE` columns, and fits the canonical trace length.
    pub open spec fn wf(self) -> bool {
        &&& self.code_size == RECURSION_CODE_SIZE
        &&& self.code@.len() as int % (RECURSION_CODE_SIZE as int) == 0
        &&& self.code@.len() <= RECURSION_CODE_SIZE * RECURSION_CYCLES
    }

    /// Number of rows of this program's code.
    pub open spec fn spec_code_rows(self) -> int {
        self.code@.len() as int / (RECURSION_CODE_SIZE as int)
    }

    /// Create a [`Program`] from a stream of encoded field-element words.
    pub fn from_encoded(encoded: &[u32]) -> (r: Program)
        requires
            encoded@.len() as int % (RECURSION_CODE_SIZE as int) == 0,
            encoded@.len() <= RECURSION_CODE_SIZE * RECURSION_CYCLES,
        ensures
            r.wf(),
            r.code@ == encoded@,
            r.code_size == RECURSION_CODE_SIZE,
            r.code@.len() as int % (r.code_size as int) == 0,
            r.spec_code_rows() * (r.code_size as int) == r.code@.len(),
    {
        proof {
            vstd::arithmetic::div_mod::lemma_fundamental_div_mod(
                encoded@.len() as int,
                RECURSION_CODE_SIZE as int,
            );
        }
        let mut code: Vec<u32> = Vec::new();
        let mut i: usize = 0;
        while i < encoded.len()
            invariant
                i <= encoded@.len(),
                code@ == encoded@.take(i as int),
            decreases encoded@.len() - i,
        {
            code.push(encoded[i]);
            i = i + 1;
        }
        proof {
            assert(encoded@.take(encoded@.len() as int) =~= encoded@);
        }
        Program { code, code_size: RECURSION_CODE_SIZE }
    }

    /// Create a [`Program`], rejecting a stream whose length is not whole
    /// rows or that overruns the canonical trace length.
    pub fn try_from_encoded(encoded: &[u32]) -> (r: Option<Program>)
        ensures
            match r {
                Some(p) => {
                    &&& encoded@.len() as int % (RECURSION_CODE_SIZE as int) == 0
                    &&& encoded@.len() <= RECURSION_CODE_SIZE * RECURSION_CYCLES
                    &&& p.wf()
                    &&& p.code@ == encoded@
                },
                None => {
                    ||| encoded@.len() as int % (RECURSION_CODE_SIZE as int) != 0
                    ||| encoded@.len() > RECURSION_CODE_SIZE * RECURSION_CYCLES
                },
            },
    {
        if encoded.len() % RECURSION_CODE_SIZE == 0
            && encoded.len() <= RECURSION_CODE_SIZE * RECURSION_CYCLES {
            Some(Self::from_encoded(encoded))
        } else {
            None
        }
    }

    /// Total number of rows in the code group for this program.
    pub fn code_rows(&self) -> (r: usize)
        requires
            self.wf(),
        ensures
            r == self.spec_code_rows(),
            r * RECURSION_CODE_SIZE == self.code@.len(),
    {
        proof {
            vstd::arithmetic::div_mod::lemma_fundamental_div_mod(
                self.code@.len() as int,
                RECURSION_CODE_SIZE as int,
            );
        }
        self.code.len() / RECURSION_CODE_SIZE
    }

    /// The rows of the code group, in order: row `j` holds the `code_size`
    /// words starting at `j * code_size`.
    pub fn code_by_row(&self) -> (r: Vec<Vec<u32>>)
        requires
            self.wf(),
        ensures
            r@.len() == self.spec_code_rows(),
            forall|j: int| 0 <= j < r@.len() ==> r@[j]@ == self.code@.subrange(
                j * (RECURSION_CODE_SIZE as int),
                (j + 1) * (RECURSION_CODE_SIZE as int),
            ),
    {
        let rows = self.code_rows();
        let mut out: Vec<Vec<u32>> = Vec::new();
        let mut j: usize = 0;
        while j < rows
            invariant
                self.wf(),
                j <= rows,
                rows == self.spec_code_rows(),
                rows * RECURSION_CODE_SIZE == self.code@.len(),
                out@.len() == j,
                forall|q: int| 0 <= q < j ==> out@[q]@ == self.code@.subrange(
                    q * (RECURSION_CODE_SIZE as int),
                    (q + 1) * (RECURSION_CODE_SIZE as int),
                ),
            decreases rows - j,
        {
            proof {
                assert((j + 1) * (RECURSION_CODE_SIZE as int)
                    <= rows * (RECURSION_CODE_SIZE as int)) by (nonlinear_arith)
                    requires j + 1 <= rows;
            }
            let mut row: Vec<u32> = Vec::new();
            let base: usize = j * RECURSION_CODE_SIZE;
            let mut i: usize = 0;
            while i < RECURSION_CODE_SIZE
                invariant
                    self.wf(),
                    i <= RECURSION_CODE_SIZE,
                    base == j * RECURSION_CODE_SIZE,
                    base + RECURSION_CODE_SIZE <= self.code@.len(),
                    row@ == self.code@.subrange(base as int, base + i),
                decreases RECURSION_CODE_SIZE - i,
            {
                proof {
                    assert(self.code@.subrange(base as int, base + i + 1)
                        =~= self.code@.subrange(base as int, base + i).push(
                            self.code@[base + i],
                        ));
                }
                row.push(self.code[base + i]);
                i = i + 1;
            }
            proof {
                assert(row@ =~= self.code@.subrange(
                    j * (RECURSION_CODE_SIZE as int),
                    (j + 1) * (RECURSION_CODE_SIZE as int),
                ));
            }
            out.push(row);
            j = j + 1;
        }
        out
    }

    /// The control ID of this program under the given hash suite.
    pub open spec fn spec_control_id(self, suite: HashSuiteKind) -> Digest {
        code_group_root_of(
            suite.id(),
            RECURSION_CODE_SIZE as int,
            spec_padded_code(self.code@),
        )
    }

    /// Compute the control ID: pad the code to the canonical trace length,
    /// lay it out column-major, and take the Merkle root of the committed
    /// code group. Deterministic: the result is a function of the code and
    /// the hash suite alone.
    pub fn compute_control_id(&self, suite: HashSuiteKind) -> (r: Digest)
        requires
            self.wf(),
        ensures
            r == self.spec_control_id(suite),
    {
        let padded = pad_code_columns(&self.code);
        code_group_merkle_root(&padded, RECURSION_CODE_SIZE, RECURSION_CYCLES, suite)
    }
}

/// Word at flat index `col * RECURSION_CYCLES + row` of the padded
/// column-major layout: the program's word at `(row, col)` for rows the code
/// fills, and zero padding above them.
pub open spec fn padded_entry(code: Seq<u32>, col: int, row: int) -> u32 {
    if row < code.len() as int / (RECURSION_CODE_SIZE as int) {
        code[row * (RECURSION_CODE_SIZE as int) + col]
    } else {
        0u32
    }
}

/// The canonical padded column-major layout of a program's code: each of the
/// `RECURSION_CODE_SIZE` columns occupies `RECURSION_CYCLES` consecutive
/// words, the code's rows first and zero padding after.
pub open spec fn spec_padded_code(code: Seq<u32>) -> Seq<u32> {
    Seq::new(
        (RECURSION_CODE_SIZE * RECURSION_CYCLES) as nat,
        |k: int| padded_entry(
            code,
            k / (RECURSION_CYCLES as int),
            k % (RECURSION_CYCLES as int),
        ),
    )
}

/// Build the padded column-major code layout.
fn pad_code_columns(code: &Vec<u32>) -> (r: Vec<u32>)
    requires
        code@.len() as int % (RECURSION_CODE_SIZE as int) == 0,
        code@.len() <= RECURSION_CODE_SIZE * RECURSION_CYCLES,
    ensures
        r@ == spec_padded_code(code@),
        r@.len() == RECURSION_CODE_SIZE * RECURSION_CYCLES,
{
    let ghost rows: int = code@.len() as int / (RECURSION_CODE_SIZE as int);
    proof {
        vstd::arithmetic::div_mod::lemma_fundamental_div_mod(
            code@.len() as int,
            RECURSION_CODE_SIZE as int,
        );
        assert(rows <= RECURSION_CYCLES as int) by (nonlinear_arith)
            requires
                rows * (RECURSION_CODE_SIZE as int) == code@.len(),
                code@.len() <= RECURSION_CODE_SIZE * RECURSION_CYCLES,
                rows >= 0;
    }
    let mut out: Vec<u32> = Vec::new();
    let mut col: usize = 0;
    while col < RECURSION_CODE_SIZE
        invariant
            code@.len() as int % (RECURSION_CODE_SIZE as int) == 0,
            code@.len() <= RECURSION_CODE_SIZE * RECURSION_CYCLES,
            rows == code@.len() as int / (RECURSION_CODE_SIZE as int),
            rows * (RECURSION_CODE_SIZE as int) == code@.len(),
            0 <= rows <= RECURSION_CYCLES,
            col <= RECURSION_CODE_SIZE,
            out@.len() == col * RECURSION_CYCLES,
            forall|k: int| 0 <= k < out@.len() ==> out@[k] == padded_entry(
                code@,
                k / (RECURSION_CYCLES as int),
                k % (RECURSION_CYCLES as int),
            ),
        decreases RECURSION_CODE_SIZE - col,
    {
        let mut row: usize = 0;
        while row < RECURSION_CYCLES
            invariant
                code@.len() as int % (RECURSION_CODE_SIZE as int) == 0,
                code@.len() <= RECURSION_CODE_SIZE * RECURSION_CYCLES,
                rows == code@.len() as int / (RECURSION_CODE_SIZE as int),
                rows * (RECURSION_CODE_SIZE as int) == code@.len(),
                0 <= rows <= RECURSION_CYCLES,
                col < RECURSION_CODE_SIZE,
                row <= RECURSION_CYCLES,
                out@.len() == col * RECURSION_CYCLES + row,
                forall|k: int| 0 <= k < out@.len() ==> out@[k] == padded_entry(
                    code@,
                    k / (RECURSION_CYCLES as int),
                    k % (RECURSION_CYCLES as int),
                ),
            decreases RECURSION_CYCLES - row,
        {
            proof {
                assert(out@.len() <= (RECURSION_CODE_SIZE - 1) * RECURSION_CYCLES
                    + RECURSION_CYCLES) by (nonlinear_arith)
                    requires
                        out@.len() == col * (RECURSION_CYCLES as int) + row,
                        col <= RECURSION_CODE_SIZE - 1,
                        row < RECURSION_CYCLES;
            }
            let v: u32;
            if row < code.len() / RECURSION_CODE_SIZE {
                let idx: usize = row * RECURSION_CODE_SIZE + col;
                proof {
                    assert(row * (RECURSION_CODE_SIZE as int) + col < code@.len())
                        by (nonlinear_arith)
                        requires
                            row < rows,
                            col < RECURSION_CODE_SIZE,
                            rows * (RECURSION_CODE_SIZE as int) == code@.len();
                }
                v = code[idx];
            } else {
                v = 0u32;
            }
            proof {
                lemma_fundamental_div_mod_converse(
                    col * (RECURSION_CYCLES as int) + row,
                    RECURSION_CYCLES as int,
                    col as int,
                    row as int,
                );
                assert(v == padded_entry(code@, col as int, row as int));
            }
            out.push(v);
            row = row + 1;
        }
        col = col + 1;
    }
    proof {
        assert(out@ =~= spec_padded_code(code@));
    }
    out
}

/// Merkle root of the committed code group.
///
/// Relies on risc0_zkp: `CpuHal::new` with the named hash suite,
/// `Hal::copy_from_elem`, `Hal::batch_interpolate_ntt` and `Hal::zk_shift` on
/// the padded column-major code words, then `PolyGroup::new` and the root of
/// its Merkle tree. Each of those is deterministic and reads nothing but its
/// arguments, so the root is a pure function of the suite, the column count
/// and the padded words, here named [`code_group_root_of`].
#[verifier::external_body]
fn code_group_merkle_root(
    padded: &Vec<u32>,
    code_size: usize,
    cycles: usize,
    suite: HashSuiteKind,
) -> (r: Digest)
    requires
        padded@.len() == code_size * cycles,
        cycles == RECURSION_CYCLES,
        1 <= code_size,
    ensures
        r == code_group_root_of(suite.id(), code_size as int, padded@),
{
    let hash_suite = match suite {
        HashSuiteKind::Sha256 => risc0_zkp::core::hash::sha::Sha256HashSuite::<BabyBear>::new_suite(),
        HashSuiteKind::Poseidon2 => risc0_zkp::core::hash::poseidon2::Poseidon2HashSuite::new_suite(),
    };
    let hal = CpuHal::new(hash_suite);
    let elems: Vec<BabyBearElem> = padded.iter().map(|w| BabyBearElem::from(*w)).collect();
    let coeffs = hal.copy_from_elem("coeffs", &elems);
    hal.batch_interpolate_ntt(&coeffs, code_size);
    hal.zk_shift(&coeffs, code_size);
    let group = PolyGroup::new(&hal, coeffs, code_size, cycles, "code");
    let mut words = [0u32; 8];
    words.copy_from_slice(group.merkle.root().as_words());
    Digest { words }
}

/// Determinism of the control ID: computing it twice for the same program
/// and hash suite gives the same digest, bit for bit.
pub proof fn lemma_control_id_deterministic(
    p: Program,
    suite: HashSuiteKind,
    d1: Digest,
    d2: Digest,
)
    requires
        d1 == p.spec_control_id(suite),
        d2 == p.spec_control_id(suite),
    ensures
        d1 == d2,
{
}

/// Structural invariant of every well-formed program: the code is whole rows,
/// and the row count times the column count gives back the code length.
pub proof fn lemma_code_rows_exact(p: Program)
    requires
        p.wf(),
    ensures
        p.code@.len() as int % (RECURSION_CODE_SIZE as int) == 0,
        p.spec_code_rows() * (RECURSION_CODE_SIZE as int) == p.code@.len(),
{
    vstd::arithmetic::div_mod::lemma_fundamental_div_mod(
        p.code@.len() as int,
        RECURSION_CODE_SIZE as int,
    );
}

} // verus!
