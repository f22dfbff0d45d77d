//! Serialization of composite receipts.
//!
//! A receipt is persisted as a word stream: the journal behind its length,
//! the hash suite, the control ID, the claim, then the seal. Serialization
//! is defined for transportable receipts (canonical seal, no outstanding
//! assumption), and
//! deserialization accepts exactly the valid encodings: every transportable
//! receipt round-trips bit-exactly, and a stream that is not the encoding of
//! any transportable receipt is rejected.

use vstd::prelude::*;

use crate::claim::{
    lemma_claim_words_injective, spec_claim_words, push_claim_words, Claim, ExitCode,
};
use crate::digest::Digest;
use crate::program::HashSuiteKind;
use crate::receipt::{spec_succinct_seal, succinct_seal, words_eq, Receipt, SuccinctReceipt};

verus! {

/// Words in the seal of a transportable receipt: tag, suite word, control
/// ID, claim, and the (zero) assumption count.
pub const TRANSPORT_SEAL_WORDS: usize = 45;

/// Words in an encoded receipt besides the journal.
pub const TRANSPORT_FIXED_WORDS: usize = 89;

impl Receipt {
    /// A receipt fit for transport: its seal is the canonical seal of its
    /// contents, every assumption is resolved, and the journal's length has
    /// a word encoding.
    pub open spec fn transportable(self) -> bool {
        &&& self.journal@.len() <= u32::MAX
        &&& self.inner.assumptions@.len() == 0
        &&& self.inner.seal_ok()
    }
}

/// The canonical word encoding of a receipt: journal length, journal bytes
/// (one word each), hash suite word, control ID, claim, seal.
pub open spec fn spec_serialize(r: Receipt) -> Seq<u32> {
    seq![r.journal@.len() as u32] + r.journal@.map(|i: int, b: u8| b as u32)
        + seq![r.inner.hash_suite.spec_word()] + r.inner.control_id.words@
        + spec_claim_words(r.inner.claim) + r.inner.seal@
}

/// Shape of a transportable receipt's encoding: its length and each of its
/// six regions, word by word.
pub proof fn lemma_serialize_shape(x: Receipt)
    requires
        x.transportable(),
    ensures
        spec_serialize(x).len() == TRANSPORT_FIXED_WORDS + x.journal@.len(),
        spec_serialize(x)[0] == x.journal@.len() as u32,
        forall|i: int|
            0 <= i < x.journal@.len() ==> spec_serialize(x)[1 + i] == x.journal@[i] as u32,
        spec_serialize(x)[1 + x.journal@.len() as int] == x.inner.hash_suite.spec_word(),
        forall|i: int|
            0 <= i < 8 ==> spec_serialize(x)[2 + x.journal@.len() + i]
                == x.inner.control_id.words[i],
        forall|i: int|
            0 <= i < 34 ==> spec_serialize(x)[10 + x.journal@.len() + i] == spec_claim_words(
                x.inner.claim,
            )[i],
        forall|i: int|
            0 <= i < 45 ==> spec_serialize(x)[44 + x.journal@.len() + i] == x.inner.seal@[i],
{
    let jl = x.journal@.len() as int;
    let s = spec_serialize(x);
    assert(x.inner.seal@.len() == 45);
    assert(s.len() == TRANSPORT_FIXED_WORDS + x.journal@.len());
    assert forall|i: int| 0 <= i < jl implies s[1 + i] == x.journal@[i] as u32 by {
        assert(x.journal@.map(|q: int, b: u8| b as u32)[i] == x.journal@[i] as u32);
    }
    assert forall|i: int| 0 <= i < 8 implies s[2 + jl + i] == x.inner.control_id.words[i] by {
        assert(x.inner.control_id.words@[i] == x.inner.control_id.words[i]);
    }
    assert forall|i: int| 0 <= i < 34 implies s[10 + jl + i] == spec_claim_words(
        x.inner.claim,
    )[i] by {}
    assert forall|i: int| 0 <= i < 45 implies s[44 + jl + i] == x.inner.seal@[i] by {}
}

/// Serialize a transportable receipt into its canonical word encoding.
pub fn serialize(r: &Receipt) -> (out: Vec<u32>)
    requires
        r.transportable(),
    ensures
        out@ == spec_serialize(*r),
{
    let mut out: Vec<u32> = Vec::new();
    out.push(r.journal.len() as u32);
    let ghost p1: Seq<u32> = seq![r.journal@.len() as u32];
    proof {
        assert(out@ =~= p1);
    }
    let mut i: usize = 0;
    while i < r.journal.len()
        invariant
            i <= r.journal@.len(),
            r.journal@.len() <= u32::MAX,
            out@ == p1 + r.journal@.take(i as int).map(|q: int, b: u8| b as u32),
        decreases r.journal@.len() - i,
    {
        proof {
            assert(r.journal@.take(i + 1).map(|q: int, b: u8| b as u32) =~= r.journal@.take(
                i as int,
            ).map(|q: int, b: u8| b as u32).push(r.journal@[i as int] as u32));
        }
        out.push(r.journal[i] as u32);
        i = i + 1;
    }
    proof {
        assert(r.journal@.take(r.journal@.len() as int) =~= r.journal@);
    }
    out.push(r.inner.hash_suite.word());
    crate::claim::push_digest_words(&mut out, &r.inner.control_id);
    push_claim_words(&mut out, &r.inner.claim);
    let mut k: usize = 0;
    let ghost p4: Seq<u32> = out@;
    while k < r.inner.seal.len()
        invariant
            k <= r.inner.seal@.len(),
            out@ == p4 + r.inner.seal@.take(k as int),
        decreases r.inner.seal@.len() - k,
    {
        proof {
            assert(r.inner.seal@.take(k + 1) =~= r.inner.seal@.take(k as int).push(
                r.inner.seal@[k as int],
            ));
        }
        out.push(r.inner.seal[k]);
        k = k + 1;
    }
    proof {
        assert(r.inner.seal@.take(r.inner.seal@.len() as int) =~= r.inner.seal@);
        assert(out@ =~= spec_serialize(*r));
    }
    out
}

/// Read eight consecutive words as a digest.
fn read_digest(bytes: &Vec<u32>, off: usize) -> (r: Digest)
    requires
        off + 8 <= bytes@.len(),
    ensures
        r.words@ == bytes@.subrange(off as int, off as int + 8),
{
    let n: usize = bytes.len();
    proof {
        assert(off + 8 <= n);
    }
    let words: [u32; 8] = [
        bytes[off],
        bytes[off + 1],
        bytes[off + 2],
        bytes[off + 3],
        bytes[off + 4],
        bytes[off + 5],
        bytes[off + 6],
        bytes[off + 7],
    ];
    let r = Digest { words };
    proof {
        assert(r.words@ =~= bytes@.subrange(off as int, off as int + 8));
    }
    r
}

/// A stream shorter than the fixed part encodes no transportable receipt.
proof fn lemma_reject_short(bytes: Seq<u32>)
    requires
        bytes.len() < TRANSPORT_FIXED_WORDS,
    ensures
        forall|x: Receipt| x.transportable() ==> bytes != spec_serialize(x),
{
    assert forall|x: Receipt| x.transportable() implies bytes != spec_serialize(x) by {
        lemma_serialize_shape(x);
    }
}

/// A stream whose first word disagrees with its journal region's length
/// encodes no transportable receipt.
proof fn lemma_reject_bad_length(bytes: Seq<u32>)
    requires
        bytes.len() >= TRANSPORT_FIXED_WORDS,
        bytes[0] as int != bytes.len() - TRANSPORT_FIXED_WORDS,
    ensures
        forall|x: Receipt| x.transportable() ==> bytes != spec_serialize(x),
{
    assert forall|x: Receipt| x.transportable() implies bytes != spec_serialize(x) by {
        lemma_serialize_shape(x);
        if bytes == spec_serialize(x) {
            assert(x.journal@.len() == bytes.len() - TRANSPORT_FIXED_WORDS);
            assert(bytes[0] == x.journal@.len() as u32);
        }
    }
}

/// A stream with a journal word above a byte's range encodes no
/// transportable receipt.
proof fn lemma_reject_journal_word(bytes: Seq<u32>, i: int)
    requires
        bytes.len() >= TRANSPORT_FIXED_WORDS,
        0 <= i < bytes.len() - TRANSPORT_FIXED_WORDS,
        bytes[1 + i] > 255,
    ensures
        forall|x: Receipt| x.transportable() ==> bytes != spec_serialize(x),
{
    assert forall|x: Receipt| x.transportable() implies bytes != spec_serialize(x) by {
        lemma_serialize_shape(x);
        if bytes == spec_serialize(x) {
            assert(x.journal@.len() == bytes.len() - TRANSPORT_FIXED_WORDS);
            assert(bytes[1 + i] == x.journal@[i] as u32);
        }
    }
}

/// A stream whose suite word names no hash suite encodes no transportable
/// receipt.
proof fn lemma_reject_suite_word(bytes: Seq<u32>)
    requires
        bytes.len() >= TRANSPORT_FIXED_WORDS,
        bytes[1 + (bytes.len() - TRANSPORT_FIXED_WORDS)] != 0,
        bytes[1 + (bytes.len() - TRANSPORT_FIXED_WORDS)] != 1,
    ensures
        forall|x: Receipt| x.transportable() ==> bytes != spec_serialize(x),
{
    assert forall|x: Receipt| x.transportable() implies bytes != spec_serialize(x) by {
        lemma_serialize_shape(x);
        if bytes == spec_serialize(x) {
            let jl = x.journal@.len() as int;
            assert(jl == bytes.len() - TRANSPORT_FIXED_WORDS);
            assert(bytes[1 + jl] == x.inner.hash_suite.spec_word());
            assert(x.inner.hash_suite.spec_word() == 0 || x.inner.hash_suite.spec_word() == 1);
        }
    }
}

/// A stream whose exit words fit no exit status encodes no transportable
/// receipt.
proof fn lemma_reject_exit_words(bytes: Seq<u32>)
    requires
        bytes.len() >= TRANSPORT_FIXED_WORDS,
        ({
            let jl = bytes.len() - TRANSPORT_FIXED_WORDS;
            let tag = bytes[42 + jl];
            let val = bytes[43 + jl];
            !(tag == 0 || (tag == 1 && val == 0) || (tag == 2 && val == 0))
        }),
    ensures
        forall|x: Receipt| x.transportable() ==> bytes != spec_serialize(x),
{
    assert forall|x: Receipt| x.transportable() implies bytes != spec_serialize(x) by {
        lemma_serialize_shape(x);
        if bytes == spec_serialize(x) {
            let jl = x.journal@.len() as int;
            assert(jl == bytes.len() - TRANSPORT_FIXED_WORDS);
            assert(bytes[10 + jl + 32] == spec_claim_words(x.inner.claim)[32]);
            assert(bytes[10 + jl + 33] == spec_claim_words(x.inner.claim)[33]);
            assert(spec_claim_words(x.inner.claim)[32]
                == x.inner.claim.exit_code.spec_words()[0]);
            assert(spec_claim_words(x.inner.claim)[33]
                == x.inner.claim.exit_code.spec_words()[1]);
        }
    }
}

/// A stream whose seal region is not the canonical seal of the suite,
/// control ID and claim its other regions spell encodes no transportable
/// receipt.
proof fn lemma_reject_seal(bytes: Seq<u32>, suite: HashSuiteKind, cid: Digest, claim: Claim)
    requires
        bytes.len() >= TRANSPORT_FIXED_WORDS,
        ({
            let jl = bytes.len() - TRANSPORT_FIXED_WORDS;
            &&& bytes[1 + jl] == suite.spec_word()
            &&& cid.words@ == bytes.subrange(2 + jl, 10 + jl)
            &&& spec_claim_words(claim) == bytes.subrange(10 + jl, 44 + jl)
            &&& bytes.subrange(44 + jl, bytes.len() as int) != spec_succinct_seal(
                suite,
                cid,
                claim,
                Seq::<Digest>::empty(),
            )
        }),
    ensures
        forall|x: Receipt| x.transportable() ==> bytes != spec_serialize(x),
{
    assert forall|x: Receipt| x.transportable() implies bytes != spec_serialize(x) by {
        lemma_serialize_shape(x);
        if bytes == spec_serialize(x) {
            let jl = x.journal@.len() as int;
            assert(jl == bytes.len() - TRANSPORT_FIXED_WORDS);
            assert(suite.spec_word() == x.inner.hash_suite.spec_word());
            assert(suite == x.inner.hash_suite);
            assert forall|i: int| 0 <= i < 8 implies cid.words[i]
                == x.inner.control_id.words[i] by {
                assert(cid.words@[i] == bytes[2 + jl + i]);
            }
            assert(cid.words =~= x.inner.control_id.words);
            assert forall|i: int| 0 <= i < 34 implies spec_claim_words(claim)[i]
                == spec_claim_words(x.inner.claim)[i] by {
                assert(spec_claim_words(claim)[i] == bytes[10 + jl + i]);
            }
            assert(spec_claim_words(claim) =~= spec_claim_words(x.inner.claim));
            lemma_claim_words_injective(claim, x.inner.claim);
            assert(x.inner.assumptions@ =~= Seq::<Digest>::empty());
            assert forall|i: int| 0 <= i < 45 implies bytes.subrange(
                44 + jl,
                bytes.len() as int,
            )[i] == x.inner.seal@[i] by {
                assert(bytes[44 + jl + i] == x.inner.seal@[i]);
            }
            assert(bytes.subrange(44 + jl, bytes.len() as int) =~= x.inner.seal@);
            assert(x.inner.seal@ == spec_succinct_seal(
                suite,
                cid,
                claim,
                Seq::<Digest>::empty(),
            ));
        }
    }
}

/// Deserialize a word stream. Returns the one transportable receipt whose
/// encoding the stream is, and rejects a stream that encodes none.
#[verifier::rlimit(100)]
pub fn deserialize(bytes: &Vec<u32>) -> (r: Option<Receipt>)
    ensures
        match r {
            Some(x) => x.transportable() && bytes@ == spec_serialize(x),
            None => forall|x: Receipt| x.transportable() ==> bytes@ != spec_serialize(x),
        },
{
    if bytes.len() < TRANSPORT_FIXED_WORDS {
        proof {
            lemma_reject_short(bytes@);
        }
        return None;
    }
    let jlen_word: u32 = bytes[0];
    let jlen: usize = jlen_word as usize;
    if jlen != bytes.len() - TRANSPORT_FIXED_WORDS {
        proof {
            lemma_reject_bad_length(bytes@);
        }
        return None;
    }
    let n: usize = bytes.len();
    let mut journal: Vec<u8> = Vec::new();
    let mut i: usize = 0;
    while i < jlen
        invariant
            i <= jlen,
            n == bytes@.len(),
            jlen == n - TRANSPORT_FIXED_WORDS,
            TRANSPORT_FIXED_WORDS <= n,
            journal@.len() == i,
            forall|q: int| 0 <= q < i ==> #[trigger] bytes@[1 + q] <= 255,
            forall|q: int| 0 <= q < i ==> #[trigger] journal@[q] as u32 == bytes@[1 + q],
        decreases jlen - i,
    {
        let w: u32 = bytes[1 + i];
        if w > 255 {
            proof {
                lemma_reject_journal_word(bytes@, i as int);
            }
            return None;
        }
        let ghost prev: Seq<u8> = journal@;
        journal.push(w as u8);
        proof {
            assert(journal@ == prev.push(w as u8));
            assert(bytes@[1 + i as int] == w);
            assert forall|q: int| 0 <= q < i + 1 implies #[trigger] bytes@[1 + q] <= 255 by {
                if q == i as int {
                    assert(bytes@[1 + q] == w);
                }
            }
            assert forall|q: int| 0 <= q < i + 1 implies #[trigger] journal@[q] as u32
                == bytes@[1 + q] by {
                if q == i as int {
                    vstd::seq::axiom_seq_push_index_same(prev, w as u8, q);
                    assert(journal@[q] == w as u8);
                    assert((w as u8) as u32 == w);
                } else {
                    vstd::seq::axiom_seq_push_index_different(prev, w as u8, q);
                    assert(journal@[q] == prev[q]);
                }
            }
        }
        i = i + 1;
    }
    let suite_word: u32 = bytes[1 + jlen];
    let hash_suite: HashSuiteKind = match HashSuiteKind::from_word(suite_word) {
        Some(s) => s,
        None => {
            proof {
                lemma_reject_suite_word(bytes@);
            }
            return None;
        },
    };
    let cid = read_digest(bytes, 2 + jlen);
    let claim_off: usize = 10 + jlen;
    let image_id = read_digest(bytes, claim_off);
    let pre_state = read_digest(bytes, claim_off + 8);
    let post_state = read_digest(bytes, claim_off + 16);
    let jd = read_digest(bytes, claim_off + 24);
    let tag: u32 = bytes[claim_off + 32];
    let val: u32 = bytes[claim_off + 33];
    let exit_code: ExitCode;
    if tag == 0 {
        exit_code = ExitCode::Halted(val);
    } else if tag == 1 && val == 0 {
        exit_code = ExitCode::SystemSplit;
    } else if tag == 2 && val == 0 {
        exit_code = ExitCode::Fault;
    } else {
        proof {
            lemma_reject_exit_words(bytes@);
        }
        return None;
    }
    let claim = Claim { image_id, pre_state, post_state, journal_digest: jd, exit_code };
    proof {
        assert(spec_claim_words(claim) =~= bytes@.subrange(
            claim_off as int,
            claim_off + 34,
        ));
    }
    let seal_off: usize = 44 + jlen;
    let mut seal: Vec<u32> = Vec::new();
    let mut k: usize = 0;
    while k < TRANSPORT_SEAL_WORDS
        invariant
            k <= TRANSPORT_SEAL_WORDS,
            n == bytes@.len(),
            seal_off == 44 + jlen,
            seal_off + TRANSPORT_SEAL_WORDS <= n,
            seal@ == bytes@.subrange(seal_off as int, seal_off + k),
        decreases TRANSPORT_SEAL_WORDS - k,
    {
        proof {
            assert(bytes@.subrange(seal_off as int, seal_off + k + 1) =~= bytes@.subrange(
                seal_off as int,
                seal_off + k,
            ).push(bytes@[seal_off + k]));
        }
        seal.push(bytes[seal_off + k]);
        k = k + 1;
    }
    let assumptions: Vec<Digest> = Vec::new();
    let expected = succinct_seal(hash_suite, &cid, &claim, &assumptions);
    if !words_eq(&seal, &expected) {
        proof {
            assert(seal@ =~= bytes@.subrange(44 + jlen, bytes@.len() as int));
            lemma_reject_seal(bytes@, hash_suite, cid, claim);
        }
        return None;
    }
    let result = Receipt {
        inner: SuccinctReceipt { seal, control_id: cid, claim, hash_suite, assumptions },
        journal,
    };
    proof {
        assert(result.transportable());
        lemma_serialize_shape(result);
        assert(bytes@ =~= spec_serialize(result));
    }
    Some(result)
}

/// Round trip: deserializing the serialization of any transportable receipt
/// gives back that receipt, word for word. `parsed` is any value meeting
/// [`deserialize`]'s contract on [`serialize`]'s output for `r`.
pub proof fn lemma_round_trip(r: Receipt, bytes: Seq<u32>, parsed: Option<Receipt>)
    requires
        r.transportable(),
        bytes == spec_serialize(r),
        match parsed {
            Some(x) => x.transportable() && bytes == spec_serialize(x),
            None => forall|x: Receipt| x.transportable() ==> bytes != spec_serialize(x),
        },
    ensures
        parsed is Some,
        parsed->Some_0.content_eq(r),
{
    match parsed {
        Some(x) => {
            lemma_serialize_shape(r);
            lemma_serialize_shape(x);
            assert(x.journal@.len() == r.journal@.len());
            let jl = r.journal@.len() as int;
            assert forall|i: int| 0 <= i < jl implies x.journal@[i] == r.journal@[i] by {
                assert(spec_serialize(x)[1 + i] == x.journal@[i] as u32);
                assert(spec_serialize(r)[1 + i] == r.journal@[i] as u32);
            }
            assert(x.journal@ =~= r.journal@);
            assert(spec_serialize(x)[1 + jl] == x.inner.hash_suite.spec_word());
            assert(x.inner.hash_suite.spec_word() == r.inner.hash_suite.spec_word());
            assert(x.inner.hash_suite == r.inner.hash_suite);
            assert forall|i: int| 0 <= i < 8 implies x.inner.control_id.words[i]
                == r.inner.control_id.words[i] by {
                assert(spec_serialize(x)[2 + jl + i] == x.inner.control_id.words[i]);
            }
            assert(x.inner.control_id.words =~= r.inner.control_id.words);
            assert forall|i: int| 0 <= i < 34 implies spec_claim_words(x.inner.claim)[i]
                == spec_claim_words(r.inner.claim)[i] by {
                assert(spec_serialize(x)[10 + jl + i] == spec_claim_words(x.inner.claim)[i]);
            }
            assert(spec_claim_words(x.inner.claim) =~= spec_claim_words(r.inner.claim));
            lemma_claim_words_injective(x.inner.claim, r.inner.claim);
            assert forall|i: int| 0 <= i < 45 implies x.inner.seal@[i] == r.inner.seal@[i] by {
                assert(spec_serialize(x)[44 + jl + i] == x.inner.seal@[i]);
            }
            assert(x.inner.seal@ =~= r.inner.seal@);
            assert(x.inner.assumptions@ =~= r.inner.assumptions@);
            assert(x.inner.control_id.words =~= r.inner.control_id.words);
            assert(x.content_eq(r));
        },
        None => {
            assert(bytes != spec_serialize(r));
        },
    }
}

} // verus!
