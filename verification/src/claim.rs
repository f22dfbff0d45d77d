//! Claims: the statements receipts attest to.
//!
//! A claim binds the program identity (image ID), the machine state the
//! segment started and ended in, the digest of the committed journal, and the
//! exit status. A segment receipt's claim covers one segment; a joined
//! receipt's claim covers the conjunction of its inputs, collapsing to one
//! claim per session.

use vstd::prelude::*;

use crate::digest::{sha256_digest, sha256_of, spec_le_bytes, Digest};

verus! {

/// How an execution (or the slice of it a claim covers) ended.
#[derive(Clone, Copy, Debug, PartialEq, Eq, Structural)]
pub enum ExitCode {
    /// The guest halted cleanly with the given user exit code.
    Halted(u32),
    /// The guest is still running at the end of the covered slice: the
    /// segment ended on a cycle bound, not on a halt.
    SystemSplit,
    /// The guest trapped: illegal instruction or out-of-bounds access.
    Fault,
}

impl ExitCode {
    /// Two-word encoding of the exit status: a tag word and a value word.
    pub open spec fn spec_words(self) -> Seq<u32> {
        match self {
            ExitCode::Halted(user) => seq![0u32, user],
            ExitCode::SystemSplit => seq![1u32, 0u32],
            ExitCode::Fault => seq![2u32, 0u32],
        }
    }
}

/// The statement a receipt attests to.
#[derive(Clone, Copy, Debug)]
pub struct Claim {
    /// Identity of the primary-VM binary that ran.
    pub image_id: Digest,
    /// Digest of the machine state the covered slice started in.
    pub pre_state: Digest,
    /// Digest of the machine state the covered slice ended in.
    pub post_state: Digest,
    /// Digest of the journal committed by the covered slice.
    pub journal_digest: Digest,
    /// How the covered slice ended.
    pub exit_code: ExitCode,
}

impl PartialEq for Claim {
    fn eq(&self, o: &Claim) -> (r: bool) {
        self.image_id == o.image_id && self.pre_state == o.pre_state
            && self.post_state == o.post_state && self.journal_digest == o.journal_digest
            && self.exit_code == o.exit_code
    }
}

impl vstd::std_specs::cmp::PartialEqSpecImpl for Claim {
    open spec fn obeys_eq_spec() -> bool {
        true
    }

    open spec fn eq_spec(&self, o: &Claim) -> bool {
        *self == *o
    }
}

/// Number of words in the encoding of a claim.
pub const CLAIM_WORDS: usize = 34;

/// Canonical word encoding of a claim: the four digests in order, then the
/// exit status. Fixed length [`CLAIM_WORDS`].
pub open spec fn spec_claim_words(c: Claim) -> Seq<u32> {
    c.image_id.words@ + c.pre_state.words@ + c.post_state.words@ + c.journal_digest.words@
        + c.exit_code.spec_words()
}

/// Little-endian byte serialization of a word sequence, in order.
pub open spec fn spec_words_le_bytes(ws: Seq<u32>) -> Seq<u8>
    decreases ws.len(),
{
    if ws.len() == 0 {
        Seq::empty()
    } else {
        spec_words_le_bytes(ws.drop_last()) + spec_le_bytes(ws.last())
    }
}

/// Serialize a word sequence into little-endian bytes.
pub fn words_le_bytes(ws: &Vec<u32>) -> (r: Vec<u8>)
    ensures
        r@ == spec_words_le_bytes(ws@),
{
    let mut out: Vec<u8> = Vec::new();
    let mut i: usize = 0;
    while i < ws.len()
        invariant
            i <= ws@.len(),
            out@ == spec_words_le_bytes(ws@.take(i as int)),
        decreases ws@.len() - i,
    {
        let w: u32 = ws[i];
        out.push((w & 0xff) as u8);
        out.push(((w >> 8) & 0xff) as u8);
        out.push(((w >> 16) & 0xff) as u8);
        out.push(((w >> 24) & 0xff) as u8);
        proof {
            assert(ws@.take(i + 1).drop_last() =~= ws@.take(i as int));
            assert(ws@.take(i + 1).last() == ws@[i as int]);
            assert(out@ =~= spec_words_le_bytes(ws@.take(i as int)) + spec_le_bytes(w));
        }
        i = i + 1;
    }
    proof {
        assert(ws@.take(ws@.len() as int) =~= ws@);
    }
    out
}

/// The digest of a claim: the SHA-256 digest of its canonical encoding,
/// serialized little-endian. Used to refer to a claim from an assumption
/// list.
pub open spec fn spec_claim_digest(c: Claim) -> Digest {
    sha256_of(spec_words_le_bytes(spec_claim_words(c)))
}

/// Append a digest's eight words.
pub fn push_digest_words(out: &mut Vec<u32>, d: &Digest)
    ensures
        final(out)@ == old(out)@ + d.words@,
{
    let mut i: usize = 0;
    while i < 8
        invariant
            i <= 8,
            out@ == old(out)@ + d.words@.take(i as int),
        decreases 8 - i,
    {
        proof {
            assert(d.words@.take(i + 1) =~= d.words@.take(i as int).push(d.words@[i as int]));
            assert(old(out)@ + d.words@.take(i + 1)
                =~= (old(out)@ + d.words@.take(i as int)).push(d.words@[i as int]));
        }
        out.push(d.words[i]);
        i = i + 1;
    }
    proof {
        assert(d.words@.take(8) =~= d.words@);
    }
}

/// Append the canonical word encoding of a claim.
pub fn push_claim_words(out: &mut Vec<u32>, c: &Claim)
    ensures
        final(out)@ == old(out)@ + spec_claim_words(*c),
{
    push_digest_words(out, &c.image_id);
    push_digest_words(out, &c.pre_state);
    push_digest_words(out, &c.post_state);
    push_digest_words(out, &c.journal_digest);
    match c.exit_code {
        ExitCode::Halted(user) => {
            out.push(0u32);
            out.push(user);
        },
        ExitCode::SystemSplit => {
            out.push(1u32);
            out.push(0u32);
        },
        ExitCode::Fault => {
            out.push(2u32);
            out.push(0u32);
        },
    }
    proof {
        assert(out@ =~= old(out)@ + spec_claim_words(*c));
    }
}

/// Canonical word encoding of a claim, as a fresh vector.
pub fn claim_words(c: &Claim) -> (r: Vec<u32>)
    ensures
        r@ == spec_claim_words(*c),
{
    let mut out: Vec<u32> = Vec::new();
    push_claim_words(&mut out, c);
    out
}

/// The digest of a claim.
pub fn claim_digest(c: &Claim) -> (r: Digest)
    ensures
        r == spec_claim_digest(*c),
{
    let ws = claim_words(c);
    let bs = words_le_bytes(&ws);
    sha256_digest(&bs)
}

/// The claim encoding is injective: equal encodings come from equal claims.
pub proof fn lemma_claim_words_injective(a: Claim, b: Claim)
    requires
        spec_claim_words(a) == spec_claim_words(b),
    ensures
        a == b,
{
    let wa = spec_claim_words(a);
    let wb = spec_claim_words(b);
    assert forall|i: int| 0 <= i < 8 implies a.image_id.words[i] == b.image_id.words[i] by {
        assert(wa[i] == wb[i]);
    }
    assert(a.image_id.words =~= b.image_id.words);
    assert forall|i: int| 0 <= i < 8 implies a.pre_state.words[i] == b.pre_state.words[i] by {
        assert(wa[8 + i] == wb[8 + i]);
    }
    assert(a.pre_state.words =~= b.pre_state.words);
    assert forall|i: int| 0 <= i < 8 implies a.post_state.words[i] == b.post_state.words[i] by {
        assert(wa[16 + i] == wb[16 + i]);
    }
    assert(a.post_state.words =~= b.post_state.words);
    assert forall|i: int| 0 <= i < 8 implies a.journal_digest.words[i]
        == b.journal_digest.words[i] by {
        assert(wa[24 + i] == wb[24 + i]);
    }
    assert(a.journal_digest.words =~= b.journal_digest.words);
    assert(wa[32] == wb[32] && wa[33] == wb[33]);
    assert(a.exit_code == b.exit_code);
}

} // verus!
