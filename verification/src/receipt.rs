//! Receipts, the control-ID registry, verification and serialization.
//!
//! A receipt is a proof payload (the seal) plus the claim it attests to. A
//! segment receipt covers one segment; a succinct receipt is the recursion
//! circuit's format, carrying the control ID of the recursion program that
//! produced it; the composite [`Receipt`] is the one externally persisted
//! artifact, carrying the journal itself. Verification recomputes the
//! canonical seal and rejects on any mismatch, and rejects any control ID
//! absent from the verifier's allow-list.

use vstd::prelude::*;

use crate::claim::{spec_claim_words, push_claim_words, Claim};
use crate::digest::{sha256_digest, sha256_of, Digest};
use crate::program::HashSuiteKind;

verus! {

/// First word of every segment seal.
pub const SEAL_TAG_SEGMENT: u32 = 1;

/// First word of every succinct (recursion) seal.
pub const SEAL_TAG_SUCCINCT: u32 = 2;

/// Why verification or a recursion step rejected its input.
#[derive(Clone, Copy, Debug, PartialEq, Eq, Structural)]
pub enum VerifyError {
    /// The seal is not the canonical seal of the receipt's claim.
    InvalidSeal,
    /// The receipt's control ID is not in the verifier's allow-list.
    ControlIdNotRegistered,
    /// The receipt was proved under a different hash suite than the
    /// verifier expects.
    SuiteMismatch,
    /// The receipt still carries unresolved assumptions.
    UnresolvedAssumptions,
    /// Two receipts to be joined do not chain: differing image IDs, or the
    /// left post-state is not the right pre-state.
    ClaimMismatch,
    /// The assumption receipt does not discharge the first outstanding
    /// assumption.
    AssumptionMismatch,
    /// There is no outstanding assumption to resolve.
    NothingToResolve,
    /// The claim names a different image ID than the verifier expects.
    ImageIdMismatch,
    /// The carried journal does not match the claim's journal digest.
    JournalMismatch,
}

/// A digest is registered iff it occurs in the allow-list.
pub open spec fn spec_registered(ids: Seq<Digest>, d: Digest) -> bool {
    exists|i: int| 0 <= i < ids.len() && ids[i] == d
}

/// Configuration a verifier (and every recursion step) runs under: the hash
/// suite and the allow-list of recognized control IDs. Passed explicitly into
/// every call; never a hidden global.
#[derive(Clone, Debug)]
pub struct VerifierContext {
    /// The hash suite proving and verifying must share.
    pub suite: HashSuiteKind,
    /// The allow-list of control IDs of trusted recursion programs.
    pub allowed: Vec<Digest>,
}

impl VerifierContext {
    /// Build a context from a suite and an allow-list.
    pub fn new(suite: HashSuiteKind, allowed: Vec<Digest>) -> (r: VerifierContext)
        ensures
            r.suite == suite,
            r.allowed == allowed,
    {
        VerifierContext { suite, allowed }
    }

    /// Whether a control ID is in the allow-list.
    pub fn is_registered(&self, d: &Digest) -> (r: bool)
        ensures
            r == spec_registered(self.allowed@, *d),
    {
        let mut i: usize = 0;
        while i < self.allowed.len()
            invariant
                i <= self.allowed@.len(),
                forall|q: int| 0 <= q < i ==> self.allowed@[q] != *d,
            decreases self.allowed@.len() - i,
        {
            if self.allowed[i] == *d {
                return true;
            }
            i = i + 1;
        }
        false
    }
}

/// A STARK proof of one segment's execution, as the prover server emits it.
#[derive(Clone, Debug)]
pub struct SegmentReceipt {
    /// The proof payload.
    pub seal: Vec<u32>,
    /// The claim this receipt attests to.
    pub claim: Claim,
    /// The hash suite the seal was built under.
    pub hash_suite: HashSuiteKind,
    /// Ordinal of the segment within its session.
    pub index: u32,
    /// Log2 of the segment's cycle bound.
    pub po2: u32,
}

/// The canonical segment seal: a tag word, then the claim's encoding.
pub open spec fn spec_segment_seal(c: Claim) -> Seq<u32> {
    seq![SEAL_TAG_SEGMENT] + spec_claim_words(c)
}

/// Build the canonical segment seal.
pub fn segment_seal(c: &Claim) -> (r: Vec<u32>)
    ensures
        r@ == spec_segment_seal(*c),
{
    let mut out: Vec<u32> = Vec::new();
    out.push(SEAL_TAG_SEGMENT);
    push_claim_words(&mut out, c);
    proof {
        assert(out@ =~= spec_segment_seal(*c));
    }
    out
}

/// Concatenated words of a digest list, in order.
pub open spec fn spec_digest_list_words(ds: Seq<Digest>) -> Seq<u32>
    decreases ds.len(),
{
    if ds.len() == 0 {
        Seq::empty()
    } else {
        spec_digest_list_words(ds.drop_last()) + ds.last().words@
    }
}

/// The canonical succinct seal: a tag word, the hash suite's word, the
/// producing program's control ID, the claim's encoding, then the
/// outstanding assumption digests behind their count. Binding the suite into
/// the seal ties every succinct receipt to the suite it was proved under.
pub open spec fn spec_succinct_seal(
    suite: HashSuiteKind,
    control_id: Digest,
    c: Claim,
    assumptions: Seq<Digest>,
) -> Seq<u32> {
    seq![SEAL_TAG_SUCCINCT, suite.spec_word()] + control_id.words@ + spec_claim_words(c)
        + seq![assumptions.len() as u32] + spec_digest_list_words(assumptions)
}

/// Build the canonical succinct seal.
pub fn succinct_seal(
    suite: HashSuiteKind,
    control_id: &Digest,
    c: &Claim,
    assumptions: &Vec<Digest>,
) -> (r: Vec<u32>)
    requires
        assumptions@.len() <= u32::MAX,
    ensures
        r@ == spec_succinct_seal(suite, *control_id, *c, assumptions@),
{
    let mut out: Vec<u32> = Vec::new();
    out.push(SEAL_TAG_SUCCINCT);
    out.push(suite.word());
    crate::claim::push_digest_words(&mut out, control_id);
    push_claim_words(&mut out, c);
    out.push(assumptions.len() as u32);
    let ghost head: Seq<u32> = out@;
    let mut i: usize = 0;
    while i < assumptions.len()
        invariant
            i <= assumptions@.len(),
            out@ == head + spec_digest_list_words(assumptions@.take(i as int)),
        decreases assumptions@.len() - i,
    {
        proof {
            assert(assumptions@.take(i + 1).drop_last() =~= assumptions@.take(i as int));
            assert(assumptions@.take(i + 1).last() == assumptions@[i as int]);
        }
        crate::claim::push_digest_words(&mut out, &assumptions[i]);
        i = i + 1;
    }
    proof {
        assert(assumptions@.take(assumptions@.len() as int) =~= assumptions@);
        assert(out@ =~= spec_succinct_seal(suite, *control_id, *c, assumptions@));
    }
    out
}

/// A receipt in the recursion proof system's format: the output of a lift,
/// join or resolve step.
#[derive(Clone, Debug)]
pub struct SuccinctReceipt {
    /// The proof payload.
    pub seal: Vec<u32>,
    /// Control ID of the recursion program that produced this receipt.
    pub control_id: Digest,
    /// The claim this receipt attests to.
    pub claim: Claim,
    /// The hash suite this receipt was proved under. Verifying under a
    /// context that names another suite fails deterministically.
    pub hash_suite: HashSuiteKind,
    /// Digests of claims this receipt still assumes; must all be resolved
    /// before the receipt verifies.
    pub assumptions: Vec<Digest>,
}

impl SuccinctReceipt {
    /// The seal is exactly the canonical seal of this receipt's contents.
    pub open spec fn seal_ok(self) -> bool {
        self.seal@ == spec_succinct_seal(
            self.hash_suite,
            self.control_id,
            self.claim,
            self.assumptions@,
        )
    }

    /// Two succinct receipts hold the same words everywhere.
    pub open spec fn content_eq(self, o: SuccinctReceipt) -> bool {
        &&& self.seal@ == o.seal@
        &&& self.control_id == o.control_id
        &&& self.claim == o.claim
        &&& self.hash_suite == o.hash_suite
        &&& self.assumptions@ == o.assumptions@
    }
}

/// Compare two digest vectors.
pub fn digests_eq(a: &Vec<Digest>, b: &Vec<Digest>) -> (r: bool)
    ensures
        r == (a@ == b@),
{
    if a.len() != b.len() {
        return false;
    }
    let mut i: usize = 0;
    while i < a.len()
        invariant
            a@.len() == b@.len(),
            i <= a@.len(),
            forall|q: int| 0 <= q < i ==> a@[q] == b@[q],
        decreases a@.len() - i,
    {
        if !(a[i] == b[i]) {
            return false;
        }
        i = i + 1;
    }
    proof {
        assert(a@ =~= b@);
    }
    true
}

impl PartialEq for SuccinctReceipt {
    fn eq(&self, o: &SuccinctReceipt) -> (r: bool) {
        words_eq(&self.seal, &o.seal) && self.control_id == o.control_id && self.claim == o.claim
            && self.hash_suite == o.hash_suite && digests_eq(&self.assumptions, &o.assumptions)
    }
}

impl vstd::std_specs::cmp::PartialEqSpecImpl for SuccinctReceipt {
    open spec fn obeys_eq_spec() -> bool {
        true
    }

    open spec fn eq_spec(&self, o: &SuccinctReceipt) -> bool {
        self.content_eq(*o)
    }
}

/// The composite receipt: the one externally persisted, transferable
/// artifact. Carries the journal in the clear beside the succinct proof.
#[derive(Clone, Debug)]
pub struct Receipt {
    /// The succinct proof of the whole session.
    pub inner: SuccinctReceipt,
    /// The committed public output of the guest.
    pub journal: Vec<u8>,
}

impl Receipt {
    /// Two receipts hold the same words everywhere.
    pub open spec fn content_eq(self, o: Receipt) -> bool {
        &&& self.inner.content_eq(o.inner)
        &&& self.journal@ == o.journal@
    }
}

/// Compare two byte vectors.
pub fn bytes_eq(a: &Vec<u8>, b: &Vec<u8>) -> (r: bool)
    ensures
        r == (a@ == b@),
{
    if a.len() != b.len() {
        return false;
    }
    let mut i: usize = 0;
    while i < a.len()
        invariant
            a@.len() == b@.len(),
            i <= a@.len(),
            forall|q: int| 0 <= q < i ==> a@[q] == b@[q],
        decreases a@.len() - i,
    {
        if a[i] != b[i] {
            return false;
        }
        i = i + 1;
    }
    proof {
        assert(a@ =~= b@);
    }
    true
}

impl PartialEq for Receipt {
    fn eq(&self, o: &Receipt) -> (r: bool) {
        self.inner == o.inner && bytes_eq(&self.journal, &o.journal)
    }
}

impl vstd::std_specs::cmp::PartialEqSpecImpl for Receipt {
    open spec fn obeys_eq_spec() -> bool {
        true
    }

    open spec fn eq_spec(&self, o: &Receipt) -> bool {
        self.content_eq(*o)
    }
}

/// Digest of a journal: the SHA-256 digest of its bytes.
pub open spec fn spec_journal_digest(j: Seq<u8>) -> Digest {
    sha256_of(j)
}

/// Compute the digest of a journal.
pub fn journal_digest(j: &Vec<u8>) -> (r: Digest)
    ensures
        r == spec_journal_digest(j@),
{
    sha256_digest(j)
}

/// Compare two word vectors.
pub fn words_eq(a: &Vec<u32>, b: &Vec<u32>) -> (r: bool)
    ensures
        r == (a@ == b@),
{
    if a.len() != b.len() {
        return false;
    }
    let mut i: usize = 0;
    while i < a.len()
        invariant
            a@.len() == b@.len(),
            i <= a@.len(),
            forall|q: int| 0 <= q < i ==> a@[q] == b@[q],
        decreases a@.len() - i,
    {
        if a[i] != b[i] {
            return false;
        }
        i = i + 1;
    }
    proof {
        assert(a@ =~= b@);
    }
    true
}

/// What [`verify`] rejects a composite receipt for, checked in order; `None`
/// means the receipt verifies.
pub open spec fn spec_verify_check(r: Receipt, image_id: Digest, ctx: VerifierContext) -> Option<
    VerifyError,
> {
    if !spec_registered(ctx.allowed@, r.inner.control_id) {
        Some(VerifyError::ControlIdNotRegistered)
    } else if r.inner.hash_suite != ctx.suite {
        Some(VerifyError::SuiteMismatch)
    } else if !r.inner.seal_ok() {
        Some(VerifyError::InvalidSeal)
    } else if r.inner.assumptions@.len() != 0 {
        Some(VerifyError::UnresolvedAssumptions)
    } else if r.inner.claim.image_id != image_id {
        Some(VerifyError::ImageIdMismatch)
    } else if r.inner.claim.journal_digest != spec_journal_digest(r.journal@) {
        Some(VerifyError::JournalMismatch)
    } else {
        None
    }
}

/// Verify a composite receipt against the image ID the caller expects and
/// the verifier's context. Accepts exactly when the receipt's control ID is
/// registered, it was proved under the context's hash suite, its seal is
/// canonical, no assumption is outstanding, the claim names the expected
/// image ID, and the carried journal matches the claim's journal digest.
pub fn verify(r: &Receipt, image_id: &Digest, ctx: &VerifierContext) -> (out: Result<
    (),
    VerifyError,
>)
    requires
        r.inner.assumptions@.len() <= u32::MAX,
    ensures
        match out {
            Ok(()) => spec_verify_check(*r, *image_id, *ctx) is None,
            Err(e) => spec_verify_check(*r, *image_id, *ctx) == Some(e),
        },
{
    if !ctx.is_registered(&r.inner.control_id) {
        return Err(VerifyError::ControlIdNotRegistered);
    }
    if !(r.inner.hash_suite == ctx.suite) {
        return Err(VerifyError::SuiteMismatch);
    }
    let expected = succinct_seal(
        r.inner.hash_suite,
        &r.inner.control_id,
        &r.inner.claim,
        &r.inner.assumptions,
    );
    if !words_eq(&r.inner.seal, &expected) {
        return Err(VerifyError::InvalidSeal);
    }
    if r.inner.assumptions.len() != 0 {
        return Err(VerifyError::UnresolvedAssumptions);
    }
    if !(r.inner.claim.image_id == *image_id) {
        return Err(VerifyError::ImageIdMismatch);
    }
    let jd = journal_digest(&r.journal);
    if !(r.inner.claim.journal_digest == jd) {
        return Err(VerifyError::JournalMismatch);
    }
    Ok(())
}

/// A receipt whose control ID is absent from the allow-list is rejected by
/// verification, whatever else holds of it: the check can name no outcome
/// but the rejection.
pub proof fn lemma_verify_rejects_unregistered(r: Receipt, image_id: Digest, ctx: VerifierContext)
    requires
        !spec_registered(ctx.allowed@, r.inner.control_id),
    ensures
        spec_verify_check(r, image_id, ctx) == Some(VerifyError::ControlIdNotRegistered),
{
}

/// Tampering is detected: a receipt that verifies has the one canonical seal
/// of its claim, so any receipt with the same claim and assumptions but a
/// seal that differs anywhere is rejected.
pub proof fn lemma_tamper_rejected(
    r: Receipt,
    t: Receipt,
    image_id: Digest,
    ctx: VerifierContext,
)
    requires
        spec_verify_check(r, image_id, ctx) is None,
        t.inner.control_id == r.inner.control_id,
        t.inner.claim == r.inner.claim,
        t.inner.hash_suite == r.inner.hash_suite,
        t.inner.assumptions@ == r.inner.assumptions@,
        t.inner.seal@ != r.inner.seal@,
    ensures
        spec_verify_check(t, image_id, ctx) is Some,
{
}

/// Suite discipline: a receipt proved under one hash suite is rejected by a
/// verifier whose context names another suite, deterministically, whenever
/// its control ID is registered there — and a verifier never accepts a
/// receipt proved under a suite other than its own.
pub proof fn lemma_verify_rejects_suite_mismatch(
    r: Receipt,
    image_id: Digest,
    ctx: VerifierContext,
)
    requires
        r.inner.hash_suite != ctx.suite,
    ensures
        spec_verify_check(r, image_id, ctx) is Some,
        spec_registered(ctx.allowed@, r.inner.control_id) ==> spec_verify_check(r, image_id, ctx)
            == Some(VerifyError::SuiteMismatch),
{
}

} // verus!
