//! The recursion prover: lift, join and resolve.
//!
//! Lift turns a segment receipt into the recursion circuit's format without
//! changing its claim. Join folds two chained recursion receipts into one
//! whose claim is their conjunction. Resolve discharges one outstanding
//! assumption. Every step verifies its inputs first and is a hard rejection
//! on an unregistered control ID, a non-canonical seal, or claims that do
//! not chain.

use vstd::prelude::*;

use crate::claim::{spec_claim_digest, claim_digest, Claim};
use crate::digest::Digest;
use crate::receipt::{
    spec_registered, spec_segment_seal, spec_succinct_seal, segment_seal, succinct_seal, words_eq,
    SegmentReceipt, SuccinctReceipt, VerifierContext, VerifyError,
};

verus! {

/// Why a lift rejects its input, checked in order; `None` means it runs.
pub open spec fn spec_lift_check(
    seg: SegmentReceipt,
    ctx: VerifierContext,
    lift_control_id: Digest,
) -> Option<VerifyError> {
    if seg.hash_suite != ctx.suite {
        Some(VerifyError::SuiteMismatch)
    } else if seg.seal@ != spec_segment_seal(seg.claim) {
        Some(VerifyError::InvalidSeal)
    } else if !spec_registered(ctx.allowed@, lift_control_id) {
        Some(VerifyError::ControlIdNotRegistered)
    } else {
        None
    }
}

/// Lift a segment receipt into the recursion proof system. The lift program
/// verifies the segment proof inside the recursion circuit and attests the
/// very same claim: the output's claim equals the input's claim.
pub fn lift(seg: &SegmentReceipt, ctx: &VerifierContext, lift_control_id: &Digest) -> (r: Result<
    SuccinctReceipt,
    VerifyError,
>)
    ensures
        match r {
            Ok(s) => {
                &&& spec_lift_check(*seg, *ctx, *lift_control_id) is None
                &&& s.claim == seg.claim
                &&& s.control_id == *lift_control_id
                &&& s.hash_suite == ctx.suite
                &&& s.assumptions@ == Seq::<Digest>::empty()
                &&& s.seal_ok()
            },
            Err(e) => spec_lift_check(*seg, *ctx, *lift_control_id) == Some(e),
        },
{
    if !(seg.hash_suite == ctx.suite) {
        return Err(VerifyError::SuiteMismatch);
    }
    let expected = segment_seal(&seg.claim);
    if !words_eq(&seg.seal, &expected) {
        return Err(VerifyError::InvalidSeal);
    }
    if !ctx.is_registered(lift_control_id) {
        return Err(VerifyError::ControlIdNotRegistered);
    }
    let assumptions: Vec<Digest> = Vec::new();
    let seal = succinct_seal(ctx.suite, lift_control_id, &seg.claim, &assumptions);
    Ok(
        SuccinctReceipt {
            seal,
            control_id: *lift_control_id,
            claim: seg.claim,
            hash_suite: ctx.suite,
            assumptions,
        },
    )
}

/// Two claims chain: same program, and the left one ends in the machine
/// state the right one starts in.
pub open spec fn spec_joinable(a: Claim, b: Claim) -> bool {
    &&& a.image_id == b.image_id
    &&& a.post_state == b.pre_state
}

/// The conjunction of two chained claims: it spans from the left claim's
/// pre-state to the right claim's post-state, and carries the right claim's
/// journal digest and exit status.
pub open spec fn spec_join_claim(a: Claim, b: Claim) -> Claim {
    Claim {
        image_id: a.image_id,
        pre_state: a.pre_state,
        post_state: b.post_state,
        journal_digest: b.journal_digest,
        exit_code: b.exit_code,
    }
}

/// Why a join rejects its inputs, checked in order; `None` means it runs.
pub open spec fn spec_join_check(
    a: SuccinctReceipt,
    b: SuccinctReceipt,
    ctx: VerifierContext,
    join_control_id: Digest,
) -> Option<VerifyError> {
    if !spec_registered(ctx.allowed@, a.control_id) || !spec_registered(
        ctx.allowed@,
        b.control_id,
    ) {
        Some(VerifyError::ControlIdNotRegistered)
    } else if a.hash_suite != ctx.suite || b.hash_suite != ctx.suite {
        Some(VerifyError::SuiteMismatch)
    } else if !a.seal_ok() || !b.seal_ok() {
        Some(VerifyError::InvalidSeal)
    } else if a.assumptions@.len() != 0 || b.assumptions@.len() != 0 {
        Some(VerifyError::UnresolvedAssumptions)
    } else if !spec_joinable(a.claim, b.claim) {
        Some(VerifyError::ClaimMismatch)
    } else if !spec_registered(ctx.allowed@, join_control_id) {
        Some(VerifyError::ControlIdNotRegistered)
    } else {
        None
    }
}

/// Join two recursion receipts into one attesting their conjunction. Both
/// inputs are verified first; a control ID absent from the allow-list is a
/// hard rejection.
pub fn join(
    a: &SuccinctReceipt,
    b: &SuccinctReceipt,
    ctx: &VerifierContext,
    join_control_id: &Digest,
) -> (r: Result<SuccinctReceipt, VerifyError>)
    requires
        a.assumptions@.len() <= u32::MAX,
        b.assumptions@.len() <= u32::MAX,
    ensures
        match r {
            Ok(s) => {
                &&& spec_join_check(*a, *b, *ctx, *join_control_id) is None
                &&& s.claim == spec_join_claim(a.claim, b.claim)
                &&& s.control_id == *join_control_id
                &&& s.hash_suite == ctx.suite
                &&& s.assumptions@ == Seq::<Digest>::empty()
                &&& s.seal_ok()
            },
            Err(e) => spec_join_check(*a, *b, *ctx, *join_control_id) == Some(e),
        },
{
    if !ctx.is_registered(&a.control_id) || !ctx.is_registered(&b.control_id) {
        return Err(VerifyError::ControlIdNotRegistered);
    }
    if !(a.hash_suite == ctx.suite) || !(b.hash_suite == ctx.suite) {
        return Err(VerifyError::SuiteMismatch);
    }
    let ea = succinct_seal(a.hash_suite, &a.control_id, &a.claim, &a.assumptions);
    let eb = succinct_seal(b.hash_suite, &b.control_id, &b.claim, &b.assumptions);
    if !words_eq(&a.seal, &ea) || !words_eq(&b.seal, &eb) {
        return Err(VerifyError::InvalidSeal);
    }
    if a.assumptions.len() != 0 || b.assumptions.len() != 0 {
        return Err(VerifyError::UnresolvedAssumptions);
    }
    if !(a.claim.image_id == b.claim.image_id) || !(a.claim.post_state == b.claim.pre_state) {
        return Err(VerifyError::ClaimMismatch);
    }
    if !ctx.is_registered(join_control_id) {
        return Err(VerifyError::ControlIdNotRegistered);
    }
    let claim = Claim {
        image_id: a.claim.image_id,
        pre_state: a.claim.pre_state,
        post_state: b.claim.post_state,
        journal_digest: b.claim.journal_digest,
        exit_code: b.claim.exit_code,
    };
    let assumptions: Vec<Digest> = Vec::new();
    let seal = succinct_seal(ctx.suite, join_control_id, &claim, &assumptions);
    Ok(
        SuccinctReceipt {
            seal,
            control_id: *join_control_id,
            claim,
            hash_suite: ctx.suite,
            assumptions,
        },
    )
}

/// Why a resolve rejects its inputs, checked in order; `None` means it runs.
pub open spec fn spec_resolve_check(
    cond: SuccinctReceipt,
    assumption: SuccinctReceipt,
    ctx: VerifierContext,
    resolve_control_id: Digest,
) -> Option<VerifyError> {
    if !spec_registered(ctx.allowed@, cond.control_id) || !spec_registered(
        ctx.allowed@,
        assumption.control_id,
    ) {
        Some(VerifyError::ControlIdNotRegistered)
    } else if cond.hash_suite != ctx.suite || assumption.hash_suite != ctx.suite {
        Some(VerifyError::SuiteMismatch)
    } else if !cond.seal_ok() || !assumption.seal_ok() {
        Some(VerifyError::InvalidSeal)
    } else if assumption.assumptions@.len() != 0 {
        Some(VerifyError::UnresolvedAssumptions)
    } else if cond.assumptions@.len() == 0 {
        Some(VerifyError::NothingToResolve)
    } else if cond.assumptions@[0] != spec_claim_digest(assumption.claim) {
        Some(VerifyError::AssumptionMismatch)
    } else if !spec_registered(ctx.allowed@, resolve_control_id) {
        Some(VerifyError::ControlIdNotRegistered)
    } else {
        None
    }
}

/// Discharge the first outstanding assumption of a conditional receipt with
/// a receipt proving the assumed claim. The output attests the same claim
/// with that assumption removed; once no assumption is left the receipt is
/// self-contained.
pub fn resolve(
    cond: &SuccinctReceipt,
    assumption: &SuccinctReceipt,
    ctx: &VerifierContext,
    resolve_control_id: &Digest,
) -> (r: Result<SuccinctReceipt, VerifyError>)
    requires
        cond.assumptions@.len() <= u32::MAX,
        assumption.assumptions@.len() <= u32::MAX,
    ensures
        match r {
            Ok(s) => {
                &&& spec_resolve_check(*cond, *assumption, *ctx, *resolve_control_id) is None
                &&& s.claim == cond.claim
                &&& s.control_id == *resolve_control_id
                &&& s.hash_suite == ctx.suite
                &&& s.assumptions@ == cond.assumptions@.subrange(
                    1,
                    cond.assumptions@.len() as int,
                )
                &&& s.seal_ok()
            },
            Err(e) => spec_resolve_check(*cond, *assumption, *ctx, *resolve_control_id) == Some(e),
        },
{
    if !ctx.is_registered(&cond.control_id) || !ctx.is_registered(&assumption.control_id) {
        return Err(VerifyError::ControlIdNotRegistered);
    }
    if !(cond.hash_suite == ctx.suite) || !(assumption.hash_suite == ctx.suite) {
        return Err(VerifyError::SuiteMismatch);
    }
    let ec = succinct_seal(cond.hash_suite, &cond.control_id, &cond.claim, &cond.assumptions);
    let ea = succinct_seal(
        assumption.hash_suite,
        &assumption.control_id,
        &assumption.claim,
        &assumption.assumptions,
    );
    if !words_eq(&cond.seal, &ec) || !words_eq(&assumption.seal, &ea) {
        return Err(VerifyError::InvalidSeal);
    }
    if assumption.assumptions.len() != 0 {
        return Err(VerifyError::UnresolvedAssumptions);
    }
    if cond.assumptions.len() == 0 {
        return Err(VerifyError::NothingToResolve);
    }
    let head = claim_digest(&assumption.claim);
    if !(cond.assumptions[0] == head) {
        return Err(VerifyError::AssumptionMismatch);
    }
    if !ctx.is_registered(resolve_control_id) {
        return Err(VerifyError::ControlIdNotRegistered);
    }
    let mut rest: Vec<Digest> = Vec::new();
    let mut i: usize = 1;
    while i < cond.assumptions.len()
        invariant
            1 <= i <= cond.assumptions@.len(),
            rest@ == cond.assumptions@.subrange(1, i as int),
        decreases cond.assumptions@.len() - i,
    {
        proof {
            assert(cond.assumptions@.subrange(1, i + 1) =~= cond.assumptions@.subrange(
                1,
                i as int,
            ).push(cond.assumptions@[i as int]));
        }
        rest.push(cond.assumptions[i]);
        i = i + 1;
    }
    let seal = succinct_seal(ctx.suite, resolve_control_id, &cond.claim, &rest);
    Ok(
        SuccinctReceipt {
            seal,
            control_id: *resolve_control_id,
            claim: cond.claim,
            hash_suite: ctx.suite,
            assumptions: rest,
        },
    )
}

/// Join is associative in its result: folding three chained claims left to
/// right or right to left gives the same conjunction, spanning the leftmost
/// pre-state to the rightmost post-state.
pub proof fn lemma_join_associative(a: Claim, b: Claim, c: Claim)
    requires
        spec_joinable(a, b),
        spec_joinable(b, c),
    ensures
        spec_joinable(spec_join_claim(a, b), c),
        spec_joinable(a, spec_join_claim(b, c)),
        spec_join_claim(spec_join_claim(a, b), c) == spec_join_claim(a, spec_join_claim(b, c)),
{
}

/// Join is a hard rejection on any unregistered control ID: if either input
/// receipt's control ID is absent from the allow-list, the check can name
/// no other outcome than the rejection.
pub proof fn lemma_join_rejects_unregistered(
    a: SuccinctReceipt,
    b: SuccinctReceipt,
    ctx: VerifierContext,
    join_control_id: Digest,
)
    requires
        !spec_registered(ctx.allowed@, a.control_id) || !spec_registered(
            ctx.allowed@,
            b.control_id,
        ),
    ensures
        spec_join_check(a, b, ctx, join_control_id) == Some(VerifyError::ControlIdNotRegistered),
{
}

} // verus!
