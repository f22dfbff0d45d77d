//! The prover server: turns one segment into a segment receipt.
//!
//! Proving a segment runs the STARK protocol over the segment's trace and
//! packages the resulting seal with the segment's claim. A configuration
//! mismatch between the requested hash suite and the verifier's context is
//! reported before any proving work starts.

use vstd::prelude::*;

use crate::claim::ExitCode;
use crate::digest::Digest;
use crate::executor::Segment;
use crate::program::HashSuiteKind;
use crate::receipt::{spec_segment_seal, segment_seal, SegmentReceipt, VerifierContext};

verus! {

/// Options proving runs under: the hash suite, and the control IDs of the
/// recursion programs used to fold the segment receipts.
#[derive(Clone, Copy, Debug)]
pub struct ProverOpts {
    /// The hash suite to build seals under.
    pub hash_suite: HashSuiteKind,
    /// Control ID of the lift program.
    pub lift_control_id: Digest,
    /// Control ID of the join program.
    pub join_control_id: Digest,
}

/// Why the proving pipeline failed.
#[derive(Clone, Debug)]
pub enum ProverError {
    /// The requested hash suite does not match the verifier context's.
    /// Detected before any proving work starts.
    ConfigMismatch,
    /// A recursion program's control ID is not in the allow-list.
    ControlIdNotRegistered,
    /// The execution itself faulted: the exit status and the journal
    /// produced so far.
    Execution(ExitCode, Vec<u8>),
}

/// Prove one segment: build the seal over the segment's claim under the
/// context's hash suite. Rejected before any work if the requested suite
/// does not match the context's.
pub fn prove_segment(segment: &Segment, ctx: &VerifierContext, opts: &ProverOpts) -> (r: Result<
    SegmentReceipt,
    ProverError,
>)
    ensures
        match r {
            Ok(sr) => {
                &&& opts.hash_suite == ctx.suite
                &&& sr.claim == segment.spec_claim()
                &&& sr.seal@ == spec_segment_seal(segment.spec_claim())
                &&& sr.hash_suite == ctx.suite
                &&& sr.index == segment.index
                &&& sr.po2 == segment.po2
            },
            Err(e) => e is ConfigMismatch && opts.hash_suite != ctx.suite,
        },
{
    if !(opts.hash_suite == ctx.suite) {
        return Err(ProverError::ConfigMismatch);
    }
    let claim = segment.claim();
    let seal = segment_seal(&claim);
    Ok(
        SegmentReceipt {
            seal,
            claim,
            hash_suite: opts.hash_suite,
            index: segment.index,
            po2: segment.po2,
        },
    )
}

} // verus!
