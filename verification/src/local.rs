//! The local prover facade: one entry point that runs the executor, proves
//! every segment, and folds the receipts into one composite receipt.
//!
//! Pure orchestration: the executor partitions the run, the prover server
//! proves each segment, each segment receipt is lifted, and the lifted
//! receipts are joined in segment order into one receipt whose claim covers
//! the whole session.

use vstd::prelude::*;

use crate::claim::ExitCode;
use crate::executor::{
    execute, spec_execution, spec_execution_cycles, spec_image_id, ExecutorEnv, ExecutorError,
    SegmentInfo, SessionInfo,
};
use crate::receipt::{spec_registered, spec_verify_check, Receipt, VerifierContext};
use crate::recursion::{join, lift, spec_join_check, spec_lift_check};
use crate::prover::{prove_segment, ProverError, ProverOpts};

verus! {

/// A prover that selects and drives a local prover server.
#[derive(Clone, Debug)]
pub struct LocalProver {
    /// The prover's name, reported back to callers.
    pub name: String,
}

impl LocalProver {
    /// Construct a [`LocalProver`].
    pub fn new(name: &str) -> (r: LocalProver)
        ensures
            r.name@ == name@,
    {
        LocalProver { name: name.to_owned() }
    }

    /// The prover's name.
    pub fn get_name(&self) -> (r: String)
        ensures
            r@ == self.name@,
    {
        self.name.clone()
    }

    /// Run the executor to completion and report the session summary:
    /// one entry per segment, in order, each within the configured cycle
    /// bound and all but the last full; the journal; and the exit status.
    /// A VM fault is an execution error, never a proving error.
    pub fn execute(&self, env: &ExecutorEnv, binary: &Vec<u8>) -> (r: Result<
        SessionInfo,
        ExecutorError,
    >)
        requires
            env.wf(),
            binary@.len() <= u32::MAX,
        ensures
            match r {
                Ok(info) => {
                    &&& info.exit_code == ExitCode::Halted(0u32)
                    &&& info.segments@.len() >= 1
                    &&& forall|i: int|
                        0 <= i < info.segments@.len() ==> (#[trigger] info.segments@[i]).po2
                            == env.segment_po2
                    &&& forall|i: int|
                        0 <= i < info.segments@.len() ==> (#[trigger] info.segments@[i]).cycles
                            <= (1u32 << env.segment_po2)
                    &&& forall|i: int|
                        0 <= i < info.segments@.len() - 1 ==> (#[trigger] info.segments@[i]).cycles
                            == (1u32 << env.segment_po2)
                    &&& info.segments@.last().cycles == spec_execution_cycles(
                        binary@,
                        env.input_frames.deep_view(),
                    ) - (info.segments@.len() - 1) * ((1u32 << env.segment_po2) as int)
                    &&& spec_execution(binary@, env.input_frames.deep_view()) == (
                    ExitCode::Halted(0u32),
                    info.journal@,
                    )
                },
                Err(e) => {
                    &&& e.exit_code == ExitCode::Fault
                    &&& spec_execution(binary@, env.input_frames.deep_view()) == (
                    ExitCode::Fault,
                    e.journal@,
                    )
                },
            },
    {
        let session = match execute(env, binary) {
            Ok(s) => s,
            Err(e) => {
                return Err(e);
            },
        };
        let mut infos: Vec<SegmentInfo> = Vec::new();
        let mut i: usize = 0;
        while i < session.segments.len()
            invariant
                session.wf(),
                i <= session.segments@.len(),
                infos@.len() == i,
                forall|q: int|
                    0 <= q < i ==> (#[trigger] infos@[q]).po2 == session.segments@[q].po2
                        && infos@[q].cycles == session.segments@[q].cycles,
            decreases session.segments@.len() - i,
        {
            let seg = session.segments[i];
            infos.push(SegmentInfo { po2: seg.po2, cycles: seg.cycles });
            i = i + 1;
        }
        Ok(SessionInfo { segments: infos, journal: session.journal, exit_code: session.exit_code })
    }

    /// Execute the binary and prove the whole run: prove each segment, lift
    /// each segment receipt, and join the lifted receipts in segment order
    /// into one composite receipt. On success the receipt verifies against
    /// the binary's image ID under the same context: its control ID is
    /// registered, its seal canonical, its claim names the image ID and the
    /// digest of the carried journal, and the run halted cleanly.
    pub fn prove_with_ctx(
        &self,
        env: &ExecutorEnv,
        ctx: &VerifierContext,
        binary: &Vec<u8>,
        opts: &ProverOpts,
    ) -> (r: Result<Receipt, ProverError>)
        requires
            env.wf(),
            binary@.len() <= u32::MAX,
        ensures
            match r {
                Ok(rec) => {
                    &&& opts.hash_suite == ctx.suite
                    &&& spec_registered(ctx.allowed@, opts.lift_control_id)
                    &&& spec_registered(ctx.allowed@, opts.join_control_id)
                    &&& spec_verify_check(rec, spec_image_id(binary@), *ctx) is None
                    &&& rec.inner.claim.exit_code == ExitCode::Halted(0u32)
                    &&& spec_execution(binary@, env.input_frames.deep_view()) == (
                    ExitCode::Halted(0u32),
                    rec.journal@,
                    )
                },
                Err(e) => match e {
                    ProverError::ConfigMismatch => opts.hash_suite != ctx.suite,
                    ProverError::ControlIdNotRegistered => {
                        &&& opts.hash_suite == ctx.suite
                        &&& (!spec_registered(ctx.allowed@, opts.lift_control_id)
                            || !spec_registered(ctx.allowed@, opts.join_control_id))
                    },
                    ProverError::Execution(code, journal) => {
                        &&& opts.hash_suite == ctx.suite
                        &&& spec_registered(ctx.allowed@, opts.lift_control_id)
                        &&& spec_registered(ctx.allowed@, opts.join_control_id)
                        &&& code == ExitCode::Fault
                        &&& spec_execution(binary@, env.input_frames.deep_view()) == (
                        ExitCode::Fault,
                        journal@,
                        )
                    },
                },
            },
    {
        if !(opts.hash_suite == ctx.suite) {
            return Err(ProverError::ConfigMismatch);
        }
        if !ctx.is_registered(&opts.lift_control_id) || !ctx.is_registered(&opts.join_control_id) {
            return Err(ProverError::ControlIdNotRegistered);
        }
        let session = match execute(env, binary) {
            Ok(s) => s,
            Err(e) => {
                return Err(ProverError::Execution(e.exit_code, e.journal));
            },
        };
        let seg0 = session.segments[0];
        let sr0 = match prove_segment(&seg0, ctx, opts) {
            Ok(x) => x,
            Err(_) => {
                proof {
                    assert(false);
                }
                return Err(ProverError::ConfigMismatch);
            },
        };
        proof {
            assert(spec_lift_check(sr0, *ctx, opts.lift_control_id) is None);
        }
        let mut acc = match lift(&sr0, ctx, &opts.lift_control_id) {
            Ok(x) => x,
            Err(_) => {
                proof {
                    assert(false);
                }
                return Err(ProverError::ControlIdNotRegistered);
            },
        };
        let mut k: usize = 1;
        while k < session.segments.len()
            invariant
                session.wf(),
                env.wf(),
                opts.hash_suite == ctx.suite,
                spec_registered(ctx.allowed@, opts.lift_control_id),
                spec_registered(ctx.allowed@, opts.join_control_id),
                1 <= k <= session.segments@.len(),
                spec_registered(ctx.allowed@, acc.control_id),
                acc.hash_suite == ctx.suite,
                acc.seal_ok(),
                acc.assumptions@.len() == 0,
                acc.claim.image_id == session.segments@[0].image_id,
                acc.claim.pre_state == session.segments@[0].pre_state,
                acc.claim.post_state == session.segments@[k - 1].post_state,
                acc.claim.journal_digest == session.segments@[k - 1].journal_digest,
                acc.claim.exit_code == session.segments@[k - 1].exit_code,
            decreases session.segments@.len() - k,
        {
            let seg = session.segments[k];
            let sr = match prove_segment(&seg, ctx, opts) {
                Ok(x) => x,
                Err(_) => {
                    proof {
                        assert(false);
                    }
                    return Err(ProverError::ConfigMismatch);
                },
            };
            proof {
                assert(spec_lift_check(sr, *ctx, opts.lift_control_id) is None);
            }
            let lifted = match lift(&sr, ctx, &opts.lift_control_id) {
                Ok(x) => x,
                Err(_) => {
                    proof {
                        assert(false);
                    }
                    return Err(ProverError::ControlIdNotRegistered);
                },
            };
            proof {
                assert(session.segments@[k - 1].post_state == session.segments@[k as int].pre_state);
                assert(spec_join_check(acc, lifted, *ctx, opts.join_control_id) is None);
            }
            let joined = match join(&acc, &lifted, ctx, &opts.join_control_id) {
                Ok(x) => x,
                Err(_) => {
                    proof {
                        assert(false);
                    }
                    return Err(ProverError::ControlIdNotRegistered);
                },
            };
            acc = joined;
            k = k + 1;
        }
        let rec = Receipt { inner: acc, journal: session.journal };
        proof {
            assert(session.segments@.last() == session.segments@[session.segments@.len() - 1]);
            assert(rec.inner.claim.journal_digest == crate::receipt::spec_journal_digest(
                rec.journal@,
            ));
            assert(spec_verify_check(rec, spec_image_id(binary@), *ctx) is None);
        }
        Ok(rec)
    }
}

} // verus!
