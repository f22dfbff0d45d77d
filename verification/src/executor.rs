//! The executor: runs the primary VM to completion and partitions the run
//! into bounded segments.
//!
//! The primary VM here is a minimal deterministic machine: a binary is a
//! sequence of one-byte instructions with no control flow (the program
//! counter only advances), a blocking `read` pulls the next input frame, and
//! `commit` appends to the append-only journal. The executor emits a segment
//! every time the cycle count reaches the configured power-of-two bound, so
//! per-segment proving cost stays constant however long the run is. No proof
//! is produced here; any VM fault surfaces as an execution error carrying
//! the exit status and the journal produced so far.

use vstd::prelude::*;

use crate::claim::{Claim, ExitCode};
use crate::digest::{spec_le_bytes, Digest};
use crate::receipt::spec_journal_digest;

verus! {

/// Halt cleanly.
pub const OP_HALT: u8 = 0;

/// Read the next input frame.
pub const OP_READ: u8 = 1;

/// Append the last frame's length to the journal, as four little-endian
/// bytes.
pub const OP_COMMIT_LEN: u8 = 2;

/// Append the last frame's bytes to the journal.
pub const OP_COMMIT: u8 = 3;

/// Inputs and configuration of one execution request.
#[derive(Clone, Debug)]
pub struct ExecutorEnv {
    /// Input frames, handed to the guest in order, one per read.
    pub input_frames: Vec<Vec<u8>>,
    /// Log2 of the segment cycle bound.
    pub segment_po2: u32,
}

impl ExecutorEnv {
    /// A usable environment: the segment bound is a machine-addressable
    /// power of two and every frame's length has a word encoding.
    pub open spec fn wf(self) -> bool {
        &&& 1 <= self.segment_po2 < 32
        &&& forall|i: int|
            0 <= i < self.input_frames@.len() ==> (#[trigger] self.input_frames@[i])@.len()
                <= u32::MAX
    }

    /// Build an environment.
    pub fn new(input_frames: Vec<Vec<u8>>, segment_po2: u32) -> (r: Option<ExecutorEnv>)
        ensures
            match r {
                Some(e) => {
                    &&& e.wf()
                    &&& e.input_frames == input_frames
                    &&& e.segment_po2 == segment_po2
                },
                None => !(ExecutorEnv { input_frames, segment_po2 }).wf(),
            },
    {
        if segment_po2 < 1 || segment_po2 >= 32 {
            return None;
        }
        let mut i: usize = 0;
        while i < input_frames.len()
            invariant
                i <= input_frames@.len(),
                forall|q: int|
                    0 <= q < i ==> (#[trigger] input_frames@[q])@.len() <= u32::MAX,
            decreases input_frames@.len() - i,
        {
            if input_frames[i].len() > u32::MAX as usize {
                proof {
                    assert((ExecutorEnv { input_frames, segment_po2 }).input_frames@[i as int]@.len()
                        > u32::MAX);
                }
                return None;
            }
            i = i + 1;
        }
        Some(ExecutorEnv { input_frames, segment_po2 })
    }
}

/// The identity of a primary-VM binary: the digest of its bytes.
pub open spec fn spec_image_id(binary: Seq<u8>) -> Digest {
    spec_journal_digest(binary)
}

/// Compute a binary's image ID.
pub fn image_id(binary: &Vec<u8>) -> (r: Digest)
    ensures
        r == spec_image_id(binary@),
{
    crate::receipt::journal_digest(binary)
}

/// Digest of a machine state: the program counter, the frames consumed, the
/// journal length and the last frame's length, padded to a digest.
pub open spec fn spec_state_digest(pc: u32, frames_read: u32, journal_len: u32, last_len: u32) -> Digest {
    Digest { words: [pc, frames_read, journal_len, last_len, 0u32, 0u32, 0u32, 0u32] }
}

/// Compute a machine state digest.
pub fn state_digest(pc: u32, frames_read: u32, journal_len: u32, last_len: u32) -> (r: Digest)
    ensures
        r == spec_state_digest(pc, frames_read, journal_len, last_len),
{
    Digest { words: [pc, frames_read, journal_len, last_len, 0u32, 0u32, 0u32, 0u32] }
}

/// The primary VM, one step at a time: from a program counter, the count of
/// frames consumed, the last frame read and the journal so far, how the run
/// ends and with what journal. The machine has no control flow: the counter
/// only advances, so every run ends. Running off the end of the binary, an
/// unknown instruction, reading past the inputs and overrunning the journal
/// capacity are faults; the journal produced so far is kept either way.
pub open spec fn spec_run(
    binary: Seq<u8>,
    frames: Seq<Seq<u8>>,
    pc: int,
    frames_read: int,
    last: Seq<u8>,
    journal: Seq<u8>,
) -> (ExitCode, Seq<u8>)
    decreases binary.len() - pc,
{
    if pc < 0 || pc >= binary.len() {
        (ExitCode::Fault, journal)
    } else {
        let op = binary[pc];
        if op == OP_HALT {
            (ExitCode::Halted(0u32), journal)
        } else if op == OP_READ {
            if frames_read < 0 || frames_read >= frames.len() {
                (ExitCode::Fault, journal)
            } else {
                spec_run(binary, frames, pc + 1, frames_read + 1, frames[frames_read], journal)
            }
        } else if op == OP_COMMIT_LEN {
            if journal.len() + 4 > u32::MAX {
                (ExitCode::Fault, journal)
            } else {
                spec_run(
                    binary,
                    frames,
                    pc + 1,
                    frames_read,
                    last,
                    journal + spec_le_bytes(last.len() as u32),
                )
            }
        } else if op == OP_COMMIT {
            if journal.len() + last.len() > u32::MAX {
                (ExitCode::Fault, journal)
            } else {
                spec_run(binary, frames, pc + 1, frames_read, last, journal + last)
            }
        } else {
            (ExitCode::Fault, journal)
        }
    }
}

/// A whole run of the primary VM on a binary and its input frames, from the
/// initial state: how it ends, and the journal it commits.
pub open spec fn spec_execution(binary: Seq<u8>, frames: Seq<Seq<u8>>) -> (ExitCode, Seq<u8>) {
    spec_run(binary, frames, 0, 0, Seq::empty(), Seq::empty())
}

/// Cycles the primary VM consumes from a given state: one per instruction
/// retired, the halting instruction included; an instruction that faults
/// retires nothing.
pub open spec fn spec_run_cycles(
    binary: Seq<u8>,
    frames: Seq<Seq<u8>>,
    pc: int,
    frames_read: int,
    last: Seq<u8>,
    journal: Seq<u8>,
) -> int
    decreases binary.len() - pc,
{
    if pc < 0 || pc >= binary.len() {
        0
    } else {
        let op = binary[pc];
        if op == OP_HALT {
            1
        } else if op == OP_READ {
            if frames_read < 0 || frames_read >= frames.len() {
                0
            } else {
                1 + spec_run_cycles(
                    binary,
                    frames,
                    pc + 1,
                    frames_read + 1,
                    frames[frames_read],
                    journal,
                )
            }
        } else if op == OP_COMMIT_LEN {
            if journal.len() + 4 > u32::MAX {
                0
            } else {
                1 + spec_run_cycles(
                    binary,
                    frames,
                    pc + 1,
                    frames_read,
                    last,
                    journal + spec_le_bytes(last.len() as u32),
                )
            }
        } else if op == OP_COMMIT {
            if journal.len() + last.len() > u32::MAX {
                0
            } else {
                1 + spec_run_cycles(binary, frames, pc + 1, frames_read, last, journal + last)
            }
        } else {
            0
        }
    }
}

/// Cycles of a whole run, from the initial state.
pub open spec fn spec_execution_cycles(binary: Seq<u8>, frames: Seq<Seq<u8>>) -> int {
    spec_run_cycles(binary, frames, 0, 0, Seq::empty(), Seq::empty())
}

/// One multiplication step of the segment count.
proof fn lemma_count_step(n: int, l: int)
    ensures
        (n + 1) * l == n * l + l,
{
    vstd::arithmetic::mul::lemma_mul_is_distributive_add_other_way(l, n, 1);
}

/// One bounded, independently provable slice of an execution trace.
/// Immutable once the executor produced it.
#[derive(Clone, Copy, Debug)]
pub struct Segment {
    /// Ordinal of this segment within its session.
    pub index: u32,
    /// Log2 of this segment's cycle bound.
    pub po2: u32,
    /// Cycles actually executed in this segment.
    pub cycles: u32,
    /// Identity of the binary that ran.
    pub image_id: Digest,
    /// Digest of the machine state this segment started in.
    pub pre_state: Digest,
    /// Digest of the machine state this segment ended in.
    pub post_state: Digest,
    /// Digest of the journal as of this segment's end.
    pub journal_digest: Digest,
    /// How this segment ended: a split on the cycle bound, a clean halt, or
    /// a fault.
    pub exit_code: ExitCode,
}

impl Segment {
    /// The segment's cycle count respects its power-of-two bound.
    pub open spec fn wf(self) -> bool {
        &&& self.po2 < 32
        &&& self.cycles <= (1u32 << self.po2)
    }

    /// The claim this segment's receipt will attest to.
    pub open spec fn spec_claim(self) -> Claim {
        Claim {
            image_id: self.image_id,
            pre_state: self.pre_state,
            post_state: self.post_state,
            journal_digest: self.journal_digest,
            exit_code: self.exit_code,
        }
    }

    /// Build the segment's claim.
    pub fn claim(&self) -> (r: Claim)
        ensures
            r == self.spec_claim(),
    {
        Claim {
            image_id: self.image_id,
            pre_state: self.pre_state,
            post_state: self.post_state,
            journal_digest: self.journal_digest,
            exit_code: self.exit_code,
        }
    }
}

/// The lightweight public summary of a segment.
#[derive(Clone, Copy, Debug, PartialEq, Eq, Structural)]
pub struct SegmentInfo {
    /// Log2 of the segment's cycle bound.
    pub po2: u32,
    /// Cycles actually executed.
    pub cycles: u32,
}

/// The externally reported summary of one execution request: per-segment
/// summaries, the journal, and the exit status.
#[derive(Clone, Debug)]
pub struct SessionInfo {
    /// Summaries of the segments, in execution order.
    pub segments: Vec<SegmentInfo>,
    /// The committed public output of the guest.
    pub journal: Vec<u8>,
    /// How the execution ended.
    pub exit_code: ExitCode,
}

/// The full record of one execution request: ordered segments, the committed
/// journal, and the exit status. Immutable after the executor completes.
#[derive(Clone, Debug)]
pub struct Session {
    /// The segments, in execution order.
    pub segments: Vec<Segment>,
    /// The committed public output of the guest.
    pub journal: Vec<u8>,
    /// How the execution ended.
    pub exit_code: ExitCode,
}

impl Session {
    /// The structural invariant every executor-produced session has: at
    /// least one segment; indices in order; one image ID throughout; every
    /// segment within its cycle bound; adjacent segments chained, the
    /// post-state digest of each equal to the pre-state digest of the next;
    /// every segment but the last ended on a split; and the last segment
    /// carries the session's exit status and the digest of the full journal.
    pub open spec fn wf(self) -> bool {
        &&& self.segments@.len() >= 1
        &&& self.journal@.len() <= u32::MAX
        &&& forall|i: int| 0 <= i < self.segments@.len() ==> (#[trigger] self.segments@[i]).wf()
        &&& forall|i: int|
            0 <= i < self.segments@.len() ==> (#[trigger] self.segments@[i]).index == i
        &&& forall|i: int|
            0 <= i < self.segments@.len() ==> (#[trigger] self.segments@[i]).image_id
                == self.segments@[0].image_id
        &&& forall|i: int|
            0 <= i < self.segments@.len() - 1 ==> (#[trigger] self.segments@[i]).post_state
                == self.segments@[i + 1].pre_state
        &&& forall|i: int|
            0 <= i < self.segments@.len() - 1 ==> (#[trigger] self.segments@[i]).exit_code
                == ExitCode::SystemSplit
        &&& self.segments@.last().exit_code == self.exit_code
        &&& self.segments@.last().journal_digest == spec_journal_digest(self.journal@)
    }
}

/// Segment chain continuity: in a well-formed session, each segment's
/// post-state digest equals the next segment's pre-state digest.
pub proof fn lemma_segment_chain_continuity(s: Session, i: int)
    requires
        s.wf(),
        0 <= i < s.segments@.len() - 1,
    ensures
        s.segments@[i].post_state == s.segments@[i + 1].pre_state,
{
}

/// An execution that did not complete cleanly: the exit status and the
/// journal produced so far. Never a proving-system error.
#[derive(Clone, Debug)]
pub struct ExecutorError {
    /// How the execution ended.
    pub exit_code: ExitCode,
    /// The journal committed before the fault.
    pub journal: Vec<u8>,
}

/// Copy a byte vector.
fn clone_bytes(src: &Vec<u8>) -> (r: Vec<u8>)
    ensures
        r@ == src@,
{
    let mut out: Vec<u8> = Vec::new();
    let mut i: usize = 0;
    while i < src.len()
        invariant
            i <= src@.len(),
            out@ == src@.take(i as int),
        decreases src@.len() - i,
    {
        proof {
            assert(src@.take(i + 1) =~= src@.take(i as int).push(src@[i as int]));
        }
        out.push(src[i]);
        i = i + 1;
    }
    proof {
        assert(src@.take(src@.len() as int) =~= src@);
    }
    out
}

/// Run the primary VM to completion, emitting a segment every time the
/// cycle count reaches the environment's power-of-two bound. On a clean
/// halt the session is well-formed: its segments are chained, all but the
/// last are full and ended on a split, and the last binds the journal and
/// the exit status. Any fault (illegal instruction, reading past the
/// inputs, running off the end of the binary, journal overflow) is an
/// execution error carrying the journal produced so far.
#[verifier::rlimit(100)]
pub fn execute(env: &ExecutorEnv, binary: &Vec<u8>) -> (r: Result<Session, ExecutorError>)
    requires
        env.wf(),
        binary@.len() <= u32::MAX,
    ensures
        match r {
            Ok(s) => {
                &&& s.wf()
                &&& s.exit_code == ExitCode::Halted(0u32)
                &&& s.segments@[0].image_id == spec_image_id(binary@)
                &&& forall|i: int|
                    0 <= i < s.segments@.len() ==> (#[trigger] s.segments@[i]).po2
                        == env.segment_po2
                &&& forall|i: int|
                    0 <= i < s.segments@.len() - 1 ==> (#[trigger] s.segments@[i]).cycles == (
                    1u32 << env.segment_po2)
                &&& s.segments@.last().cycles == spec_execution_cycles(
                    binary@,
                    env.input_frames.deep_view(),
                ) - (s.segments@.len() - 1) * ((1u32 << env.segment_po2) as int)
                &&& spec_execution(binary@, env.input_frames.deep_view()) == (
                ExitCode::Halted(0u32),
                s.journal@,
                )
            },
            Err(e) => {
                &&& e.exit_code == ExitCode::Fault
                &&& spec_execution(binary@, env.input_frames.deep_view()) == (
                ExitCode::Fault,
                e.journal@,
                )
            },
        },
{
    let img = image_id(binary);
    let po2: u32 = env.segment_po2;
    let limit: u32 = 1u32 << po2;
    proof {
        assert(2 <= 1u32 << po2) by (bit_vector)
            requires
                1 <= po2 < 32,
        ;
    }
    let ghost frames: Seq<Seq<u8>> = env.input_frames.deep_view();
    proof {
        assert(frames.len() == env.input_frames@.len());
        assert forall|i: int| 0 <= i < frames.len() implies frames[i]
            == env.input_frames@[i]@ by {
            assert(frames[i] =~= env.input_frames@[i]@);
        }
    }
    let n: usize = binary.len();
    let mut segments: Vec<Segment> = Vec::new();
    let mut journal: Vec<u8> = Vec::new();
    let mut pc: usize = 0;
    let mut frames_read: usize = 0;
    let mut last_frame: Vec<u8> = Vec::new();
    let mut seg_cycles: u32 = 0;
    let mut next_index: u32 = 0;
    let mut seg_pre: Digest = state_digest(0, 0, 0, 0);
    while pc < n
        invariant
            env.wf(),
            binary@.len() <= u32::MAX,
            n == binary@.len(),
            img == spec_image_id(binary@),
            limit == (1u32 << env.segment_po2),
            1 <= limit,
            pc <= n,
            frames_read <= env.input_frames@.len(),
            journal@.len() <= u32::MAX,
            last_frame@.len() <= u32::MAX,
            seg_cycles < limit,
            2 <= limit,
            segments@.len() == next_index,
            2 * next_index + seg_cycles <= pc,
            segments@.len() * (limit as int) + seg_cycles == pc,
            spec_run_cycles(
                binary@,
                frames,
                pc as int,
                frames_read as int,
                last_frame@,
                journal@,
            ) == spec_execution_cycles(binary@, frames) - pc,
            frames == env.input_frames.deep_view(),
            frames.len() == env.input_frames@.len(),
            forall|i: int| 0 <= i < frames.len() ==> #[trigger] frames[i]
                == env.input_frames@[i]@,
            spec_execution(binary@, frames) == spec_run(
                binary@,
                frames,
                pc as int,
                frames_read as int,
                last_frame@,
                journal@,
            ),
            forall|i: int| 0 <= i < segments@.len() ==> (#[trigger] segments@[i]).wf(),
            forall|i: int| 0 <= i < segments@.len() ==> (#[trigger] segments@[i]).index == i,
            forall|i: int|
                0 <= i < segments@.len() ==> (#[trigger] segments@[i]).image_id == img,
            forall|i: int|
                0 <= i < segments@.len() ==> (#[trigger] segments@[i]).po2 == env.segment_po2,
            forall|i: int|
                0 <= i < segments@.len() ==> (#[trigger] segments@[i]).cycles == limit,
            forall|i: int|
                0 <= i < segments@.len() ==> (#[trigger] segments@[i]).exit_code
                    == ExitCode::SystemSplit,
            forall|i: int|
                0 <= i < segments@.len() - 1 ==> (#[trigger] segments@[i]).post_state
                    == segments@[i + 1].pre_state,
            segments@.len() >= 1 ==> segments@.last().post_state == seg_pre,
        decreases n - pc,
    {
        let op: u8 = binary[pc];
        if op == OP_HALT {
            let jd = crate::receipt::journal_digest(&journal);
            let post = state_digest(
                (pc + 1) as u32,
                frames_read as u32,
                journal.len() as u32,
                last_frame.len() as u32,
            );
            let seg = Segment {
                index: next_index,
                po2: env.segment_po2,
                cycles: seg_cycles + 1,
                image_id: img,
                pre_state: seg_pre,
                post_state: post,
                journal_digest: jd,
                exit_code: ExitCode::Halted(0u32),
            };
            segments.push(seg);
            proof {
                assert(spec_run(
                    binary@,
                    frames,
                    pc as int,
                    frames_read as int,
                    last_frame@,
                    journal@,
                ) == (ExitCode::Halted(0u32), journal@));
                assert(spec_run_cycles(
                    binary@,
                    frames,
                    pc as int,
                    frames_read as int,
                    last_frame@,
                    journal@,
                ) == 1);
            }
            let s = Session { segments, journal, exit_code: ExitCode::Halted(0u32) };
            proof {
                assert(s.segments@.last() == seg);
                assert(s.wf());
                assert(s.segments@.last().cycles == spec_execution_cycles(binary@, frames) - (
                s.segments@.len() - 1) * (limit as int));
            }
            return Ok(s);
        } else if op == OP_READ {
            if frames_read == env.input_frames.len() {
                proof {
                    assert(spec_run(
                        binary@,
                        frames,
                        pc as int,
                        frames_read as int,
                        last_frame@,
                        journal@,
                    ) == (ExitCode::Fault, journal@));
                }
                return Err(ExecutorError { exit_code: ExitCode::Fault, journal });
            }
            let ghost fr_old: int = frames_read as int;
            let ghost last_old: Seq<u8> = last_frame@;
            last_frame = clone_bytes(&env.input_frames[frames_read]);
            frames_read = frames_read + 1;
            proof {
                assert(last_frame@ == frames[fr_old]);
                assert(spec_run(binary@, frames, pc as int, fr_old, last_old, journal@)
                    == spec_run(
                    binary@,
                    frames,
                    pc + 1,
                    frames_read as int,
                    last_frame@,
                    journal@,
                ));
                assert(spec_run_cycles(binary@, frames, pc as int, fr_old, last_old, journal@)
                    == 1 + spec_run_cycles(
                    binary@,
                    frames,
                    pc + 1,
                    frames_read as int,
                    last_frame@,
                    journal@,
                ));
            }
        } else if op == OP_COMMIT_LEN {
            if journal.len() > u32::MAX as usize - 4 {
                proof {
                    assert(spec_run(
                        binary@,
                        frames,
                        pc as int,
                        frames_read as int,
                        last_frame@,
                        journal@,
                    ) == (ExitCode::Fault, journal@));
                }
                return Err(ExecutorError { exit_code: ExitCode::Fault, journal });
            }
            let ghost j_old: Seq<u8> = journal@;
            let len_word: u32 = last_frame.len() as u32;
            journal.push((len_word & 0xff) as u8);
            journal.push(((len_word >> 8) & 0xff) as u8);
            journal.push(((len_word >> 16) & 0xff) as u8);
            journal.push(((len_word >> 24) & 0xff) as u8);
            proof {
                assert(journal@ =~= j_old + spec_le_bytes(last_frame@.len() as u32));
                assert(spec_run(binary@, frames, pc as int, frames_read as int, last_frame@, j_old)
                    == spec_run(
                    binary@,
                    frames,
                    pc + 1,
                    frames_read as int,
                    last_frame@,
                    journal@,
                ));
                assert(spec_run_cycles(
                    binary@,
                    frames,
                    pc as int,
                    frames_read as int,
                    last_frame@,
                    j_old,
                ) == 1 + spec_run_cycles(
                    binary@,
                    frames,
                    pc + 1,
                    frames_read as int,
                    last_frame@,
                    journal@,
                ));
            }
        } else if op == OP_COMMIT {
            if last_frame.len() > u32::MAX as usize - journal.len() {
                proof {
                    assert(spec_run(
                        binary@,
                        frames,
                        pc as int,
                        frames_read as int,
                        last_frame@,
                        journal@,
                    ) == (ExitCode::Fault, journal@));
                }
                return Err(ExecutorError { exit_code: ExitCode::Fault, journal });
            }
            let mut k: usize = 0;
            let ghost jprev: Seq<u8> = journal@;
            while k < last_frame.len()
                invariant
                    k <= last_frame@.len(),
                    last_frame@.len() <= u32::MAX - jprev.len(),
                    journal@ == jprev + last_frame@.take(k as int),
                decreases last_frame@.len() - k,
            {
                proof {
                    assert(last_frame@.take(k + 1) =~= last_frame@.take(k as int).push(
                        last_frame@[k as int],
                    ));
                    assert(jprev + last_frame@.take(k + 1) =~= (jprev + last_frame@.take(
                        k as int,
                    )).push(last_frame@[k as int]));
                }
                journal.push(last_frame[k]);
                k = k + 1;
            }
            proof {
                assert(journal@ == jprev + last_frame@);
                assert(spec_run(binary@, frames, pc as int, frames_read as int, last_frame@, jprev)
                    == spec_run(
                    binary@,
                    frames,
                    pc + 1,
                    frames_read as int,
                    last_frame@,
                    journal@,
                ));
                assert(spec_run_cycles(
                    binary@,
                    frames,
                    pc as int,
                    frames_read as int,
                    last_frame@,
                    jprev,
                ) == 1 + spec_run_cycles(
                    binary@,
                    frames,
                    pc + 1,
                    frames_read as int,
                    last_frame@,
                    journal@,
                ));
            }
        } else {
            proof {
                assert(spec_run(
                    binary@,
                    frames,
                    pc as int,
                    frames_read as int,
                    last_frame@,
                    journal@,
                ) == (ExitCode::Fault, journal@));
            }
            return Err(ExecutorError { exit_code: ExitCode::Fault, journal });
        }
        pc = pc + 1;
        seg_cycles = seg_cycles + 1;
        if seg_cycles == limit {
            let jd = crate::receipt::journal_digest(&journal);
            let post = state_digest(
                pc as u32,
                frames_read as u32,
                journal.len() as u32,
                last_frame.len() as u32,
            );
            let seg = Segment {
                index: next_index,
                po2: env.segment_po2,
                cycles: limit,
                image_id: img,
                pre_state: seg_pre,
                post_state: post,
                journal_digest: jd,
                exit_code: ExitCode::SystemSplit,
            };
            segments.push(seg);
            seg_pre = post;
            seg_cycles = 0;
            next_index = next_index + 1;
            proof {
                lemma_count_step(segments@.len() - 1, limit as int);
            }
        }
    }
    proof {
        assert(spec_run(binary@, frames, pc as int, frames_read as int, last_frame@, journal@)
            == (ExitCode::Fault, journal@));
    }
    Err(ExecutorError { exit_code: ExitCode::Fault, journal })
}

} // verus!

