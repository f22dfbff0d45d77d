//! Fixed-size digests and the SHA-256 binding over byte streams.
//!
//! A [`Digest`] is the identity of a program (image ID, control ID) and the
//! binding commitment over claims and journals. Those bindings are SHA-256
//! digests, computed by the proof system's own hash implementation behind a
//! named result: equal inputs always give equal digests.

use vstd::prelude::*;

verus! {

/// A fixed-size digest of eight 32-bit words.
#[derive(Clone, Copy, Debug)]
pub struct Digest {
    /// The digest's words.
    pub words: [u32; 8],
}

impl PartialEq for Digest {
    fn eq(&self, o: &Digest) -> (r: bool) {
        let r = self.words[0] == o.words[0] && self.words[1] == o.words[1]
            && self.words[2] == o.words[2] && self.words[3] == o.words[3]
            && self.words[4] == o.words[4] && self.words[5] == o.words[5]
            && self.words[6] == o.words[6] && self.words[7] == o.words[7];
        proof {
            broadcast use vstd::array::group_array_axioms;
            if r {
                assert(self.words =~= o.words);
            }
        }
        r
    }
}

impl vstd::std_specs::cmp::PartialEqSpecImpl for Digest {
    open spec fn obeys_eq_spec() -> bool {
        true
    }

    open spec fn eq_spec(&self, o: &Digest) -> bool {
        self.words == o.words
    }
}

impl Digest {
    /// Build a digest from its eight words.
    pub fn new(words: [u32; 8]) -> (r: Digest)
        ensures
            r.words == words,
    {
        Digest { words }
    }
}

/// The four little-endian bytes of a word.
pub open spec fn spec_le_bytes(n: u32) -> Seq<u8> {
    seq![
        (n & 0xff) as u8,
        ((n >> 8) & 0xff) as u8,
        ((n >> 16) & 0xff) as u8,
        ((n >> 24) & 0xff) as u8,
    ]
}

/// The SHA-256 digest of a byte stream, packed into words little-endian.
pub uninterp spec fn sha256_of(bytes: Seq<u8>) -> Digest;

/// Relies on risc0_zkp's SHA-256 implementation
/// (`core::hash::sha::cpu::Impl::hash_bytes`, which runs SHA-256 over the
/// bytes): the digest's bytes are a function of the input bytes alone. The
/// wrapper reads them back with `as_bytes` and packs them into words
/// little-endian, so the result is the same on every machine.
#[verifier::external_body]
pub(crate) fn sha256_digest(bytes: &Vec<u8>) -> (r: Digest)
    ensures
        r == sha256_of(bytes@),
{
    let digest = <risc0_zkp::core::hash::sha::cpu::Impl as risc0_zkp::core::hash::sha::Sha256>::hash_bytes(
        bytes.as_slice(),
    );
    let raw = digest.as_bytes();
    let mut words = [0u32; 8];
    for (i, chunk) in raw.chunks(4).enumerate() {
        words[i] = u32::from_le_bytes(chunk.try_into().unwrap());
    }
    Digest { words }
}

} // verus!
