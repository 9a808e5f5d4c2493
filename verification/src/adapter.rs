//! One hash algorithm behind a uniform interface: absorb bytes, then hand out
//! a digest of the declared length and start over.

use vstd::prelude::*;
use crate::algorithm::AlgorithmId;
use crate::primitive::{
    digest_value, fixed_algorithm, fixed_finalize_reset, fixed_input, fixed_update, xof_finalize,
    xof_input, xof_new, xof_output, xof_reset, xof_update, FixedHasher,
};
use crate::primitive::{
    new_blake2_256, new_blake2_384, new_blake2_512, new_md5, new_ripemd128, new_ripemd160,
    new_ripemd320, new_sha1, new_sha2_224, new_sha2_256, new_sha2_384, new_sha2_512,
    new_sha2_512_t224, new_sha2_512_t256, new_sha3_224, new_sha3_256, new_sha3_384,
    new_sha3_512, new_whirlpool,
};

verus! {

/// The digest that the algorithm `alg` gives for `input`, at the algorithm's
/// declared length. For the algorithms built on an extendable output this is
/// the output cut to that length.
pub open spec fn digest_spec(alg: AlgorithmId, input: Seq<u8>) -> Seq<u8> {
    if alg.is_extendable_spec() {
        xof_output(input, alg.output_len_spec())
    } else {
        digest_value(alg, input)
    }
}

/// The running state of one algorithm.
enum HashState {
    Fixed(FixedHasher),
    Extendable(blake3::Hasher),
}

impl HashState {
    /// The bytes absorbed since the state was made or last finalized.
    spec fn input(&self) -> Seq<u8> {
        match *self {
            HashState::Fixed(h) => fixed_input(h),
            HashState::Extendable(h) => xof_input(h),
        }
    }

    /// Whether the state is one that computes `alg`.
    spec fn computes(&self, alg: AlgorithmId) -> bool {
        match *self {
            HashState::Fixed(h) => fixed_algorithm(h) == alg && !alg.is_extendable_spec(),
            HashState::Extendable(_) => alg.is_extendable_spec(),
        }
    }

    fn absorb(&mut self, data: &[u8])
        ensures
            final(self).input() == old(self).input() + data@,
            forall|alg: AlgorithmId| old(self).computes(alg) == final(self).computes(alg),
        no_unwind
    {
        match self {
            HashState::Fixed(h) => fixed_update(h, data),
            HashState::Extendable(h) => xof_update(h, data),
        }
    }

    fn emit(&mut self, alg: AlgorithmId, len: usize) -> (out: Vec<u8>)
        requires
            old(self).computes(alg),
            len == alg.output_len_spec(),
        ensures
            out@ == digest_spec(alg, old(self).input()),
            out@.len() == alg.output_len_spec(),
            final(self).input() == Seq::<u8>::empty(),
            final(self).computes(alg),
        no_unwind
    {
        match self {
            HashState::Fixed(h) => fixed_finalize_reset(h),
            HashState::Extendable(h) => {
                let out = xof_finalize(h, len);
                xof_reset(h);
                out
            },
        }
    }
}

/// One hash algorithm in the middle of a computation.
pub struct DigestAdapter {
    alg: AlgorithmId,
    state: HashState,
}

impl DigestAdapter {
    #[verifier::type_invariant]
    spec fn well_formed(&self) -> bool {
        self.state.computes(self.alg)
    }

    /// The algorithm that the adapter computes.
    pub closed spec fn algorithm_spec(&self) -> AlgorithmId {
        self.alg
    }

    /// The bytes absorbed since the adapter was made or last finalized.
    pub closed spec fn input(&self) -> Seq<u8> {
        self.state.input()
    }

    /// An adapter for `alg` that has absorbed nothing.
    pub fn new(alg: AlgorithmId) -> (a: DigestAdapter)
        ensures
            a.algorithm_spec() == alg,
            a.input() == Seq::<u8>::empty(),
    {
        let state = match alg {
            AlgorithmId::Sha3_224 => HashState::Fixed(new_sha3_224()),
            AlgorithmId::Sha3_256 => HashState::Fixed(new_sha3_256()),
            AlgorithmId::Sha3_384 => HashState::Fixed(new_sha3_384()),
            AlgorithmId::Sha3_512 => HashState::Fixed(new_sha3_512()),
            AlgorithmId::Sha2_224 => HashState::Fixed(new_sha2_224()),
            AlgorithmId::Sha2_256 => HashState::Fixed(new_sha2_256()),
            AlgorithmId::Sha2_384 => HashState::Fixed(new_sha2_384()),
            AlgorithmId::Sha2_512 => HashState::Fixed(new_sha2_512()),
            AlgorithmId::Sha2_512T224 => HashState::Fixed(new_sha2_512_t224()),
            AlgorithmId::Sha2_512T256 => HashState::Fixed(new_sha2_512_t256()),
            AlgorithmId::Blake2_256 => HashState::Fixed(new_blake2_256()),
            AlgorithmId::Blake2_384 => HashState::Fixed(new_blake2_384()),
            AlgorithmId::Blake2_512 => HashState::Fixed(new_blake2_512()),
            AlgorithmId::Whirlpool => HashState::Fixed(new_whirlpool()),
            AlgorithmId::Sha1 => HashState::Fixed(new_sha1()),
            AlgorithmId::Ripemd320 => HashState::Fixed(new_ripemd320()),
            AlgorithmId::Ripemd160 => HashState::Fixed(new_ripemd160()),
            AlgorithmId::Ripemd128 => HashState::Fixed(new_ripemd128()),
            AlgorithmId::Md5 => HashState::Fixed(new_md5()),
            AlgorithmId::Blake3_256 | AlgorithmId::Blake3_384 | AlgorithmId::Blake3_512 => {
                HashState::Extendable(xof_new())
            },
        };
        DigestAdapter { alg, state }
    }

    /// The algorithm that the adapter computes.
    pub fn algorithm(&self) -> (r: AlgorithmId)
        ensures
            r == self.algorithm_spec(),
    {
        self.alg
    }

    /// Absorbs `data` after everything absorbed so far.
    pub fn update(&mut self, data: &[u8])
        ensures
            final(self).algorithm_spec() == old(self).algorithm_spec(),
            final(self).input() == old(self).input() + data@,
    {
        proof {
            use_type_invariant(&*self);
        }
        self.state.absorb(data);
    }

    /// Returns the digest of everything absorbed since the adapter was made
    /// or last finalized, and starts a new computation.
    pub fn finalize_reset(&mut self) -> (out: Vec<u8>)
        ensures
            out@ == digest_spec(old(self).algorithm_spec(), old(self).input()),
            out@.len() == old(self).algorithm_spec().output_len_spec(),
            final(self).algorithm_spec() == old(self).algorithm_spec(),
            final(self).input() == Seq::<u8>::empty(),
    {
        proof {
            use_type_invariant(&*self);
        }
        let alg = self.alg;
        let len = alg.output_len();
        self.state.emit(alg, len)
    }
}

} // verus!
