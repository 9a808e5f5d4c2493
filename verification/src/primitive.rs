//! The hash functions of the outside crates, behind contracts that Verus
//! takes on trust. Nothing in this file is proved: each item says which
//! outside function it stands for and what is claimed of it.

use vstd::prelude::*;
use crate::algorithm::AlgorithmId;

verus! {

/// A running computation of one of the fixed-output hash functions, held as
/// `digest::DynDigest`. The hashers of that family are generic over traits
/// that Verus does not know, and so is the trait object, so neither can be
/// the field of a struct that Verus reads: this struct hides it. Verus sees
/// nothing inside; the two functions below name what the contracts speak of.
#[verifier::external_body]
pub struct FixedHasher {
    inner: Box<dyn digest::DynDigest>,
}

/// The running state of BLAKE3, `blake3::Hasher`.
#[verifier::external_type_specification]
#[verifier::external_body]
pub struct ExBlake3Hasher(blake3::Hasher);

/// The bytes that a hasher has absorbed since it was made or last reset, in
/// the order in which it received them.
pub uninterp spec fn fixed_input(h: FixedHasher) -> Seq<u8>;

/// The algorithm that a hasher was made for.
pub uninterp spec fn fixed_algorithm(h: FixedHasher) -> AlgorithmId;

/// What `digest::DynDigest::finalize_reset` returns for a hasher of the
/// algorithm `alg` that has absorbed `input`.
pub uninterp spec fn digest_value(alg: AlgorithmId, input: Seq<u8>) -> Seq<u8>;

/// The bytes that a BLAKE3 hasher has absorbed since it was made or last
/// reset.
pub uninterp spec fn xof_input(h: blake3::Hasher) -> Seq<u8>;

/// The first `len` bytes of the BLAKE3 extendable output for `input`: what
/// `blake3::OutputReader::fill` writes into a buffer of `len` bytes, right
/// after `blake3::Hasher::finalize_xof`.
pub uninterp spec fn xof_output(input: Seq<u8>, len: nat) -> Seq<u8>;

/// `<sha3::Sha3_224 as digest::Digest>::new`, boxed: a hasher for SHA3-224
/// that has absorbed nothing.
#[verifier::external_body]
pub(crate) fn new_sha3_224() -> (h: FixedHasher)
    ensures
        fixed_input(h) == Seq::<u8>::empty(),
        fixed_algorithm(h) == AlgorithmId::Sha3_224,
{
    FixedHasher { inner: Box::new(<sha3::Sha3_224 as digest::Digest>::new()) }
}

/// `<sha3::Sha3_256 as digest::Digest>::new`, boxed: a hasher for SHA3-256
/// that has absorbed nothing.
#[verifier::external_body]
pub(crate) fn new_sha3_256() -> (h: FixedHasher)
    ensures
        fixed_input(h) == Seq::<u8>::empty(),
        fixed_algorithm(h) == AlgorithmId::Sha3_256,
{
    FixedHasher { inner: Box::new(<sha3::Sha3_256 as digest::Digest>::new()) }
}

/// `<sha3::Sha3_384 as digest::Digest>::new`, boxed: a hasher for SHA3-384
/// that has absorbed nothing.
#[verifier::external_body]
pub(crate) fn new_sha3_384() -> (h: FixedHasher)
    ensures
        fixed_input(h) == Seq::<u8>::empty(),
        fixed_algorithm(h) == AlgorithmId::Sha3_384,
{
    FixedHasher { inner: Box::new(<sha3::Sha3_384 as digest::Digest>::new()) }
}

/// `<sha3::Sha3_512 as digest::Digest>::new`, boxed: a hasher for SHA3-512
/// that has absorbed nothing.
#[verifier::external_body]
pub(crate) fn new_sha3_512() -> (h: FixedHasher)
    ensures
        fixed_input(h) == Seq::<u8>::empty(),
        fixed_algorithm(h) == AlgorithmId::Sha3_512,
{
    FixedHasher { inner: Box::new(<sha3::Sha3_512 as digest::Digest>::new()) }
}

/// `<sha2::Sha224 as digest::Digest>::new`, boxed: a hasher for SHA-224 that
/// has absorbed nothing.
#[verifier::external_body]
pub(crate) fn new_sha2_224() -> (h: FixedHasher)
    ensures
        fixed_input(h) == Seq::<u8>::empty(),
        fixed_algorithm(h) == AlgorithmId::Sha2_224,
{
    FixedHasher { inner: Box::new(<sha2::Sha224 as digest::Digest>::new()) }
}

/// `<sha2::Sha256 as digest::Digest>::new`, boxed: a hasher for SHA-256 that
/// has absorbed nothing.
#[verifier::external_body]
pub(crate) fn new_sha2_256() -> (h: FixedHasher)
    ensures
        fixed_input(h) == Seq::<u8>::empty(),
        fixed_algorithm(h) == AlgorithmId::Sha2_256,
{
    FixedHasher { inner: Box::new(<sha2::Sha256 as digest::Digest>::new()) }
}

/// `<sha2::Sha384 as digest::Digest>::new`, boxed: a hasher for SHA-384 that
/// has absorbed nothing.
#[verifier::external_body]
pub(crate) fn new_sha2_384() -> (h: FixedHasher)
    ensures
        fixed_input(h) == Seq::<u8>::empty(),
        fixed_algorithm(h) == AlgorithmId::Sha2_384,
{
    FixedHasher { inner: Box::new(<sha2::Sha384 as digest::Digest>::new()) }
}

/// `<sha2::Sha512 as digest::Digest>::new`, boxed: a hasher for SHA-512 that
/// has absorbed nothing.
#[verifier::external_body]
pub(crate) fn new_sha2_512() -> (h: FixedHasher)
    ensures
        fixed_input(h) == Seq::<u8>::empty(),
        fixed_algorithm(h) == AlgorithmId::Sha2_512,
{
    FixedHasher { inner: Box::new(<sha2::Sha512 as digest::Digest>::new()) }
}

/// `<sha2::Sha512_224 as digest::Digest>::new`, boxed: a hasher for
/// SHA-512/224 that has absorbed nothing.
#[verifier::external_body]
pub(crate) fn new_sha2_512_t224() -> (h: FixedHasher)
    ensures
        fixed_input(h) == Seq::<u8>::empty(),
        fixed_algorithm(h) == AlgorithmId::Sha2_512T224,
{
    FixedHasher { inner: Box::new(<sha2::Sha512_224 as digest::Digest>::new()) }
}

/// `<sha2::Sha512_256 as digest::Digest>::new`, boxed: a hasher for
/// SHA-512/256 that has absorbed nothing.
#[verifier::external_body]
pub(crate) fn new_sha2_512_t256() -> (h: FixedHasher)
    ensures
        fixed_input(h) == Seq::<u8>::empty(),
        fixed_algorithm(h) == AlgorithmId::Sha2_512T256,
{
    FixedHasher { inner: Box::new(<sha2::Sha512_256 as digest::Digest>::new()) }
}

/// `<blake2::Blake2b<digest::typenum::U32> as digest::Digest>::new`, boxed: a
/// hasher for BLAKE2b with a 32-byte digest that has absorbed nothing.
#[verifier::external_body]
pub(crate) fn new_blake2_256() -> (h: FixedHasher)
    ensures
        fixed_input(h) == Seq::<u8>::empty(),
        fixed_algorithm(h) == AlgorithmId::Blake2_256,
{
    let hasher = <blake2::Blake2b<digest::typenum::U32> as digest::Digest>::new();
    FixedHasher { inner: Box::new(hasher) }
}

/// `<blake2::Blake2b<digest::typenum::U48> as digest::Digest>::new`, boxed: a
/// hasher for BLAKE2b with a 48-byte digest that has absorbed nothing.
#[verifier::external_body]
pub(crate) fn new_blake2_384() -> (h: FixedHasher)
    ensures
        fixed_input(h) == Seq::<u8>::empty(),
        fixed_algorithm(h) == AlgorithmId::Blake2_384,
{
    let hasher = <blake2::Blake2b<digest::typenum::U48> as digest::Digest>::new();
    FixedHasher { inner: Box::new(hasher) }
}

/// `<blake2::Blake2b<digest::typenum::U64> as digest::Digest>::new`, boxed: a
/// hasher for BLAKE2b with a 64-byte digest that has absorbed nothing.
#[verifier::external_body]
pub(crate) fn new_blake2_512() -> (h: FixedHasher)
    ensures
        fixed_input(h) == Seq::<u8>::empty(),
        fixed_algorithm(h) == AlgorithmId::Blake2_512,
{
    let hasher = <blake2::Blake2b<digest::typenum::U64> as digest::Digest>::new();
    FixedHasher { inner: Box::new(hasher) }
}

/// `<whirlpool::Whirlpool as digest::Digest>::new`, boxed: a hasher for
/// Whirlpool that has absorbed nothing.
#[verifier::external_body]
pub(crate) fn new_whirlpool() -> (h: FixedHasher)
    ensures
        fixed_input(h) == Seq::<u8>::empty(),
        fixed_algorithm(h) == AlgorithmId::Whirlpool,
{
    FixedHasher { inner: Box::new(<whirlpool::Whirlpool as digest::Digest>::new()) }
}

/// `<sha1::Sha1 as digest::Digest>::new`, boxed: a hasher for SHA-1 that has
/// absorbed nothing.
#[verifier::external_body]
pub(crate) fn new_sha1() -> (h: FixedHasher)
    ensures
        fixed_input(h) == Seq::<u8>::empty(),
        fixed_algorithm(h) == AlgorithmId::Sha1,
{
    FixedHasher { inner: Box::new(<sha1::Sha1 as digest::Digest>::new()) }
}

/// `<ripemd::Ripemd320 as digest::Digest>::new`, boxed: a hasher for
/// RIPEMD-320 that has absorbed nothing.
#[verifier::external_body]
pub(crate) fn new_ripemd320() -> (h: FixedHasher)
    ensures
        fixed_input(h) == Seq::<u8>::empty(),
        fixed_algorithm(h) == AlgorithmId::Ripemd320,
{
    FixedHasher { inner: Box::new(<ripemd::Ripemd320 as digest::Digest>::new()) }
}

/// `<ripemd::Ripemd160 as digest::Digest>::new`, boxed: a hasher for
/// RIPEMD-160 that has absorbed nothing.
#[verifier::external_body]
pub(crate) fn new_ripemd160() -> (h: FixedHasher)
    ensures
        fixed_input(h) == Seq::<u8>::empty(),
        fixed_algorithm(h) == AlgorithmId::Ripemd160,
{
    FixedHasher { inner: Box::new(<ripemd::Ripemd160 as digest::Digest>::new()) }
}

/// `<ripemd::Ripemd128 as digest::Digest>::new`, boxed: a hasher for
/// RIPEMD-128 that has absorbed nothing.
#[verifier::external_body]
pub(crate) fn new_ripemd128() -> (h: FixedHasher)
    ensures
        fixed_input(h) == Seq::<u8>::empty(),
        fixed_algorithm(h) == AlgorithmId::Ripemd128,
{
    FixedHasher { inner: Box::new(<ripemd::Ripemd128 as digest::Digest>::new()) }
}

/// `<md5::Md5 as digest::Digest>::new`, boxed: a hasher for MD5 that has
/// absorbed nothing.
#[verifier::external_body]
pub(crate) fn new_md5() -> (h: FixedHasher)
    ensures
        fixed_input(h) == Seq::<u8>::empty(),
        fixed_algorithm(h) == AlgorithmId::Md5,
{
    FixedHasher { inner: Box::new(<md5::Md5 as digest::Digest>::new()) }
}

/// `digest::DynDigest::update`: the hasher absorbs `data` after what it has
/// absorbed before, and stays a hasher of the same algorithm.
#[verifier::external_body]
pub(crate) fn fixed_update(h: &mut FixedHasher, data: &[u8])
    ensures
        fixed_input(*final(h)) == fixed_input(*old(h)) + data@,
        fixed_algorithm(*final(h)) == fixed_algorithm(*old(h)),
    no_unwind
{
    h.inner.update(data);
}

/// `digest::DynDigest::finalize_reset`: returns the digest of what was
/// absorbed, which has the algorithm's output size, and leaves the hasher as
/// if newly made.
#[verifier::external_body]
pub(crate) fn fixed_finalize_reset(h: &mut FixedHasher) -> (out: Vec<u8>)
    ensures
        out@ == digest_value(fixed_algorithm(*old(h)), fixed_input(*old(h))),
        out@.len() == fixed_algorithm(*old(h)).output_len_spec(),
        fixed_input(*final(h)) == Seq::<u8>::empty(),
        fixed_algorithm(*final(h)) == fixed_algorithm(*old(h)),
    no_unwind
{
    h.inner.finalize_reset().into_vec()
}

/// `blake3::Hasher::new`: a hasher that has absorbed nothing.
#[verifier::external_body]
pub(crate) fn xof_new() -> (h: blake3::Hasher)
    ensures
        xof_input(h) == Seq::<u8>::empty(),
{
    blake3::Hasher::new()
}

/// `blake3::Hasher::update`: the hasher absorbs `data` after what it has
/// absorbed before.
#[verifier::external_body]
pub(crate) fn xof_update(h: &mut blake3::Hasher, data: &[u8])
    ensures
        xof_input(*final(h)) == xof_input(*old(h)) + data@,
    no_unwind
{
    h.update(data);
}

/// `blake3::Hasher::finalize_xof` followed by `blake3::OutputReader::fill` on
/// a fresh buffer of `len` bytes: the first `len` bytes of the extendable
/// output. The hasher itself is left as it was. No buffer is longer than
/// `isize::MAX` bytes.
#[verifier::external_body]
pub(crate) fn xof_finalize(h: &blake3::Hasher, len: usize) -> (out: Vec<u8>)
    requires
        len <= isize::MAX,
    ensures
        out@ == xof_output(xof_input(*h), len as nat),
        out@.len() == len,
    no_unwind
{
    let mut out = vec![0u8; len];
    h.finalize_xof().fill(&mut out);
    out
}

/// `blake3::Hasher::reset`: the hasher forgets what it has absorbed.
#[verifier::external_body]
pub(crate) fn xof_reset(h: &mut blake3::Hasher)
    ensures
        xof_input(*final(h)) == Seq::<u8>::empty(),
    no_unwind
{
    h.reset();
}

} // verus!
