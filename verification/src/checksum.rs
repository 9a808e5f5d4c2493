//! From a checksum as it was handed over to the byte sequences that it may
//! stand for, and from their lengths to the algorithms that may have made it.

use vstd::prelude::*;
use vstd::string::StringExecFns;
use vstd::utf8::*;
use crate::algorithm::{
    algorithms_named, algorithms_result_is, names_view, parse_names, AlgorithmId,
};
use crate::codec::utf8_text;
use crate::encoding::{decoded, Encoding};
use crate::text::copied;

verus! {

/// One reading of a checksum: the bytes that its text stands for under one
/// encoding.
#[derive(Debug)]
pub struct EncodedChecksum {
    pub encoding: Encoding,
    pub bytes: Vec<u8>,
}

impl View for EncodedChecksum {
    type V = (Encoding, Seq<u8>);

    open spec fn view(&self) -> (Encoding, Seq<u8>) {
        (self.encoding, self.bytes@)
    }
}

/// The views of a list of readings, in the same order.
pub open spec fn candidates_view(candidates: Seq<EncodedChecksum>) -> Seq<(Encoding, Seq<u8>)> {
    Seq::new(candidates.len(), |i: int| candidates[i]@)
}

/// The readings of `text` under those of `kinds` that accept it, in the
/// order of `kinds`.
pub open spec fn readings(text: Seq<char>, kinds: Seq<Encoding>) -> Seq<(Encoding, Seq<u8>)>
    decreases kinds.len(),
{
    if kinds.len() == 0 {
        Seq::empty()
    } else {
        let earlier = readings(text, kinds.drop_last());
        match decoded(text, kinds.last()) {
            Ok(bytes) => earlier.push((kinds.last(), bytes)),
            Err(_) => earlier,
        }
    }
}

/// The candidates for a checksum with the text `text` and the raw bytes
/// `raw`.
///
/// A pinned encoding gives one candidate or the reason why the text is not of
/// that encoding; a pinned blob takes the raw bytes as they are. With no
/// encoding pinned, every encoding that accepts the text gives a candidate,
/// and the raw bytes stand in as a blob if none does.
pub open spec fn resolved(text: Seq<char>, raw: Seq<u8>, pinned: Option<Encoding>) -> Result<
    Seq<(Encoding, Seq<u8>)>,
    Seq<char>,
> {
    match pinned {
        Some(kind) => if kind == Encoding::Blob {
            Ok(seq![(Encoding::Blob, raw)])
        } else {
            match decoded(text, kind) {
                Ok(bytes) => Ok(seq![(kind, bytes)]),
                Err(reason) => Err(reason),
            }
        },
        None => {
            let found = readings(text, Encoding::values_spec());
            if found.len() == 0 {
                Ok(seq![(Encoding::Blob, raw)])
            } else {
                Ok(found)
            }
        },
    }
}

/// Whether an executable result is the one that the model `expected` names.
pub open spec fn candidates_result_is(
    r: Result<Vec<EncodedChecksum>, String>,
    expected: Result<Seq<(Encoding, Seq<u8>)>, Seq<char>>,
) -> bool {
    match r {
        Ok(candidates) => expected == Ok::<Seq<(Encoding, Seq<u8>)>, Seq<char>>(
            candidates_view(candidates@),
        ),
        Err(reason) => expected == Err::<Seq<(Encoding, Seq<u8>)>, Seq<char>>(reason@),
    }
}

/// Resolves a checksum, given as text and as raw bytes, to its candidates.
pub fn resolve_candidates(text: &str, raw: &[u8], pinned: Option<Encoding>) -> (r: Result<
    Vec<EncodedChecksum>,
    String,
>)
    ensures
        candidates_result_is(r, resolved(text@, raw@, pinned)),
{
    match pinned {
        Some(kind) => {
            if kind == Encoding::Blob {
                let only = vec![EncodedChecksum { encoding: Encoding::Blob, bytes: copied(raw) }];
                assert(candidates_view(only@) =~= seq![(Encoding::Blob, raw@)]);
                Ok(only)
            } else {
                match Encoding::decode(text, kind) {
                    Ok(bytes) => {
                        let only = vec![EncodedChecksum { encoding: kind, bytes }];
                        assert(candidates_view(only@) =~= seq![(kind, bytes@)]);
                        Ok(only)
                    },
                    Err(reason) => Err(reason),
                }
            }
        },
        None => {
            let kinds = Encoding::values();
            let mut found: Vec<EncodedChecksum> = Vec::new();
            let mut i: usize = 0;
            assert(kinds@.subrange(0, 0) =~= Seq::<Encoding>::empty());
            assert(candidates_view(found@) =~= Seq::empty());
            while i < kinds.len()
                invariant
                    i <= kinds@.len(),
                    candidates_view(found@) == readings(text@, kinds@.subrange(0, i as int)),
                decreases kinds@.len() - i,
            {
                let kind = kinds[i];
                let ghost before = found@;
                proof {
                    assert(kinds@.subrange(0, i + 1).drop_last() =~= kinds@.subrange(0, i as int));
                    assert(kinds@.subrange(0, i + 1).last() == kind);
                }
                match Encoding::decode(text, kind) {
                    Ok(bytes) => {
                        found.push(EncodedChecksum { encoding: kind, bytes });
                        assert(candidates_view(found@) =~= candidates_view(before).push(
                            (kind, bytes@),
                        ));
                    },
                    Err(_) => {},
                }
                i += 1;
            }
            assert(kinds@.subrange(0, kinds@.len() as int) =~= kinds@);
            if found.len() == 0 {
                let only = vec![EncodedChecksum { encoding: Encoding::Blob, bytes: copied(raw) }];
                assert(candidates_view(only@) =~= seq![(Encoding::Blob, raw@)]);
                Ok(only)
            } else {
                Ok(found)
            }
        },
    }
}

/// The message for a checksum whose bytes are not text.
pub open spec fn unreadable_message() -> Seq<char> {
    "Checksum cannot be read properly"@
}

/// The candidates for a checksum given as raw bytes: the bytes must be
/// UTF-8, and the text they encode is resolved as [`resolved`] says.
pub open spec fn resolved_from_bytes(raw: Seq<u8>, pinned: Option<Encoding>) -> Result<
    Seq<(Encoding, Seq<u8>)>,
    Seq<char>,
> {
    if valid_utf8(raw) {
        resolved(decode_utf8(raw), raw, pinned)
    } else {
        Err(unreadable_message())
    }
}

/// Resolves a checksum, given as the bytes of a file or of an argument, to
/// its candidates.
pub fn resolve_checksum(raw: &[u8], pinned: Option<Encoding>) -> (r: Result<
    Vec<EncodedChecksum>,
    String,
>)
    ensures
        candidates_result_is(r, resolved_from_bytes(raw@, pinned)),
{
    match utf8_text(raw) {
        Some(text) => resolve_candidates(text.as_str(), raw, pinned),
        None => Err(String::from_str("Checksum cannot be read properly")),
    }
}

/// The algorithms whose digests are `len` bytes long, the preferred ones
/// first.
pub open spec fn algorithms_of_length(len: nat) -> Seq<AlgorithmId> {
    if len == 16 {
        seq![AlgorithmId::Ripemd128, AlgorithmId::Md5]
    } else if len == 20 {
        seq![AlgorithmId::Sha1, AlgorithmId::Ripemd160]
    } else if len == 28 {
        seq![AlgorithmId::Sha2_224, AlgorithmId::Sha2_512T224, AlgorithmId::Sha3_224]
    } else if len == 32 {
        seq![
            AlgorithmId::Sha2_256,
            AlgorithmId::Sha2_512T256,
            AlgorithmId::Blake2_256,
            AlgorithmId::Sha3_256,
            AlgorithmId::Blake3_256,
        ]
    } else if len == 40 {
        seq![AlgorithmId::Ripemd320]
    } else if len == 48 {
        seq![
            AlgorithmId::Sha2_384,
            AlgorithmId::Sha3_384,
            AlgorithmId::Blake2_384,
            AlgorithmId::Blake3_384,
        ]
    } else if len == 64 {
        seq![
            AlgorithmId::Sha2_512,
            AlgorithmId::Sha3_512,
            AlgorithmId::Blake2_512,
            AlgorithmId::Blake3_512,
            AlgorithmId::Whirlpool,
        ]
    } else {
        Seq::empty()
    }
}

/// Inference by length is exact: an algorithm is among those listed for a
/// length exactly when its digests have that length, and none is listed
/// twice.
pub proof fn lemma_algorithms_of_length_exact(len: nat)
    ensures
        forall|a: AlgorithmId| #[trigger]
            algorithms_of_length(len).contains(a) <==> a.output_len_spec() == len,
        algorithms_of_length(len).no_duplicates(),
{
    let s = algorithms_of_length(len);
    assert forall|a: AlgorithmId| #[trigger] s.contains(a) <==> a.output_len_spec() == len by {
        if a.output_len_spec() == len {
            let k: int = match a {
                AlgorithmId::Ripemd128
                | AlgorithmId::Sha1
                | AlgorithmId::Sha2_224
                | AlgorithmId::Sha2_256
                | AlgorithmId::Ripemd320
                | AlgorithmId::Sha2_384
                | AlgorithmId::Sha2_512 => 0,
                AlgorithmId::Md5
                | AlgorithmId::Ripemd160
                | AlgorithmId::Sha2_512T224
                | AlgorithmId::Sha2_512T256
                | AlgorithmId::Sha3_384
                | AlgorithmId::Sha3_512 => 1,
                AlgorithmId::Sha3_224
                | AlgorithmId::Blake2_256
                | AlgorithmId::Blake2_384
                | AlgorithmId::Blake2_512 => 2,
                AlgorithmId::Sha3_256 | AlgorithmId::Blake3_384 | AlgorithmId::Blake3_512 => 3,
                AlgorithmId::Blake3_256 | AlgorithmId::Whirlpool => 4,
            };
            assert(s[k] == a);
        }
        if s.contains(a) {
            let j = choose|j: int| 0 <= j < s.len() && s[j] == a;
            assert(s[j].output_len_spec() == len);
        }
    }
}

/// The algorithms whose digests are `len` bytes long, the preferred ones
/// first. A length that no algorithm has gives none.
pub fn infer_for_length(len: usize) -> (r: Vec<AlgorithmId>)
    ensures
        r@ == algorithms_of_length(len as nat),
        forall|a: AlgorithmId| #[trigger] r@.contains(a) <==> a.output_len_spec() == len,
        r@.no_duplicates(),
{
    let r = if len == 16 {
        vec![AlgorithmId::Ripemd128, AlgorithmId::Md5]
    } else if len == 20 {
        vec![AlgorithmId::Sha1, AlgorithmId::Ripemd160]
    } else if len == 28 {
        vec![AlgorithmId::Sha2_224, AlgorithmId::Sha2_512T224, AlgorithmId::Sha3_224]
    } else if len == 32 {
        vec![
            AlgorithmId::Sha2_256,
            AlgorithmId::Sha2_512T256,
            AlgorithmId::Blake2_256,
            AlgorithmId::Sha3_256,
            AlgorithmId::Blake3_256,
        ]
    } else if len == 40 {
        vec![AlgorithmId::Ripemd320]
    } else if len == 48 {
        vec![
            AlgorithmId::Sha2_384,
            AlgorithmId::Sha3_384,
            AlgorithmId::Blake2_384,
            AlgorithmId::Blake3_384,
        ]
    } else if len == 64 {
        vec![
            AlgorithmId::Sha2_512,
            AlgorithmId::Sha3_512,
            AlgorithmId::Blake2_512,
            AlgorithmId::Blake3_512,
            AlgorithmId::Whirlpool,
        ]
    } else {
        Vec::new()
    };
    proof {
        assert(r@ =~= algorithms_of_length(len as nat));
        lemma_algorithms_of_length_exact(len as nat);
    }
    r
}

/// The lengths of the candidates' bytes, in order.
pub open spec fn candidate_lengths(candidates: Seq<(Encoding, Seq<u8>)>) -> Seq<nat> {
    Seq::new(candidates.len(), |i: int| candidates[i].1.len())
}

/// The algorithms inferred from a list of lengths: for each length that has
/// not occurred earlier in the list, the algorithms of that length.
pub open spec fn inferred(lengths: Seq<nat>) -> Seq<AlgorithmId>
    decreases lengths.len(),
{
    if lengths.len() == 0 {
        Seq::empty()
    } else {
        let earlier = lengths.drop_last();
        if earlier.contains(lengths.last()) {
            inferred(earlier)
        } else {
            inferred(earlier) + algorithms_of_length(lengths.last())
        }
    }
}

/// What is inferred from several lengths is the union of what each length
/// alone gives: an algorithm is inferred exactly when its digest length is
/// among the lengths, and none is inferred twice.
pub proof fn lemma_inferred_is_union(lengths: Seq<nat>)
    ensures
        forall|a: AlgorithmId| #[trigger]
            inferred(lengths).contains(a) <==> lengths.contains(a.output_len_spec()),
        inferred(lengths).no_duplicates(),
    decreases lengths.len(),
{
    if lengths.len() > 0 {
        let earlier = lengths.drop_last();
        let last = lengths.last();
        lemma_inferred_is_union(earlier);
        lemma_algorithms_of_length_exact(last);
        let before = inferred(earlier);
        let added = algorithms_of_length(last);
        assert forall|a: AlgorithmId| #[trigger]
            inferred(lengths).contains(a) <==> lengths.contains(a.output_len_spec()) by {
            let n = a.output_len_spec();
            if lengths.contains(n) {
                let j = choose|j: int| 0 <= j < lengths.len() && lengths[j] == n;
                if j < earlier.len() {
                    assert(earlier[j] == n);
                    assert(earlier.contains(n));
                    assert(before.contains(a));
                    if !earlier.contains(last) {
                        let k = choose|k: int| 0 <= k < before.len() && before[k] == a;
                        assert((before + added)[k] == a);
                    }
                } else {
                    assert(n == last);
                    if earlier.contains(last) {
                        assert(before.contains(a));
                    } else {
                        assert(added.contains(a));
                        let k = choose|k: int| 0 <= k < added.len() && added[k] == a;
                        assert((before + added)[before.len() + k] == a);
                    }
                }
            }
            if inferred(lengths).contains(a) {
                if earlier.contains(last) {
                    assert(before.contains(a));
                    assert(earlier.contains(n));
                    let j = choose|j: int| 0 <= j < earlier.len() && earlier[j] == n;
                    assert(lengths[j] == n);
                } else {
                    let k = choose|k: int| 0 <= k < (before + added).len() && (before + added)[k]
                        == a;
                    if k < before.len() {
                        assert(before[k] == a);
                        assert(before.contains(a));
                        let j = choose|j: int| 0 <= j < earlier.len() && earlier[j] == n;
                        assert(lengths[j] == n);
                    } else {
                        assert(added[k - before.len()] == a);
                        assert(added.contains(a));
                        assert(lengths[lengths.len() - 1] == n);
                    }
                }
            }
        }
        if !earlier.contains(last) {
            let all = before + added;
            assert forall|i: int, j: int|
                0 <= i < all.len() && 0 <= j < all.len() && i != j implies all[i] != all[j] by {
                if i < before.len() && j < before.len() {
                } else if i >= before.len() && j >= before.len() {
                    assert(added[i - before.len()] != added[j - before.len()]);
                } else {
                    let (x, y) = if i < before.len() {
                        (i, j)
                    } else {
                        (j, i)
                    };
                    assert(before.contains(before[x]));
                    assert(earlier.contains(before[x].output_len_spec()));
                    assert(added.contains(added[y - before.len()]));
                    assert(added[y - before.len()].output_len_spec() == last);
                }
            }
        }
    }
}

/// The algorithms that may have made one of the candidates, judged by the
/// candidates' lengths alone. Each distinct length is looked up once, in the
/// order in which the lengths first occur.
pub fn infer_algorithms(candidates: &[EncodedChecksum]) -> (r: Vec<AlgorithmId>)
    ensures
        r@ == inferred(candidate_lengths(candidates_view(candidates@))),
        forall|a: AlgorithmId| #[trigger]
            r@.contains(a) <==> exists|i: int|
                0 <= i < candidates@.len() && (#[trigger] candidates@[i]).bytes@.len()
                    == a.output_len_spec(),
        r@.no_duplicates(),
{
    let ghost lengths = candidate_lengths(candidates_view(candidates@));
    let mut r: Vec<AlgorithmId> = Vec::new();
    let mut i: usize = 0;
    assert(lengths.subrange(0, 0) =~= Seq::<nat>::empty());
    while i < candidates.len()
        invariant
            i <= candidates@.len(),
            lengths == candidate_lengths(candidates_view(candidates@)),
            r@ == inferred(lengths.subrange(0, i as int)),
        decreases candidates@.len() - i,
    {
        let len: usize = candidates[i].bytes.len();
        let mut seen: bool = false;
        let mut j: usize = 0;
        while j < i
            invariant
                j <= i,
                i < candidates@.len(),
                len == candidates@[i as int].bytes@.len(),
                lengths == candidate_lengths(candidates_view(candidates@)),
                seen <==> lengths.subrange(0, j as int).contains(len as nat),
            decreases i - j,
        {
            proof {
                let shorter = lengths.subrange(0, j as int);
                let longer = lengths.subrange(0, j + 1);
                assert(longer =~= shorter.push(lengths[j as int]));
                assert(longer.contains(len as nat) <==> shorter.contains(len as nat)
                    || lengths[j as int] == len) by {
                    if shorter.contains(len as nat) {
                        let k = choose|k: int| 0 <= k < shorter.len() && shorter[k] == len;
                        assert(longer[k] == len);
                    }
                    if lengths[j as int] == len {
                        assert(longer[j as int] == len);
                    }
                    if longer.contains(len as nat) {
                        let k = choose|k: int| 0 <= k < longer.len() && longer[k] == len;
                        if k < j {
                            assert(shorter[k] == len);
                        }
                    }
                }
            }
            if candidates[j].bytes.len() == len {
                seen = true;
            }
            j += 1;
        }
        proof {
            assert(lengths.subrange(0, i + 1).drop_last() =~= lengths.subrange(0, i as int));
            assert(lengths.subrange(0, i + 1).last() == len);
        }
        if !seen {
            let mut more = infer_for_length(len);
            let ghost before = r@;
            r.append(&mut more);
            assert(r@ =~= before + algorithms_of_length(len as nat));
        }
        i += 1;
    }
    proof {
        assert(lengths.subrange(0, lengths.len() as int) =~= lengths);
        lemma_inferred_is_union(lengths);
        assert forall|a: AlgorithmId| #[trigger]
            r@.contains(a) <==> exists|i: int|
                0 <= i < candidates@.len() && (#[trigger] candidates@[i]).bytes@.len()
                    == a.output_len_spec() by {
            let n = a.output_len_spec();
            if lengths.contains(n) {
                let k = choose|k: int| 0 <= k < lengths.len() && lengths[k] == n;
                assert(candidates@[k].bytes@.len() == n);
            }
            if exists|i: int|
                0 <= i < candidates@.len() && (#[trigger] candidates@[i]).bytes@.len() == n {
                let k = choose|i: int|
                    0 <= i < candidates@.len() && (#[trigger] candidates@[i]).bytes@.len() == n;
                assert(lengths[k] == n);
            }
        }
    }
    r
}

/// The message for a checksum whose length fits no algorithm.
pub open spec fn unknown_length_message() -> Seq<char> {
    "Unknown checksum length"@
}

/// The algorithms of a verification run: those requested by name, or, where
/// none is requested, those inferred from the candidates' lengths. Nothing
/// to try is an error.
pub open spec fn selected(requested: Seq<Seq<char>>, candidates: Seq<(Encoding, Seq<u8>)>)
    -> Result<Seq<AlgorithmId>, Seq<char>> {
    if requested.len() > 0 {
        algorithms_named(requested)
    } else if inferred(candidate_lengths(candidates)).len() == 0 {
        Err(unknown_length_message())
    } else {
        Ok(inferred(candidate_lengths(candidates)))
    }
}

/// The algorithms of a verification run: those requested by name, or, where
/// none is requested, those inferred from the candidates' lengths.
pub fn select_algorithms(requested: &[&str], candidates: &[EncodedChecksum]) -> (r: Result<
    Vec<AlgorithmId>,
    String,
>)
    ensures
        algorithms_result_is(
            r,
            selected(names_view(requested@), candidates_view(candidates@)),
        ),
{
    if requested.len() > 0 {
        parse_names(requested)
    } else {
        let ids = infer_algorithms(candidates);
        if ids.len() == 0 {
            Err(String::from_str("Unknown checksum length"))
        } else {
            Ok(ids)
        }
    }
}

/// Where the first of `kinds` accepts `text`, its reading comes first.
pub proof fn lemma_first_reading(text: Seq<char>, kinds: Seq<Encoding>)
    requires
        kinds.len() > 0,
        decoded(text, kinds[0]) is Ok,
    ensures
        readings(text, kinds).len() > 0,
        readings(text, kinds)[0] == (kinds[0], decoded(text, kinds[0])->Ok_0),
    decreases kinds.len(),
{
    let earlier = kinds.drop_last();
    if kinds.len() == 1 {
        assert(earlier =~= Seq::<Encoding>::empty());
        assert(readings(text, earlier) =~= Seq::empty());
    } else {
        assert(earlier[0] == kinds[0]);
        lemma_first_reading(text, earlier);
    }
}

/// With no encoding pinned a checksum always has candidates, and the first
/// of them is the text itself, as a blob: the raw bytes never have to stand
/// in.
pub proof fn lemma_unpinned_starts_with_blob(text: Seq<char>, raw: Seq<u8>)
    ensures
        resolved(text, raw, None) matches Ok(candidates) && candidates.len() > 0 && candidates[0]
            == (Encoding::Blob, encode_utf8(text)),
{
    lemma_first_reading(text, Encoding::values_spec());
}

} // verus!
