//! The supported hash algorithms: their names and digest lengths.

use vstd::prelude::*;
use vstd::string::StringExecFns;
use crate::text::str_eq;

verus! {

/// One supported hash function at one fixed output width.
#[derive(Clone, Copy, PartialEq, Eq, Structural, Debug, Hash)]
pub enum AlgorithmId {
    Sha3_224,
    Sha3_256,
    Sha3_384,
    Sha3_512,
    Sha2_224,
    Sha2_256,
    Sha2_384,
    Sha2_512,
    Sha2_512T224,
    Sha2_512T256,
    Blake2_256,
    Blake2_384,
    Blake2_512,
    Blake3_256,
    Blake3_384,
    Blake3_512,
    Whirlpool,
    Sha1,
    Ripemd320,
    Ripemd160,
    Ripemd128,
    Md5,
}

/// How much confidence an algorithm still deserves; callers use it to pick a
/// highlight when they show an algorithm's name.
#[derive(Clone, Copy, PartialEq, Eq, Structural, Debug)]
pub enum Standing {
    /// Collisions are practical: MD5.
    Broken,
    /// Legacy designs that should be avoided: SHA-1 and the RIPEMD family.
    Legacy,
    /// Everything else.
    Current,
}

impl AlgorithmId {
    /// The canonical name, as a sequence of characters.
    pub open spec fn name_spec(self) -> Seq<char> {
        match self {
            AlgorithmId::Sha3_224 => "sha3-224"@,
            AlgorithmId::Sha3_256 => "sha3-256"@,
            AlgorithmId::Sha3_384 => "sha3-384"@,
            AlgorithmId::Sha3_512 => "sha3-512"@,
            AlgorithmId::Sha2_224 => "sha2-224"@,
            AlgorithmId::Sha2_256 => "sha2-256"@,
            AlgorithmId::Sha2_384 => "sha2-384"@,
            AlgorithmId::Sha2_512 => "sha2-512"@,
            AlgorithmId::Sha2_512T224 => "sha2-512-t224"@,
            AlgorithmId::Sha2_512T256 => "sha2-512-t256"@,
            AlgorithmId::Blake2_256 => "blake2-256"@,
            AlgorithmId::Blake2_384 => "blake2-384"@,
            AlgorithmId::Blake2_512 => "blake2-512"@,
            AlgorithmId::Blake3_256 => "blake3-256"@,
            AlgorithmId::Blake3_384 => "blake3-384"@,
            AlgorithmId::Blake3_512 => "blake3-512"@,
            AlgorithmId::Whirlpool => "whirlpool"@,
            AlgorithmId::Sha1 => "sha1"@,
            AlgorithmId::Ripemd320 => "ripemd320"@,
            AlgorithmId::Ripemd160 => "ripemd160"@,
            AlgorithmId::Ripemd128 => "ripemd128"@,
            AlgorithmId::Md5 => "md5"@,
        }
    }

    /// The digest length in bytes.
    pub open spec fn output_len_spec(self) -> nat {
        match self {
            AlgorithmId::Md5 | AlgorithmId::Ripemd128 => 16,
            AlgorithmId::Sha1 | AlgorithmId::Ripemd160 => 20,
            AlgorithmId::Sha2_224 | AlgorithmId::Sha2_512T224 | AlgorithmId::Sha3_224 => 28,
            AlgorithmId::Sha2_256
            | AlgorithmId::Sha2_512T256
            | AlgorithmId::Blake2_256
            | AlgorithmId::Sha3_256
            | AlgorithmId::Blake3_256 => 32,
            AlgorithmId::Ripemd320 => 40,
            AlgorithmId::Sha2_384
            | AlgorithmId::Sha3_384
            | AlgorithmId::Blake2_384
            | AlgorithmId::Blake3_384 => 48,
            AlgorithmId::Sha2_512
            | AlgorithmId::Sha3_512
            | AlgorithmId::Blake2_512
            | AlgorithmId::Blake3_512
            | AlgorithmId::Whirlpool => 64,
        }
    }

    /// Whether the algorithm is built on the BLAKE3 extendable output.
    pub open spec fn is_extendable_spec(self) -> bool {
        self == AlgorithmId::Blake3_256 || self == AlgorithmId::Blake3_384 || self
            == AlgorithmId::Blake3_512
    }

    /// The standing of the algorithm.
    pub open spec fn standing_spec(self) -> Standing {
        match self {
            AlgorithmId::Md5 => Standing::Broken,
            AlgorithmId::Sha1
            | AlgorithmId::Ripemd320
            | AlgorithmId::Ripemd160
            | AlgorithmId::Ripemd128 => Standing::Legacy,
            _ => Standing::Current,
        }
    }

    /// The canonical name.
    pub fn name(&self) -> (r: &'static str)
        ensures
            r@ == self.name_spec(),
    {
        match self {
            AlgorithmId::Sha3_224 => "sha3-224",
            AlgorithmId::Sha3_256 => "sha3-256",
            AlgorithmId::Sha3_384 => "sha3-384",
            AlgorithmId::Sha3_512 => "sha3-512",
            AlgorithmId::Sha2_224 => "sha2-224",
            AlgorithmId::Sha2_256 => "sha2-256",
            AlgorithmId::Sha2_384 => "sha2-384",
            AlgorithmId::Sha2_512 => "sha2-512",
            AlgorithmId::Sha2_512T224 => "sha2-512-t224",
            AlgorithmId::Sha2_512T256 => "sha2-512-t256",
            AlgorithmId::Blake2_256 => "blake2-256",
            AlgorithmId::Blake2_384 => "blake2-384",
            AlgorithmId::Blake2_512 => "blake2-512",
            AlgorithmId::Blake3_256 => "blake3-256",
            AlgorithmId::Blake3_384 => "blake3-384",
            AlgorithmId::Blake3_512 => "blake3-512",
            AlgorithmId::Whirlpool => "whirlpool",
            AlgorithmId::Sha1 => "sha1",
            AlgorithmId::Ripemd320 => "ripemd320",
            AlgorithmId::Ripemd160 => "ripemd160",
            AlgorithmId::Ripemd128 => "ripemd128",
            AlgorithmId::Md5 => "md5",
        }
    }

    /// The digest length in bytes.
    pub fn output_len(&self) -> (r: usize)
        ensures
            r == self.output_len_spec(),
    {
        match self {
            AlgorithmId::Md5 | AlgorithmId::Ripemd128 => 16,
            AlgorithmId::Sha1 | AlgorithmId::Ripemd160 => 20,
            AlgorithmId::Sha2_224 | AlgorithmId::Sha2_512T224 | AlgorithmId::Sha3_224 => 28,
            AlgorithmId::Sha2_256
            | AlgorithmId::Sha2_512T256
            | AlgorithmId::Blake2_256
            | AlgorithmId::Sha3_256
            | AlgorithmId::Blake3_256 => 32,
            AlgorithmId::Ripemd320 => 40,
            AlgorithmId::Sha2_384
            | AlgorithmId::Sha3_384
            | AlgorithmId::Blake2_384
            | AlgorithmId::Blake3_384 => 48,
            AlgorithmId::Sha2_512
            | AlgorithmId::Sha3_512
            | AlgorithmId::Blake2_512
            | AlgorithmId::Blake3_512
            | AlgorithmId::Whirlpool => 64,
        }
    }

    /// The standing of the algorithm.
    pub fn standing(&self) -> (r: Standing)
        ensures
            r == self.standing_spec(),
    {
        match self {
            AlgorithmId::Md5 => Standing::Broken,
            AlgorithmId::Sha1
            | AlgorithmId::Ripemd320
            | AlgorithmId::Ripemd160
            | AlgorithmId::Ripemd128 => Standing::Legacy,
            _ => Standing::Current,
        }
    }

    /// Every algorithm, in the order in which the user interface lists them.
    pub open spec fn all_spec() -> Seq<AlgorithmId> {
        seq![
            AlgorithmId::Sha3_224,
            AlgorithmId::Sha3_256,
            AlgorithmId::Sha3_384,
            AlgorithmId::Sha3_512,
            AlgorithmId::Sha2_224,
            AlgorithmId::Sha2_256,
            AlgorithmId::Sha2_384,
            AlgorithmId::Sha2_512,
            AlgorithmId::Sha2_512T224,
            AlgorithmId::Sha2_512T256,
            AlgorithmId::Blake2_256,
            AlgorithmId::Blake2_384,
            AlgorithmId::Blake2_512,
            AlgorithmId::Blake3_256,
            AlgorithmId::Blake3_384,
            AlgorithmId::Blake3_512,
            AlgorithmId::Whirlpool,
            AlgorithmId::Sha1,
            AlgorithmId::Ripemd320,
            AlgorithmId::Ripemd160,
            AlgorithmId::Ripemd128,
            AlgorithmId::Md5,
        ]
    }

    /// Every algorithm, in the order in which the user interface lists them.
    pub fn all() -> (r: Vec<AlgorithmId>)
        ensures
            r@ == Self::all_spec(),
            forall|a: AlgorithmId| r@.contains(a),
    {
        let r = vec![
            AlgorithmId::Sha3_224,
            AlgorithmId::Sha3_256,
            AlgorithmId::Sha3_384,
            AlgorithmId::Sha3_512,
            AlgorithmId::Sha2_224,
            AlgorithmId::Sha2_256,
            AlgorithmId::Sha2_384,
            AlgorithmId::Sha2_512,
            AlgorithmId::Sha2_512T224,
            AlgorithmId::Sha2_512T256,
            AlgorithmId::Blake2_256,
            AlgorithmId::Blake2_384,
            AlgorithmId::Blake2_512,
            AlgorithmId::Blake3_256,
            AlgorithmId::Blake3_384,
            AlgorithmId::Blake3_512,
            AlgorithmId::Whirlpool,
            AlgorithmId::Sha1,
            AlgorithmId::Ripemd320,
            AlgorithmId::Ripemd160,
            AlgorithmId::Ripemd128,
            AlgorithmId::Md5,
        ];
        proof {
            assert(r@ =~= Self::all_spec());
            lemma_all_is_complete();
        }
        r
    }

    /// The algorithm that carries the name `name`, if there is one.
    pub fn from_name(name: &str) -> (r: Option<AlgorithmId>)
        ensures
            r == named(name@),
            match r {
                Some(a) => a.name_spec() == name@,
                None => forall|a: AlgorithmId| (#[trigger] a.name_spec()) != name@,
            },
    {
        let all = Self::all();
        let mut i: usize = 0;
        while i < all.len()
            invariant
                i <= all@.len(),
                all@ == Self::all_spec(),
                forall|a: AlgorithmId| all@.contains(a),
                forall|j: int| 0 <= j < i ==> (#[trigger] all@[j]).name_spec() != name@,
            decreases all@.len() - i,
        {
            let a = all[i];
            if str_eq(a.name(), name) {
                proof {
                    lemma_named(a, name@);
                }
                return Some(a);
            }
            i += 1;
        }
        assert forall|a: AlgorithmId| (#[trigger] a.name_spec()) != name@ by {
            assert(all@.contains(a));
            let j = choose|j: int| 0 <= j < all@.len() && all@[j] == a;
            assert(all@[j].name_spec() != name@);
        }
        None
    }
}

/// Every algorithm occurs in the list of all algorithms.
pub proof fn lemma_all_is_complete()
    ensures
        forall|a: AlgorithmId| AlgorithmId::all_spec().contains(a),
{
    let s = AlgorithmId::all_spec();
    assert forall|a: AlgorithmId| s.contains(a) by {
        let k: int = match a {
            AlgorithmId::Sha3_224 => 0,
            AlgorithmId::Sha3_256 => 1,
            AlgorithmId::Sha3_384 => 2,
            AlgorithmId::Sha3_512 => 3,
            AlgorithmId::Sha2_224 => 4,
            AlgorithmId::Sha2_256 => 5,
            AlgorithmId::Sha2_384 => 6,
            AlgorithmId::Sha2_512 => 7,
            AlgorithmId::Sha2_512T224 => 8,
            AlgorithmId::Sha2_512T256 => 9,
            AlgorithmId::Blake2_256 => 10,
            AlgorithmId::Blake2_384 => 11,
            AlgorithmId::Blake2_512 => 12,
            AlgorithmId::Blake3_256 => 13,
            AlgorithmId::Blake3_384 => 14,
            AlgorithmId::Blake3_512 => 15,
            AlgorithmId::Whirlpool => 16,
            AlgorithmId::Sha1 => 17,
            AlgorithmId::Ripemd320 => 18,
            AlgorithmId::Ripemd160 => 19,
            AlgorithmId::Ripemd128 => 20,
            AlgorithmId::Md5 => 21,
        };
        assert(s[k] == a);
    }
}

/// A few characters of a name that are enough to tell the names apart.
spec fn name_marks(name: Seq<char>) -> (nat, char, char, char, char) {
    (name.len(), name[3], name[5], name[name.len() - 2], name[name.len() - 3])
}

/// No two algorithms share a name.
pub proof fn lemma_names_distinct(a: AlgorithmId, b: AlgorithmId)
    ensures
        a.name_spec() == b.name_spec() <==> a == b,
{
    reveal_strlit("sha3-224");
    reveal_strlit("sha3-256");
    reveal_strlit("sha3-384");
    reveal_strlit("sha3-512");
    reveal_strlit("sha2-224");
    reveal_strlit("sha2-256");
    reveal_strlit("sha2-384");
    reveal_strlit("sha2-512");
    reveal_strlit("sha2-512-t224");
    reveal_strlit("sha2-512-t256");
    reveal_strlit("blake2-256");
    reveal_strlit("blake2-384");
    reveal_strlit("blake2-512");
    reveal_strlit("blake3-256");
    reveal_strlit("blake3-384");
    reveal_strlit("blake3-512");
    reveal_strlit("whirlpool");
    reveal_strlit("sha1");
    reveal_strlit("ripemd320");
    reveal_strlit("ripemd160");
    reveal_strlit("ripemd128");
    reveal_strlit("md5");
    if a != b {
        assert(name_marks(a.name_spec()) != name_marks(b.name_spec()));
    }
}

/// The algorithm that carries the name `name`, if there is one.
pub open spec fn named(name: Seq<char>) -> Option<AlgorithmId> {
    if exists|a: AlgorithmId| a.name_spec() == name {
        Some(choose|a: AlgorithmId| a.name_spec() == name)
    } else {
        None
    }
}

/// The algorithm found under its own name is that algorithm, and a name
/// that finds an algorithm is that algorithm's name.
pub proof fn lemma_named(a: AlgorithmId, name: Seq<char>)
    ensures
        named(a.name_spec()) == Some(a),
        named(name) == Some(a) <==> a.name_spec() == name,
{
    assert(a.name_spec().len() >= 0);
    let b = choose|b: AlgorithmId| b.name_spec() == a.name_spec();
    lemma_names_distinct(a, b);
    if a.name_spec() == name {
    }
    if named(name) == Some(a) {
    }
}

/// The message for a requested name that no algorithm carries.
pub open spec fn unrecognized_message(name: Seq<char>) -> Seq<char> {
    "Unrecognized checksum \""@ + name + "]\""@
}

/// The characters of each of a list of strings.
pub open spec fn names_view(names: Seq<&str>) -> Seq<Seq<char>> {
    Seq::new(names.len(), |i: int| names[i]@)
}

/// Whether `k` is the place of the first name that no algorithm carries.
pub open spec fn is_first_unknown(names: Seq<Seq<char>>, k: int) -> bool {
    &&& 0 <= k < names.len()
    &&& named(names[k]) is None
    &&& forall|i: int| 0 <= i < k ==> named(#[trigger] names[i]) is Some
}

/// The algorithms that a list of names asks for, in order; or, where some
/// name is carried by no algorithm, the message for the first such name.
pub open spec fn algorithms_named(names: Seq<Seq<char>>) -> Result<Seq<AlgorithmId>, Seq<char>> {
    if forall|i: int| 0 <= i < names.len() ==> named(#[trigger] names[i]) is Some {
        Ok(Seq::new(names.len(), |i: int| named(names[i]).unwrap()))
    } else {
        Err(unrecognized_message(names[choose|k: int| is_first_unknown(names, k)]))
    }
}

/// Whether an executable result is the one that the model `expected` names.
pub open spec fn algorithms_result_is(
    r: Result<Vec<AlgorithmId>, String>,
    expected: Result<Seq<AlgorithmId>, Seq<char>>,
) -> bool {
    match r {
        Ok(ids) => expected == Ok::<Seq<AlgorithmId>, Seq<char>>(ids@),
        Err(message) => expected == Err::<Seq<AlgorithmId>, Seq<char>>(message@),
    }
}

/// Resolves requested names to algorithms, in order. The first name that no
/// algorithm carries is reported and nothing else is returned.
pub fn parse_names(names: &[&str]) -> (r: Result<Vec<AlgorithmId>, String>)
    ensures
        algorithms_result_is(r, algorithms_named(names_view(names@))),
{
    let ghost all = names_view(names@);
    let mut ids: Vec<AlgorithmId> = Vec::with_capacity(names.len());
    let mut i: usize = 0;
    while i < names.len()
        invariant
            i <= names@.len(),
            all == names_view(names@),
            ids@.len() == i,
            forall|j: int| 0 <= j < i ==> named(#[trigger] all[j]) == Some(ids@[j]),
        decreases names@.len() - i,
    {
        assert(all[i as int] == names@[i as int]@);
        match AlgorithmId::from_name(names[i]) {
            Some(a) => {
                ids.push(a);
            },
            None => {
                let message = String::from_str("Unrecognized checksum \"").concat(names[i]).concat(
                    "]\"",
                );
                proof {
                    assert(is_first_unknown(all, i as int));
                    let k = choose|k: int| is_first_unknown(all, k);
                    assert(k == i) by {
                        if k < i {
                            assert(named(all[k]) is Some);
                        }
                        if k > i {
                            assert(named(all[i as int]) is Some);
                        }
                    }
                }
                return Err(message);
            },
        }
        i += 1;
    }
    assert(ids@ =~= Seq::new(all.len(), |i: int| named(all[i]).unwrap()));
    Ok(ids)
}

} // verus!
