//! The arguments of the random-data tool, from the words of the command line
//! to checked values.

use vstd::prelude::*;
use vstd::string::StringExecFns;
use crate::adapter::digest_spec;
use crate::algorithm::AlgorithmId;
use crate::codec::{count_failure, parse_count};
use crate::encoding::{parsed, unknown_encoding_message, Encoding};
use crate::numeral::numeral_value;
use crate::stream::{digests_spec, hash_bytes, results_view};
use crate::text::copied;

verus! {

/// One checked argument.
#[derive(Debug)]
pub enum CommandLineArgs {
    /// How many random bytes to make; never zero.
    Bytes(usize),
    /// The encoding in which to show them.
    Encoding(Encoding),
    /// The thirty-two bytes that seed the generator.
    Seed(Vec<u8>),
}

/// The mathematical content of a [`CommandLineArgs`].
pub enum Argument {
    Bytes(nat),
    Encoding(Encoding),
    Seed(Seq<u8>),
}

impl View for CommandLineArgs {
    type V = Argument;

    open spec fn view(&self) -> Argument {
        match self {
            CommandLineArgs::Bytes(n) => Argument::Bytes(*n as nat),
            CommandLineArgs::Encoding(kind) => Argument::Encoding(*kind),
            CommandLineArgs::Seed(seed) => Argument::Seed(seed@),
        }
    }
}

/// The part of a count that holds the digits: the text without one leading
/// plus sign.
pub open spec fn count_digits(text: Seq<char>) -> Seq<char> {
    if text.len() > 0 && text[0] == '+' {
        text.drop_first()
    } else {
        text
    }
}

/// Whether `text` is a count that fits the machine: an optional plus sign,
/// then at least one decimal digit and nothing else, spelling a number that
/// `usize` can hold.
pub open spec fn is_count(text: Seq<char>) -> bool {
    let digits = count_digits(text);
    &&& digits.len() > 0
    &&& forall|i: int| 0 <= i < digits.len() ==> 48 <= (#[trigger] digits[i]) as u32 <= 57
    &&& numeral_value(digits, 10) <= usize::MAX
}

/// The number that a count spells.
pub open spec fn count_value(text: Seq<char>) -> nat {
    numeral_value(count_digits(text), 10)
}

/// The message for a count of zero.
pub open spec fn zero_count_message() -> Seq<char> {
    "Expected argument 'bytes=#' and # must be greater than 0"@
}

/// The key under which the count is filed.
pub open spec fn bytes_key() -> Seq<char> {
    "bytes"@
}

/// The key under which the encoding is filed.
pub open spec fn encoding_key() -> Seq<char> {
    "encoding"@
}

/// The key under which the seed is filed.
pub open spec fn seed_key() -> Seq<char> {
    "seed"@
}

/// The checked arguments, each under its key and the keys in ascending
/// order: the count, which must be a number above zero; the encoding, which
/// must exist; and, where seed material was given, its SHA-256 digest as
/// the seed.
pub open spec fn arguments(bytes: Seq<char>, encoding: Seq<char>, seed: Option<Seq<u8>>) -> Result<
    Seq<(Seq<char>, Argument)>,
    Seq<char>,
> {
    if !is_count(bytes) {
        Err(count_failure(bytes))
    } else if count_value(bytes) == 0 {
        Err(zero_count_message())
    } else {
        match parsed(encoding) {
            None => Err(unknown_encoding_message(encoding)),
            Some(kind) => {
                let fixed = seq![
                    (bytes_key(), Argument::Bytes(count_value(bytes))),
                    (encoding_key(), Argument::Encoding(kind)),
                ];
                match seed {
                    None => Ok(fixed),
                    Some(material) => Ok(
                        fixed.push(
                            (
                                seed_key(),
                                Argument::Seed(digest_spec(AlgorithmId::Sha2_256, material)),
                            ),
                        ),
                    ),
                }
            },
        }
    }
}

/// The views of a list of filed arguments, in the same order.
pub open spec fn arguments_view(args: Seq<(&'static str, CommandLineArgs)>) -> Seq<
    (Seq<char>, Argument),
> {
    Seq::new(args.len(), |i: int| (args[i].0@, args[i].1@))
}

/// The view of optional seed material.
pub open spec fn material_view(seed: Option<&[u8]>) -> Option<Seq<u8>> {
    match seed {
        Some(material) => Some(material@),
        None => None,
    }
}

/// Checks the words of the command line and files each argument under its
/// key.
pub fn check_arguments(bytes: &str, encoding: &str, seed: Option<&[u8]>) -> (r: Result<
    Vec<(&'static str, CommandLineArgs)>,
    String,
>)
    ensures
        match r {
            Ok(args) => arguments(bytes@, encoding@, material_view(seed)) == Ok::<
                Seq<(Seq<char>, Argument)>,
                Seq<char>,
            >(arguments_view(args@)),
            Err(message) => arguments(bytes@, encoding@, material_view(seed)) == Err::<
                Seq<(Seq<char>, Argument)>,
                Seq<char>,
            >(message@),
        },
{
    let count = match parse_count(bytes) {
        Ok(count) => count,
        Err(reason) => {
            return Err(reason);
        },
    };
    if count == 0 {
        return Err(
            String::from_str("Expected argument 'bytes=#' and # must be greater than 0"),
        );
    }
    let kind = match Encoding::parse(encoding) {
        Ok(kind) => kind,
        Err(message) => {
            return Err(message);
        },
    };
    let mut args: Vec<(&'static str, CommandLineArgs)> = Vec::new();
    args.push(("bytes", CommandLineArgs::Bytes(count)));
    args.push(("encoding", CommandLineArgs::Encoding(kind)));
    match seed {
        None => {
            assert(arguments_view(args@) =~= seq![
                (bytes_key(), Argument::Bytes(count as nat)),
                (encoding_key(), Argument::Encoding(kind)),
            ]);
        },
        Some(material) => {
            let algorithms = vec![AlgorithmId::Sha2_256];
            let digests = hash_bytes(material, algorithms.as_slice());
            assert(results_view(digests@).len() == digests@.len());
            assert(digests_spec(algorithms@, material@).len() == 1);
            assert(results_view(digests@)[0] == digests@[0]@);
            let digest = copied(digests[0].bytes.as_slice());
            args.push(("seed", CommandLineArgs::Seed(digest)));
            assert(arguments_view(args@) =~= seq![
                (bytes_key(), Argument::Bytes(count as nat)),
                (encoding_key(), Argument::Encoding(kind)),
            ].push((seed_key(), Argument::Seed(digest_spec(AlgorithmId::Sha2_256, material@)))));
        },
    }
    Ok(args)
}

} // verus!
