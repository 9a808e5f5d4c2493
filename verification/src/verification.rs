//! A verification run from end to end: what is tried, and the verdicts.

use vstd::prelude::*;
use vstd::utf8::*;
use crate::adapter::digest_spec;
use crate::algorithm::{algorithms_named, lemma_named, named, names_view, AlgorithmId};
use crate::encoding::lemma_parsed_names;
use crate::matcher::{
    cell, lemma_order_names, lemma_ranked_passes_first, row, trial_of, with_verdict, Verdict,
};
use crate::numeral::{hex_text, lemma_hex_round_trip};
use crate::checksum::{
    candidates_view, resolve_candidates, resolved, select_algorithms, selected,
    unreadable_message, EncodedChecksum,
};
use crate::codec::utf8_text;
use crate::encoding::{parsed, unknown_encoding_message, Encoding};
use crate::matcher::{
    match_checksums, order_named, orders_in_scope, orders_in_scope_spec, ranked, table,
    trials_view, unrecognized_order_message, ByteOrder, Trial, VerificationTrial,
};
use crate::stream::{digests_spec, hash_bytes, results_view, DigestResult};
use vstd::string::StringExecFns;

verus! {

/// What a verification run tries: the readings of the checksum, the
/// algorithms to compute and the byte orders to compare in.
#[derive(Debug)]
pub struct VerificationPlan {
    pub candidates: Vec<EncodedChecksum>,
    pub algorithms: Vec<AlgorithmId>,
    pub orders: Vec<ByteOrder>,
}

/// The mathematical content of a [`VerificationPlan`].
pub struct Plan {
    pub candidates: Seq<(Encoding, Seq<u8>)>,
    pub algorithms: Seq<AlgorithmId>,
    pub orders: Seq<ByteOrder>,
}

impl View for VerificationPlan {
    type V = Plan;

    open spec fn view(&self) -> Plan {
        Plan {
            candidates: candidates_view(self.candidates@),
            algorithms: self.algorithms@,
            orders: self.orders@,
        }
    }
}

/// The encoding that the caller pinned, if any; or the message for a name
/// that no encoding carries.
pub open spec fn pinned_encoding(name: Option<Seq<char>>) -> Result<Option<Encoding>, Seq<char>> {
    match name {
        None => Ok(None),
        Some(n) => match parsed(n) {
            Some(kind) => Ok(Some(kind)),
            None => Err(unknown_encoding_message(n)),
        },
    }
}

/// The byte order that the caller pinned, if any; or the message for a name
/// that is no byte order.
pub open spec fn pinned_order(name: Option<Seq<char>>) -> Result<Option<ByteOrder>, Seq<char>> {
    match name {
        None => Ok(None),
        Some(n) => match order_named(n) {
            Some(order) => Ok(Some(order)),
            None => Err(unrecognized_order_message(n)),
        },
    }
}

/// The view of an optional string.
pub open spec fn name_view(name: Option<&str>) -> Option<Seq<char>> {
    match name {
        Some(n) => Some(n@),
        None => None,
    }
}

/// What a run tries, or the message for the first thing that stops it. The
/// checksum must be text; a pinned encoding must exist and accept it; the
/// algorithms are those named or, with none named, those inferred, and there
/// must be one at least; a pinned byte order must exist.
pub open spec fn planned(
    checksum: Seq<u8>,
    types: Seq<Seq<char>>,
    encoding: Option<Seq<char>>,
    order: Option<Seq<char>>,
) -> Result<Plan, Seq<char>> {
    if !valid_utf8(checksum) {
        Err(unreadable_message())
    } else {
        match pinned_encoding(encoding) {
            Err(message) => Err(message),
            Ok(kind) => match resolved(decode_utf8(checksum), checksum, kind) {
                Err(message) => Err(message),
                Ok(candidates) => match selected(types, candidates) {
                    Err(message) => Err(message),
                    Ok(algorithms) => match pinned_order(order) {
                        Err(message) => Err(message),
                        Ok(byte_order) => Ok(
                            Plan {
                                candidates,
                                algorithms,
                                orders: orders_in_scope_spec(byte_order),
                            },
                        ),
                    },
                },
            },
        }
    }
}

/// Whether an executable result is the one that the model `expected` names.
pub open spec fn plan_result_is(r: Result<VerificationPlan, String>, expected: Result<
    Plan,
    Seq<char>,
>) -> bool {
    match r {
        Ok(plan) => expected == Ok::<Plan, Seq<char>>(plan@),
        Err(message) => expected == Err::<Plan, Seq<char>>(message@),
    }
}

/// Decides what a run tries, from the checksum as raw bytes and from what
/// the caller named or pinned. No algorithm name means that the algorithms
/// are inferred.
pub fn plan_verification(
    checksum: &[u8],
    types: &[&str],
    encoding: Option<&str>,
    order: Option<&str>,
) -> (r: Result<VerificationPlan, String>)
    ensures
        plan_result_is(
            r,
            planned(checksum@, names_view(types@), name_view(encoding), name_view(order)),
        ),
{
    let text = match utf8_text(checksum) {
        Some(text) => text,
        None => {
            return Err(String::from_str("Checksum cannot be read properly"));
        },
    };
    let kind = match encoding {
        None => None,
        Some(name) => match Encoding::parse(name) {
            Ok(kind) => Some(kind),
            Err(message) => {
                return Err(message);
            },
        },
    };
    let candidates = match resolve_candidates(text.as_str(), checksum, kind) {
        Ok(candidates) => candidates,
        Err(message) => {
            return Err(message);
        },
    };
    let algorithms = match select_algorithms(types, candidates.as_slice()) {
        Ok(algorithms) => algorithms,
        Err(message) => {
            return Err(message);
        },
    };
    let byte_order = match order {
        None => None,
        Some(name) => match ByteOrder::parse(name) {
            Ok(byte_order) => Some(byte_order),
            Err(message) => {
                return Err(message);
            },
        },
    };
    let orders = orders_in_scope(byte_order);
    Ok(VerificationPlan { candidates, algorithms, orders })
}

/// The verdicts of a plan over `input`, in the order of presentation.
pub open spec fn verdicts(plan: Plan, input: Seq<u8>) -> Seq<Trial> {
    ranked(table(digests_spec(plan.algorithms, input), plan.candidates, plan.orders))
}

/// Compares the digests of a run with the plan's candidates. The digests
/// are those of the plan's algorithms over the input, in the plan's order.
pub fn judge(plan: &VerificationPlan, digests: &[DigestResult]) -> (trials: Vec<VerificationTrial>)
    ensures
        trials_view(trials@) == ranked(
            table(results_view(digests@), plan@.candidates, plan@.orders),
        ),
{
    match_checksums(digests, plan.candidates.as_slice(), plan.orders.as_slice())
}

/// What verifying `input` against a checksum gives: the verdicts in the
/// order of presentation, or the message for what stopped the run.
pub open spec fn verified(
    input: Seq<u8>,
    checksum: Seq<u8>,
    types: Seq<Seq<char>>,
    encoding: Option<Seq<char>>,
    order: Option<Seq<char>>,
) -> Result<Seq<Trial>, Seq<char>> {
    match planned(checksum, types, encoding, order) {
        Err(message) => Err(message),
        Ok(plan) => Ok(verdicts(plan, input)),
    }
}

/// Whether an executable result is the one that the model `expected` names.
pub open spec fn trials_result_is(
    r: Result<Vec<VerificationTrial>, String>,
    expected: Result<Seq<Trial>, Seq<char>>,
) -> bool {
    match r {
        Ok(trials) => expected == Ok::<Seq<Trial>, Seq<char>>(trials_view(trials@)),
        Err(message) => expected == Err::<Seq<Trial>, Seq<char>>(message@),
    }
}

/// Verifies `input` against a checksum given as raw bytes.
pub fn verify(
    input: &[u8],
    checksum: &[u8],
    types: &[&str],
    encoding: Option<&str>,
    order: Option<&str>,
) -> (r: Result<Vec<VerificationTrial>, String>)
    ensures
        trials_result_is(
            r,
            verified(
                input@,
                checksum@,
                names_view(types@),
                name_view(encoding),
                name_view(order),
            ),
        ),
{
    match plan_verification(checksum, types, encoding, order) {
        Err(message) => Err(message),
        Ok(plan) => {
            let digests = hash_bytes(input, plan.algorithms.as_slice());
            Ok(judge(&plan, digests.as_slice()))
        },
    }
}

/// A pass is shown first: where some combination of a computed digest, a
/// candidate and a byte order in scope agrees, the first verdict is a pass.
pub proof fn lemma_a_pass_comes_first(plan: Plan, input: Seq<u8>)
    requires
        exists|k: int|
            0 <= k < table(digests_spec(plan.algorithms, input), plan.candidates, plan.orders).len()
                && (#[trigger] table(
                digests_spec(plan.algorithms, input),
                plan.candidates,
                plan.orders,
            )[k]).verdict == Verdict::Pass,
    ensures
        verdicts(plan, input).len() > 0,
        verdicts(plan, input)[0].verdict == Verdict::Pass,
{
    lemma_ranked_passes_first(
        table(digests_spec(plan.algorithms, input), plan.candidates, plan.orders),
    );
}

/// A digest written in lower-case hexadecimal verifies: checked against the
/// input it was computed from, with the algorithm named, the encoding pinned
/// to `hex` and the byte order pinned to `big`, it gives one verdict, and
/// that verdict is a pass.
pub proof fn lemma_hexadecimal_digest_verifies(algorithm: AlgorithmId, input: Seq<u8>)
    ensures
        verified(
            input,
            encode_utf8(hex_text(digest_spec(algorithm, input), false)),
            seq![algorithm.name_spec()],
            Some("hex"@),
            Some("big"@),
        ) == Ok::<Seq<Trial>, Seq<char>>(
            seq![
                trial_of(
                    (algorithm, digest_spec(algorithm, input)),
                    (Encoding::LowHex, digest_spec(algorithm, input)),
                    ByteOrder::BigEndian,
                ),
            ],
        ),
        trial_of(
            (algorithm, digest_spec(algorithm, input)),
            (Encoding::LowHex, digest_spec(algorithm, input)),
            ByteOrder::BigEndian,
        ).verdict == Verdict::Pass,
{
    let digest = digest_spec(algorithm, input);
    let text = hex_text(digest, false);
    let checksum = encode_utf8(text);
    let types = seq![algorithm.name_spec()];
    encode_utf8_valid_utf8(text);
    encode_utf8_decode_utf8(text);
    lemma_parsed_names();
    lemma_order_names();
    lemma_hex_round_trip(digest, false);
    lemma_named(algorithm, algorithm.name_spec());
    assert(pinned_encoding(Some("hex"@)) == Ok::<Option<Encoding>, Seq<char>>(
        Some(Encoding::LowHex),
    ));
    assert(pinned_order(Some("big"@)) == Ok::<Option<ByteOrder>, Seq<char>>(
        Some(ByteOrder::BigEndian),
    ));
    let candidates = seq![(Encoding::LowHex, digest)];
    assert(resolved(text, checksum, Some(Encoding::LowHex)) == Ok::<
        Seq<(Encoding, Seq<u8>)>,
        Seq<char>,
    >(candidates));
    assert(named(types[0]) == Some(algorithm));
    assert(Seq::new(types.len(), |i: int| named(types[i]).unwrap()) =~= seq![algorithm]);
    assert(algorithms_named(types) == Ok::<Seq<AlgorithmId>, Seq<char>>(seq![algorithm]));
    let orders = seq![ByteOrder::BigEndian];
    assert(orders_in_scope_spec(Some(ByteOrder::BigEndian)) =~= orders);
    let plan = Plan { candidates, algorithms: seq![algorithm], orders };
    assert(planned(checksum, types, Some("hex"@), Some("big"@)) == Ok::<Plan, Seq<char>>(plan));
    let digests = digests_spec(plan.algorithms, input);
    assert(digests =~= seq![(algorithm, digest)]);
    let only = trial_of((algorithm, digest), (Encoding::LowHex, digest), ByteOrder::BigEndian);
    assert(cell(digests[0], candidates[0], orders) =~= seq![only]);
    assert(candidates.drop_last() =~= Seq::<(Encoding, Seq<u8>)>::empty());
    assert(row(digests[0], candidates.drop_last(), orders) =~= Seq::<Trial>::empty());
    assert(candidates.last() == candidates[0]);
    assert(row(digests[0], candidates, orders) =~= seq![only]);
    assert(digests.drop_last() =~= Seq::<(AlgorithmId, Seq<u8>)>::empty());
    assert(table(digests.drop_last(), candidates, orders) =~= Seq::<Trial>::empty());
    assert(digests.last() == digests[0]);
    assert(table(digests, candidates, orders) =~= seq![only]);
    let made = table(digests, candidates, orders);
    assert(made.drop_last() =~= Seq::<Trial>::empty());
    assert(made.last() == only);
    assert(only.verdict == Verdict::Pass);
    assert(with_verdict(made.drop_last(), Verdict::Pass) =~= Seq::<Trial>::empty());
    assert(with_verdict(made.drop_last(), Verdict::Fail) =~= Seq::<Trial>::empty());
    assert(with_verdict(made, Verdict::Pass) =~= seq![only]);
    assert(with_verdict(made, Verdict::Fail) =~= Seq::<Trial>::empty());
    assert(ranked(made) =~= seq![only]);
}

} // verus!
