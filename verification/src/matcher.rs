//! Every computed digest against every reading of the checksum, in every
//! byte order in scope, and the order in which the verdicts are shown.

use vstd::prelude::*;
use vstd::seq_lib::{lemma_multiset_commutative, to_multiset_build};
use vstd::string::StringExecFns;
use crate::algorithm::{names_view, AlgorithmId};
use crate::checksum::{candidates_view, EncodedChecksum};
use crate::encoding::Encoding;
use crate::stream::{results_view, DigestResult};
use crate::text::{bytes_eq, copied, reversed, str_eq};

verus! {

/// The order in which the bytes of a digest are shown or compared.
#[derive(Debug, Copy, Clone, Eq, PartialEq, Structural, Hash)]
pub enum ByteOrder {
    /// The digest as the algorithm gives it.
    BigEndian,
    /// The digest with its bytes in the opposite order.
    LittleEndian,
}

/// Whether a digest and a checksum agree.
#[derive(Debug, Copy, Clone, Eq, PartialEq, Structural, Hash)]
pub enum Verdict {
    Pass,
    Fail,
}

/// One comparison of a digest with a reading of the checksum.
#[derive(Debug)]
pub struct VerificationTrial {
    pub algorithm: AlgorithmId,
    pub byte_order: ByteOrder,
    pub encoding: Encoding,
    /// The bytes that the checksum stands for under `encoding`.
    pub checksum: Vec<u8>,
    /// The digest as computed, before the byte order is applied.
    pub digest: Vec<u8>,
    pub verdict: Verdict,
}

/// The mathematical content of a [`VerificationTrial`].
pub struct Trial {
    pub algorithm: AlgorithmId,
    pub byte_order: ByteOrder,
    pub encoding: Encoding,
    pub checksum: Seq<u8>,
    pub digest: Seq<u8>,
    pub verdict: Verdict,
}

impl View for VerificationTrial {
    type V = Trial;

    open spec fn view(&self) -> Trial {
        Trial {
            algorithm: self.algorithm,
            byte_order: self.byte_order,
            encoding: self.encoding,
            checksum: self.checksum@,
            digest: self.digest@,
            verdict: self.verdict,
        }
    }
}

/// The views of a list of trials, in the same order.
pub open spec fn trials_view(trials: Seq<VerificationTrial>) -> Seq<Trial> {
    Seq::new(trials.len(), |i: int| trials[i]@)
}

/// The bytes of `digest` in the order `order`.
pub open spec fn in_order(digest: Seq<u8>, order: ByteOrder) -> Seq<u8> {
    match order {
        ByteOrder::BigEndian => digest,
        ByteOrder::LittleEndian => digest.reverse(),
    }
}

/// Pass exactly when the digest, in the given order, and the checksum are
/// the same bytes: as many, and each the same.
pub open spec fn verdict_of(digest: Seq<u8>, checksum: Seq<u8>, order: ByteOrder) -> Verdict {
    if in_order(digest, order) == checksum {
        Verdict::Pass
    } else {
        Verdict::Fail
    }
}

/// The trial of one digest against one candidate in one byte order.
pub open spec fn trial_of(
    digest: (AlgorithmId, Seq<u8>),
    candidate: (Encoding, Seq<u8>),
    order: ByteOrder,
) -> Trial {
    Trial {
        algorithm: digest.0,
        byte_order: order,
        encoding: candidate.0,
        checksum: candidate.1,
        digest: digest.1,
        verdict: verdict_of(digest.1, candidate.1, order),
    }
}

/// The trials of one digest against one candidate, one per byte order.
pub open spec fn cell(
    digest: (AlgorithmId, Seq<u8>),
    candidate: (Encoding, Seq<u8>),
    orders: Seq<ByteOrder>,
) -> Seq<Trial> {
    Seq::new(orders.len(), |k: int| trial_of(digest, candidate, orders[k]))
}

/// The trials of one digest against every candidate in turn.
pub open spec fn row(
    digest: (AlgorithmId, Seq<u8>),
    candidates: Seq<(Encoding, Seq<u8>)>,
    orders: Seq<ByteOrder>,
) -> Seq<Trial>
    decreases candidates.len(),
{
    if candidates.len() == 0 {
        Seq::empty()
    } else {
        row(digest, candidates.drop_last(), orders) + cell(digest, candidates.last(), orders)
    }
}

/// Every combination of a digest, a candidate and a byte order: the digests
/// in turn, for each digest the candidates in turn, for each candidate the
/// byte orders in turn.
pub open spec fn table(
    digests: Seq<(AlgorithmId, Seq<u8>)>,
    candidates: Seq<(Encoding, Seq<u8>)>,
    orders: Seq<ByteOrder>,
) -> Seq<Trial>
    decreases digests.len(),
{
    if digests.len() == 0 {
        Seq::empty()
    } else {
        table(digests.drop_last(), candidates, orders) + row(digests.last(), candidates, orders)
    }
}

/// The trials with the verdict `verdict`, in the order in which they stand.
pub open spec fn with_verdict(trials: Seq<Trial>, verdict: Verdict) -> Seq<Trial>
    decreases trials.len(),
{
    if trials.len() == 0 {
        Seq::empty()
    } else {
        let earlier = with_verdict(trials.drop_last(), verdict);
        if trials.last().verdict == verdict {
            earlier.push(trials.last())
        } else {
            earlier
        }
    }
}

/// The order of presentation: every pass before every fail, and within each
/// group the order in which the trials were made.
pub open spec fn ranked(trials: Seq<Trial>) -> Seq<Trial> {
    with_verdict(trials, Verdict::Pass) + with_verdict(trials, Verdict::Fail)
}

/// The byte orders in scope: the pinned one, or both, big-endian first.
pub open spec fn orders_in_scope_spec(pinned: Option<ByteOrder>) -> Seq<ByteOrder> {
    match pinned {
        Some(order) => seq![order],
        None => seq![ByteOrder::BigEndian, ByteOrder::LittleEndian],
    }
}

/// The byte order that `name` asks for: `big` or `little`.
pub open spec fn order_named(name: Seq<char>) -> Option<ByteOrder> {
    if name == "big"@ {
        Some(ByteOrder::BigEndian)
    } else if name == "little"@ {
        Some(ByteOrder::LittleEndian)
    } else {
        None
    }
}

/// What the two words for a byte order name.
pub proof fn lemma_order_names()
    ensures
        order_named("big"@) == Some(ByteOrder::BigEndian),
        order_named("little"@) == Some(ByteOrder::LittleEndian),
        forall|order: ByteOrder| order_named(#[trigger] order.short_name_spec()) == Some(order),
{
    reveal_strlit("big");
    reveal_strlit("little");
    assert("big"@.len() == 3 && "little"@.len() == 6);
}

/// The message for a name that is no byte order.
pub open spec fn unrecognized_order_message(name: Seq<char>) -> Seq<char> {
    "Unrecognized byteorder - \""@ + name + "\""@
}

/// Whether `k` is the place of the first name that is no byte order.
pub open spec fn is_first_unknown_order(names: Seq<Seq<char>>, k: int) -> bool {
    &&& 0 <= k < names.len()
    &&& order_named(names[k]) is None
    &&& forall|i: int| 0 <= i < k ==> order_named(#[trigger] names[i]) is Some
}

/// The byte orders that a list of names asks for, in order; or, where some
/// name is no byte order, the message for the first such name.
pub open spec fn orders_named(names: Seq<Seq<char>>) -> Result<Seq<ByteOrder>, Seq<char>> {
    if forall|i: int| 0 <= i < names.len() ==> order_named(#[trigger] names[i]) is Some {
        Ok(Seq::new(names.len(), |i: int| order_named(names[i]).unwrap()))
    } else {
        Err(unrecognized_order_message(names[choose|k: int| is_first_unknown_order(names, k)]))
    }
}

/// Whether an executable result is the one that the model `expected` names.
pub open spec fn orders_result_is(
    r: Result<Vec<ByteOrder>, String>,
    expected: Result<Seq<ByteOrder>, Seq<char>>,
) -> bool {
    match r {
        Ok(orders) => expected == Ok::<Seq<ByteOrder>, Seq<char>>(orders@),
        Err(message) => expected == Err::<Seq<ByteOrder>, Seq<char>>(message@),
    }
}

impl ByteOrder {
    /// The byte order that `name` asks for, or a message that repeats
    /// `name`.
    pub fn parse(name: &str) -> (r: Result<ByteOrder, String>)
        ensures
            match r {
                Ok(order) => order_named(name@) == Some(order),
                Err(message) => order_named(name@) is None && message@
                    == unrecognized_order_message(name@),
            },
    {
        if str_eq(name, "big") {
            Ok(ByteOrder::BigEndian)
        } else if str_eq(name, "little") {
            Ok(ByteOrder::LittleEndian)
        } else {
            Err(String::from_str("Unrecognized byteorder - \"").concat(name).concat("\""))
        }
    }

    /// The word by which a byte order is asked for.
    pub open spec fn short_name_spec(self) -> Seq<char> {
        match self {
            ByteOrder::BigEndian => "big"@,
            ByteOrder::LittleEndian => "little"@,
        }
    }

    /// The word by which a byte order is asked for.
    pub fn short_name(&self) -> (r: &'static str)
        ensures
            r@ == self.short_name_spec(),
    {
        match self {
            ByteOrder::BigEndian => "big",
            ByteOrder::LittleEndian => "little",
        }
    }

    /// The name under which a byte order is shown.
    pub open spec fn name_spec(self) -> Seq<char> {
        match self {
            ByteOrder::BigEndian => "big-endian"@,
            ByteOrder::LittleEndian => "little-endian"@,
        }
    }

    /// The name under which a byte order is shown.
    pub fn name(&self) -> (r: &'static str)
        ensures
            r@ == self.name_spec(),
    {
        match self {
            ByteOrder::BigEndian => "big-endian",
            ByteOrder::LittleEndian => "little-endian",
        }
    }

    /// The bytes of `digest` in this order.
    pub fn apply(&self, digest: &[u8]) -> (r: Vec<u8>)
        ensures
            r@ == in_order(digest@, *self),
    {
        match self {
            ByteOrder::BigEndian => copied(digest),
            ByteOrder::LittleEndian => reversed(digest),
        }
    }
}

/// Resolves requested names to byte orders, in order. The first name that
/// is no byte order is reported and nothing else is returned.
pub fn parse_orders(names: &[&str]) -> (r: Result<Vec<ByteOrder>, String>)
    ensures
        orders_result_is(r, orders_named(names_view(names@))),
{
    let ghost all = names_view(names@);
    let mut orders: Vec<ByteOrder> = Vec::with_capacity(names.len());
    let mut i: usize = 0;
    while i < names.len()
        invariant
            i <= names@.len(),
            all == names_view(names@),
            orders@.len() == i,
            forall|j: int| 0 <= j < i ==> order_named(#[trigger] all[j]) == Some(orders@[j]),
        decreases names@.len() - i,
    {
        assert(all[i as int] == names@[i as int]@);
        match ByteOrder::parse(names[i]) {
            Ok(order) => {
                orders.push(order);
            },
            Err(message) => {
                proof {
                    assert(is_first_unknown_order(all, i as int));
                    let k = choose|k: int| is_first_unknown_order(all, k);
                    assert(k == i) by {
                        if k < i {
                            assert(order_named(all[k]) is Some);
                        }
                        if k > i {
                            assert(order_named(all[i as int]) is Some);
                        }
                    }
                }
                return Err(message);
            },
        }
        i += 1;
    }
    assert(orders@ =~= Seq::new(all.len(), |i: int| order_named(all[i]).unwrap()));
    Ok(orders)
}

/// The byte orders in scope: the pinned one, or both, big-endian first.
pub fn orders_in_scope(pinned: Option<ByteOrder>) -> (r: Vec<ByteOrder>)
    ensures
        r@ == orders_in_scope_spec(pinned),
{
    let r = match pinned {
        Some(order) => vec![order],
        None => vec![ByteOrder::BigEndian, ByteOrder::LittleEndian],
    };
    assert(r@ =~= orders_in_scope_spec(pinned));
    r
}

impl VerificationTrial {
    /// Compares one digest with one candidate in one byte order.
    pub fn new(digest: &DigestResult, candidate: &EncodedChecksum, order: ByteOrder) -> (t:
        VerificationTrial)
        ensures
            t@ == trial_of(digest@, candidate@, order),
    {
        let shown = order.apply(digest.bytes.as_slice());
        let verdict = if bytes_eq(shown.as_slice(), candidate.bytes.as_slice()) {
            Verdict::Pass
        } else {
            Verdict::Fail
        };
        VerificationTrial {
            algorithm: digest.algorithm,
            byte_order: order,
            encoding: candidate.encoding,
            checksum: copied(candidate.bytes.as_slice()),
            digest: copied(digest.bytes.as_slice()),
            verdict,
        }
    }

    /// A copy of the trial.
    pub fn duplicate(&self) -> (t: VerificationTrial)
        ensures
            t@ == self@,
    {
        VerificationTrial {
            algorithm: self.algorithm,
            byte_order: self.byte_order,
            encoding: self.encoding,
            checksum: copied(self.checksum.as_slice()),
            digest: copied(self.digest.as_slice()),
            verdict: self.verdict,
        }
    }
}

/// Adds the trials of one digest against one candidate.
fn append_cell(
    out: &mut Vec<VerificationTrial>,
    digest: &DigestResult,
    candidate: &EncodedChecksum,
    orders: &[ByteOrder],
)
    ensures
        trials_view(final(out)@) == trials_view(old(out)@) + cell(digest@, candidate@, orders@),
{
    let ghost start = trials_view(out@);
    let ghost whole = cell(digest@, candidate@, orders@);
    let mut k: usize = 0;
    assert(trials_view(out@) =~= start + whole.subrange(0, 0));
    while k < orders.len()
        invariant
            k <= orders@.len(),
            whole == cell(digest@, candidate@, orders@),
            trials_view(out@) == start + whole.subrange(0, k as int),
        decreases orders@.len() - k,
    {
        let ghost before = out@;
        let trial = VerificationTrial::new(digest, candidate, orders[k]);
        out.push(trial);
        assert(trials_view(out@) =~= trials_view(before).push(trial@));
        assert(whole.subrange(0, k + 1) =~= whole.subrange(0, k as int).push(whole[k as int]));
        assert(trials_view(out@) =~= start + whole.subrange(0, k + 1));
        k += 1;
    }
    assert(whole.subrange(0, orders@.len() as int) =~= whole);
}

/// Adds the trials of one digest against every candidate.
fn append_row(
    out: &mut Vec<VerificationTrial>,
    digest: &DigestResult,
    candidates: &[EncodedChecksum],
    orders: &[ByteOrder],
)
    ensures
        trials_view(final(out)@) == trials_view(old(out)@) + row(
            digest@,
            candidates_view(candidates@),
            orders@,
        ),
{
    let ghost start = trials_view(out@);
    let ghost all = candidates_view(candidates@);
    let mut j: usize = 0;
    assert(all.subrange(0, 0) =~= Seq::<(Encoding, Seq<u8>)>::empty());
    assert(trials_view(out@) =~= start + row(digest@, all.subrange(0, 0), orders@));
    while j < candidates.len()
        invariant
            j <= candidates@.len(),
            all == candidates_view(candidates@),
            trials_view(out@) == start + row(digest@, all.subrange(0, j as int), orders@),
        decreases candidates@.len() - j,
    {
        let ghost before = trials_view(out@);
        append_cell(out, digest, &candidates[j], orders);
        proof {
            let shorter = all.subrange(0, j as int);
            let longer = all.subrange(0, j + 1);
            assert(longer.drop_last() =~= shorter);
            assert(longer.last() == candidates@[j as int]@);
            assert(trials_view(out@) =~= start + row(digest@, longer, orders@));
        }
        j += 1;
    }
    assert(all.subrange(0, candidates@.len() as int) =~= all);
}

/// Every combination of a digest, a candidate and a byte order, as the
/// trial that compares them.
pub fn all_trials(digests: &[DigestResult], candidates: &[EncodedChecksum], orders: &[ByteOrder])
    -> (trials: Vec<VerificationTrial>)
    ensures
        trials_view(trials@) == table(
            results_view(digests@),
            candidates_view(candidates@),
            orders@,
        ),
{
    let ghost all = results_view(digests@);
    let ghost cands = candidates_view(candidates@);
    let mut out: Vec<VerificationTrial> = Vec::new();
    let mut i: usize = 0;
    assert(all.subrange(0, 0) =~= Seq::<(AlgorithmId, Seq<u8>)>::empty());
    assert(trials_view(out@) =~= table(all.subrange(0, 0), cands, orders@));
    while i < digests.len()
        invariant
            i <= digests@.len(),
            all == results_view(digests@),
            cands == candidates_view(candidates@),
            trials_view(out@) == table(all.subrange(0, i as int), cands, orders@),
        decreases digests@.len() - i,
    {
        append_row(&mut out, &digests[i], candidates, orders);
        proof {
            let shorter = all.subrange(0, i as int);
            let longer = all.subrange(0, i + 1);
            assert(longer.drop_last() =~= shorter);
            assert(longer.last() == digests@[i as int]@);
        }
        i += 1;
    }
    assert(all.subrange(0, digests@.len() as int) =~= all);
    out
}

/// Adds to `out` copies of those of `trials` that have the verdict
/// `verdict`, in their order.
fn append_with_verdict(
    out: &mut Vec<VerificationTrial>,
    trials: &[VerificationTrial],
    verdict: Verdict,
)
    ensures
        trials_view(final(out)@) == trials_view(old(out)@) + with_verdict(
            trials_view(trials@),
            verdict,
        ),
{
    let ghost start = trials_view(out@);
    let ghost all = trials_view(trials@);
    let mut i: usize = 0;
    assert(all.subrange(0, 0) =~= Seq::<Trial>::empty());
    assert(trials_view(out@) =~= start + with_verdict(all.subrange(0, 0), verdict));
    while i < trials.len()
        invariant
            i <= trials@.len(),
            all == trials_view(trials@),
            trials_view(out@) == start + with_verdict(all.subrange(0, i as int), verdict),
        decreases trials@.len() - i,
    {
        let ghost before = out@;
        proof {
            let longer = all.subrange(0, i + 1);
            assert(longer.drop_last() =~= all.subrange(0, i as int));
            assert(longer.last() == trials@[i as int]@);
        }
        if trials[i].verdict == verdict {
            let trial = trials[i].duplicate();
            out.push(trial);
            assert(trials_view(out@) =~= trials_view(before).push(trial@));
            assert(trials_view(out@) =~= start + with_verdict(all.subrange(0, i + 1), verdict));
        }
        i += 1;
    }
    assert(all.subrange(0, trials@.len() as int) =~= all);
}

/// Puts trials into the order of presentation: every pass before every
/// fail, and within each group the order in which they came.
pub fn rank(trials: &[VerificationTrial]) -> (r: Vec<VerificationTrial>)
    ensures
        trials_view(r@) == ranked(trials_view(trials@)),
{
    let mut out: Vec<VerificationTrial> = Vec::with_capacity(trials.len());
    assert(trials_view(out@) =~= Seq::<Trial>::empty());
    append_with_verdict(&mut out, trials, Verdict::Pass);
    append_with_verdict(&mut out, trials, Verdict::Fail);
    assert(trials_view(out@) =~= ranked(trials_view(trials@)));
    out
}

/// Tries every digest against every candidate in every byte order given,
/// and returns the trials in the order of presentation.
pub fn match_checksums(
    digests: &[DigestResult],
    candidates: &[EncodedChecksum],
    orders: &[ByteOrder],
) -> (trials: Vec<VerificationTrial>)
    ensures
        trials_view(trials@) == ranked(
            table(results_view(digests@), candidates_view(candidates@), orders@),
        ),
{
    let made = all_trials(digests, candidates, orders);
    rank(made.as_slice())
}

/// What is shown of the ranked trials: all of them when every trial is
/// asked for, and the first one otherwise.
pub open spec fn presented_spec(trials: Seq<Trial>, verbose: bool) -> Seq<Trial> {
    if verbose || trials.len() == 0 {
        trials
    } else {
        seq![trials[0]]
    }
}

/// What is shown of the ranked trials: all of them when every trial is
/// asked for, and the first one otherwise.
pub fn presented(trials: &[VerificationTrial], verbose: bool) -> (r: Vec<VerificationTrial>)
    ensures
        trials_view(r@) == presented_spec(trials_view(trials@), verbose),
{
    let mut out: Vec<VerificationTrial> = Vec::new();
    let shown: usize = if verbose || trials.len() == 0 {
        trials.len()
    } else {
        1
    };
    let mut i: usize = 0;
    while i < shown
        invariant
            i <= shown <= trials@.len(),
            out@.len() == i,
            forall|j: int| 0 <= j < i ==> (#[trigger] out@[j])@ == trials@[j]@,
        decreases shown - i,
    {
        out.push(trials[i].duplicate());
        i += 1;
    }
    assert(trials_view(out@) =~= presented_spec(trials_view(trials@), verbose));
    out
}

/// The trials with a given verdict have that verdict, are no more than the
/// trials they were taken from, and together the two groups are as many as
/// all trials.
pub proof fn lemma_with_verdict(trials: Seq<Trial>, verdict: Verdict)
    ensures
        with_verdict(trials, verdict).len() <= trials.len(),
        forall|i: int|
            0 <= i < with_verdict(trials, verdict).len() ==> (#[trigger] with_verdict(
                trials,
                verdict,
            )[i]).verdict == verdict,
        forall|i: int|
            0 <= i < with_verdict(trials, verdict).len() ==> trials.contains(
                #[trigger] with_verdict(trials, verdict)[i],
            ),
        (exists|k: int| 0 <= k < trials.len() && (#[trigger] trials[k]).verdict == verdict)
            ==> with_verdict(trials, verdict).len() > 0,
        with_verdict(trials, Verdict::Pass).len() + with_verdict(trials, Verdict::Fail).len()
            == trials.len(),
    decreases trials.len(),
{
    if trials.len() > 0 {
        let earlier = trials.drop_last();
        lemma_with_verdict(earlier, verdict);
        lemma_with_verdict(earlier, Verdict::Pass);
        lemma_with_verdict(earlier, Verdict::Fail);
        let chosen = with_verdict(trials, verdict);
        assert forall|i: int| 0 <= i < chosen.len() implies trials.contains(
            #[trigger] chosen[i],
        ) by {
            if i < with_verdict(earlier, verdict).len() {
                let t = with_verdict(earlier, verdict)[i];
                assert(earlier.contains(t));
                let k = choose|k: int| 0 <= k < earlier.len() && earlier[k] == t;
                assert(trials[k] == t);
            } else {
                assert(chosen[i] == trials[trials.len() - 1]);
            }
        }
        if exists|k: int| 0 <= k < trials.len() && (#[trigger] trials[k]).verdict == verdict {
            let k = choose|k: int| 0 <= k < trials.len() && (#[trigger] trials[k]).verdict
                == verdict;
            if k < earlier.len() {
                assert(earlier[k].verdict == verdict);
            }
        }
    }
}

/// The order of presentation keeps every trial, puts every pass before
/// every fail, and so shows a pass first whenever there is one.
pub proof fn lemma_ranked_passes_first(trials: Seq<Trial>)
    ensures
        ranked(trials).len() == trials.len(),
        forall|i: int|
            0 <= i < ranked(trials).len() ==> trials.contains(#[trigger] ranked(trials)[i]),
        forall|i: int, j: int|
            0 <= i < j < ranked(trials).len() && (#[trigger] ranked(trials)[j]).verdict
                == Verdict::Pass ==> (#[trigger] ranked(trials)[i]).verdict == Verdict::Pass,
        (exists|k: int| 0 <= k < trials.len() && (#[trigger] trials[k]).verdict == Verdict::Pass)
            ==> ranked(trials)[0].verdict == Verdict::Pass,
{
    lemma_with_verdict(trials, Verdict::Pass);
    lemma_with_verdict(trials, Verdict::Fail);
    let passes = with_verdict(trials, Verdict::Pass);
    let fails = with_verdict(trials, Verdict::Fail);
    assert forall|i: int| 0 <= i < ranked(trials).len() implies trials.contains(
        #[trigger] ranked(trials)[i],
    ) by {
        if i < passes.len() {
            assert(ranked(trials)[i] == passes[i]);
        } else {
            assert(ranked(trials)[i] == fails[i - passes.len()]);
        }
    }
    assert forall|i: int, j: int|
        0 <= i < j < ranked(trials).len() && (#[trigger] ranked(trials)[j]).verdict
            == Verdict::Pass implies (#[trigger] ranked(trials)[i]).verdict == Verdict::Pass by {
        if j >= passes.len() {
            assert(ranked(trials)[j] == fails[j - passes.len()]);
        }
        assert(ranked(trials)[i] == passes[i]);
    }
    if exists|k: int| 0 <= k < trials.len() && (#[trigger] trials[k]).verdict == Verdict::Pass {
        assert(ranked(trials)[0] == passes[0]);
    }
}

/// A checksum that is a digest with its bytes reversed passes in
/// little-endian order, and fails in big-endian order unless the digest
/// reads the same in both directions.
pub proof fn lemma_reversed_checksum(digest: Seq<u8>, checksum: Seq<u8>)
    requires
        checksum == digest.reverse(),
    ensures
        verdict_of(digest, checksum, ByteOrder::LittleEndian) == Verdict::Pass,
        digest.reverse() != digest ==> verdict_of(digest, checksum, ByteOrder::BigEndian)
            == Verdict::Fail,
{
}

/// A row holds one trial for each candidate and byte order: the trial of the
/// `j`-th candidate in the `k`-th byte order stands at `j * orders + k`.
pub proof fn lemma_row_index(
    digest: (AlgorithmId, Seq<u8>),
    candidates: Seq<(Encoding, Seq<u8>)>,
    orders: Seq<ByteOrder>,
    j: int,
    k: int,
)
    requires
        0 <= j < candidates.len(),
        0 <= k < orders.len(),
    ensures
        row(digest, candidates, orders).len() == candidates.len() * orders.len(),
        0 <= j * orders.len() + k < row(digest, candidates, orders).len(),
        row(digest, candidates, orders)[j * orders.len() + k] == trial_of(
            digest,
            candidates[j],
            orders[k],
        ),
    decreases candidates.len(),
{
    let width = orders.len() as int;
    let count = candidates.len() as int;
    let earlier = candidates.drop_last();
    lemma_row_len(digest, candidates, orders);
    lemma_row_len(digest, earlier, orders);
    assert(0 <= j * width + k < count * width) by (nonlinear_arith)
        requires
            0 <= j < count,
            0 <= k < width,
    ;
    if j < count - 1 {
        lemma_row_index(digest, earlier, orders, j, k);
        assert(j * width + k < (count - 1) * width) by (nonlinear_arith)
            requires
                0 <= j < count - 1,
                0 <= k < width,
        ;
        assert(earlier[j] == candidates[j]);
    } else {
        assert(j * width + k - (count - 1) * width == k) by (nonlinear_arith)
            requires
                j == count - 1,
        ;
    }
}

/// A row holds one trial for each pair of a candidate and a byte order.
pub proof fn lemma_row_len(
    digest: (AlgorithmId, Seq<u8>),
    candidates: Seq<(Encoding, Seq<u8>)>,
    orders: Seq<ByteOrder>,
)
    ensures
        row(digest, candidates, orders).len() == candidates.len() * orders.len(),
    decreases candidates.len(),
{
    let width = orders.len() as int;
    let count = candidates.len() as int;
    if candidates.len() > 0 {
        lemma_row_len(digest, candidates.drop_last(), orders);
        assert((count - 1) * width + width == count * width) by (nonlinear_arith);
    } else {
        assert(0 * width == 0) by (nonlinear_arith);
    }
}

/// The table holds one trial for each combination of a digest, a candidate
/// and a byte order.
pub proof fn lemma_table_len(
    digests: Seq<(AlgorithmId, Seq<u8>)>,
    candidates: Seq<(Encoding, Seq<u8>)>,
    orders: Seq<ByteOrder>,
)
    ensures
        table(digests, candidates, orders).len() == digests.len() * (candidates.len()
            * orders.len()),
    decreases digests.len(),
{
    let block = (candidates.len() * orders.len()) as int;
    let count = digests.len() as int;
    if digests.len() > 0 {
        lemma_table_len(digests.drop_last(), candidates, orders);
        lemma_row_len(digests.last(), candidates, orders);
        assert((count - 1) * block + block == count * block) by (nonlinear_arith);
    } else {
        assert(0 * block == 0) by (nonlinear_arith);
    }
}

/// The trial of the `i`-th digest against the `j`-th candidate in the `k`-th
/// byte order stands in the table at `(i * candidates + j) * orders + k`.
pub proof fn lemma_table_index(
    digests: Seq<(AlgorithmId, Seq<u8>)>,
    candidates: Seq<(Encoding, Seq<u8>)>,
    orders: Seq<ByteOrder>,
    i: int,
    j: int,
    k: int,
)
    requires
        0 <= i < digests.len(),
        0 <= j < candidates.len(),
        0 <= k < orders.len(),
    ensures
        0 <= (i * candidates.len() + j) * orders.len() + k < table(
            digests,
            candidates,
            orders,
        ).len(),
        table(digests, candidates, orders)[(i * candidates.len() + j) * orders.len() + k]
            == trial_of(digests[i], candidates[j], orders[k]),
    decreases digests.len(),
{
    let width = orders.len() as int;
    let per = candidates.len() as int;
    let block = per * width;
    let count = digests.len() as int;
    let earlier = digests.drop_last();
    let at = (i * per + j) * width + k;
    lemma_table_len(digests, candidates, orders);
    lemma_table_len(earlier, candidates, orders);
    lemma_row_index(digests.last(), candidates, orders, j, k);
    assert(at == i * block + (j * width + k)) by (nonlinear_arith)
        requires
            at == (i * per + j) * width + k,
            block == per * width,
    ;
    assert(0 <= j * width + k < block);
    assert(0 <= i * block && i * block + block <= count * block) by (nonlinear_arith)
        requires
            0 <= i < count,
            0 <= block,
    ;
    if i < count - 1 {
        lemma_table_index(earlier, candidates, orders, i, j, k);
        assert(i * block + block <= (count - 1) * block) by (nonlinear_arith)
            requires
                0 <= i < count - 1,
                0 <= block,
        ;
        assert(earlier[i] == digests[i]);
    } else {
        assert(at - (count - 1) * block == j * width + k);
    }
}

/// The order of presentation only moves trials: it holds every trial as
/// often as the trials it was made from.
pub proof fn lemma_ranked_is_rearrangement(trials: Seq<Trial>)
    ensures
        ranked(trials).to_multiset() == trials.to_multiset(),
    decreases trials.len(),
{
    broadcast use vstd::multiset::group_multiset_axioms;

    let passes = with_verdict(trials, Verdict::Pass);
    let fails = with_verdict(trials, Verdict::Fail);
    lemma_multiset_commutative(passes, fails);
    if trials.len() == 0 {
        assert(ranked(trials) =~= trials);
    } else {
        let earlier = trials.drop_last();
        let last = trials.last();
        let earlier_passes = with_verdict(earlier, Verdict::Pass);
        let earlier_fails = with_verdict(earlier, Verdict::Fail);
        lemma_ranked_is_rearrangement(earlier);
        lemma_multiset_commutative(earlier_passes, earlier_fails);
        assert(earlier.push(last) =~= trials);
        to_multiset_build(earlier, last);
        match last.verdict {
            Verdict::Pass => {
                to_multiset_build(earlier_passes, last);
            },
            Verdict::Fail => {
                to_multiset_build(earlier_fails, last);
            },
        }
        assert(ranked(trials).to_multiset() =~= trials.to_multiset());
    }
}

/// The places, in ascending order, at which `trials` holds a trial with the
/// verdict `verdict`.
pub open spec fn places_with_verdict(trials: Seq<Trial>, verdict: Verdict) -> Seq<int>
    decreases trials.len(),
{
    if trials.len() == 0 {
        Seq::empty()
    } else {
        let earlier = places_with_verdict(trials.drop_last(), verdict);
        if trials.last().verdict == verdict {
            earlier.push(trials.len() - 1)
        } else {
            earlier
        }
    }
}

/// The trials with a given verdict keep the order in which they were made:
/// they are the trials at the places with that verdict, taken in ascending
/// order, and no place with that verdict is left out.
pub proof fn lemma_with_verdict_is_stable(trials: Seq<Trial>, verdict: Verdict)
    ensures
        places_with_verdict(trials, verdict).len() == with_verdict(trials, verdict).len(),
        forall|i: int|
            0 <= i < places_with_verdict(trials, verdict).len() ==> {
                let place = #[trigger] places_with_verdict(trials, verdict)[i];
                &&& 0 <= place < trials.len()
                &&& trials[place] == with_verdict(trials, verdict)[i]
            },
        forall|i: int, j: int|
            0 <= i < j < places_with_verdict(trials, verdict).len() ==> #[trigger] places_with_verdict(
                trials,
                verdict,
            )[i] < #[trigger] places_with_verdict(trials, verdict)[j],
        forall|place: int|
            0 <= place < trials.len() && (#[trigger] trials[place]).verdict == verdict
                ==> places_with_verdict(trials, verdict).contains(place),
    decreases trials.len(),
{
    if trials.len() > 0 {
        let earlier = trials.drop_last();
        lemma_with_verdict_is_stable(earlier, verdict);
        let places = places_with_verdict(trials, verdict);
        let before = places_with_verdict(earlier, verdict);
        assert forall|i: int| 0 <= i < places.len() implies {
            let place = #[trigger] places[i];
            &&& 0 <= place < trials.len()
            &&& trials[place] == with_verdict(trials, verdict)[i]
        } by {
            if i < before.len() {
                assert(places[i] == before[i]);
                assert(earlier[before[i]] == trials[before[i]]);
            }
        }
        assert forall|i: int, j: int| 0 <= i < j < places.len() implies #[trigger] places[i]
            < #[trigger] places[j] by {
            assert(places[i] == before[i]);
            if j < before.len() {
                assert(places[j] == before[j]);
            }
        }
        assert forall|place: int|
            0 <= place < trials.len() && (#[trigger] trials[place]).verdict
                == verdict implies places.contains(place) by {
            if place < earlier.len() {
                assert(earlier[place] == trials[place]);
                assert(before.contains(place));
                let k = choose|k: int| 0 <= k < before.len() && before[k] == place;
                assert(places[k] == place);
            } else {
                assert(places[places.len() - 1] == place);
            }
        }
    }
}

} // verus!
