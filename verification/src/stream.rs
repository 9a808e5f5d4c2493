//! Several algorithms driven over one pass of the input.

use vstd::prelude::*;
use vstd::slice::slice_subrange;
use crate::adapter::{digest_spec, DigestAdapter};
use crate::algorithm::AlgorithmId;
use crate::text::append_bytes;

verus! {

/// The digest of one algorithm over the whole input.
#[derive(Debug)]
pub struct DigestResult {
    pub algorithm: AlgorithmId,
    pub bytes: Vec<u8>,
}

impl View for DigestResult {
    type V = (AlgorithmId, Seq<u8>);

    open spec fn view(&self) -> (AlgorithmId, Seq<u8>) {
        (self.algorithm, self.bytes@)
    }
}

/// The views of a list of results, in the same order.
pub open spec fn results_view(results: Seq<DigestResult>) -> Seq<(AlgorithmId, Seq<u8>)> {
    Seq::new(results.len(), |i: int| results[i]@)
}

/// What hashing `input` under each of `algorithms` gives: one pair per
/// algorithm, in the order of `algorithms`.
pub open spec fn digests_spec(algorithms: Seq<AlgorithmId>, input: Seq<u8>) -> Seq<
    (AlgorithmId, Seq<u8>),
> {
    Seq::new(algorithms.len(), |i: int| (algorithms[i], digest_spec(algorithms[i], input)))
}

/// What finalizing gives when the adapters have absorbed `inputs`, one input
/// per algorithm: one pair per algorithm, in the order of `algorithms`.
pub open spec fn each_digest(algorithms: Seq<AlgorithmId>, inputs: Seq<Seq<u8>>) -> Seq<
    (AlgorithmId, Seq<u8>),
> {
    Seq::new(algorithms.len(), |i: int| (algorithms[i], digest_spec(algorithms[i], inputs[i])))
}

/// The active adapters of one run, one per requested algorithm and in the
/// order in which they were requested.
pub struct DigestSet {
    adapters: Vec<DigestAdapter>,
}

impl DigestSet {
    /// The algorithms of the set, in order.
    pub closed spec fn algorithms(&self) -> Seq<AlgorithmId> {
        Seq::new(self.adapters@.len(), |i: int| self.adapters@[i].algorithm_spec())
    }

    /// What each adapter has absorbed since the set was made or last
    /// finalized, in the order of the algorithms.
    pub closed spec fn inputs(&self) -> Seq<Seq<u8>> {
        Seq::new(self.adapters@.len(), |i: int| self.adapters@[i].input())
    }

    /// Whether every adapter of the set has absorbed exactly `input`.
    pub open spec fn has_seen(&self, input: Seq<u8>) -> bool {
        &&& self.inputs().len() == self.algorithms().len()
        &&& forall|i: int| 0 <= i < self.inputs().len() ==> #[trigger] self.inputs()[i] == input
    }

    /// A set with one fresh adapter per entry of `algorithms`.
    pub fn new(algorithms: &[AlgorithmId]) -> (set: DigestSet)
        ensures
            set.algorithms() == algorithms@,
            set.has_seen(Seq::empty()),
    {
        let mut adapters: Vec<DigestAdapter> = Vec::with_capacity(algorithms.len());
        let mut i: usize = 0;
        while i < algorithms.len()
            invariant
                i <= algorithms@.len(),
                adapters@.len() == i,
                forall|j: int|
                    0 <= j < i ==> (#[trigger] adapters@[j]).algorithm_spec() == algorithms@[j]
                        && adapters@[j].input() == Seq::<u8>::empty(),
            decreases algorithms@.len() - i,
        {
            adapters.push(DigestAdapter::new(algorithms[i]));
            i += 1;
        }
        let set = DigestSet { adapters };
        assert(set.algorithms() =~= algorithms@);
        set
    }

    /// The number of adapters.
    pub fn len(&self) -> (n: usize)
        ensures
            n == self.algorithms().len(),
    {
        self.adapters.len()
    }

    /// Feeds `chunk` to every adapter of the set, once.
    pub fn update(&mut self, chunk: &[u8])
        ensures
            final(self).algorithms() == old(self).algorithms(),
            final(self).inputs() == Seq::new(
                old(self).inputs().len(),
                |i: int| old(self).inputs()[i] + chunk@,
            ),
            forall|input: Seq<u8>| #[trigger]
                old(self).has_seen(input) ==> final(self).has_seen(input + chunk@),
    {
        let n: usize = self.adapters.len();
        let mut i: usize = 0;
        while i < n
            invariant
                i <= n,
                self.adapters@.len() == n,
                old(self).adapters@.len() == n,
                forall|j: int|
                    0 <= j < n ==> (#[trigger] self.adapters@[j]).algorithm_spec() == old(
                        self,
                    ).adapters@[j].algorithm_spec(),
                forall|j: int|
                    0 <= j < i ==> (#[trigger] self.adapters@[j]).input() == old(
                        self,
                    ).adapters@[j].input() + chunk@,
                forall|j: int|
                    i <= j < n ==> (#[trigger] self.adapters@[j]).input() == old(
                        self,
                    ).adapters@[j].input(),
            decreases n - i,
        {
            let adapter = &mut self.adapters[i];
            adapter.update(chunk);
            i += 1;
        }
        assert(self.algorithms() =~= old(self).algorithms());
        assert(self.inputs() =~= Seq::new(
            old(self).inputs().len(),
            |i: int| old(self).inputs()[i] + chunk@,
        ));
    }

    /// Finalizes every adapter in order and returns the digests, each with
    /// its algorithm. The set is then ready for a new input.
    pub fn finalize(&mut self) -> (results: Vec<DigestResult>)
        ensures
            final(self).algorithms() == old(self).algorithms(),
            final(self).has_seen(Seq::empty()),
            results_view(results@) == each_digest(old(self).algorithms(), old(self).inputs()),
            forall|input: Seq<u8>| #[trigger]
                old(self).has_seen(input) ==> results_view(results@) == digests_spec(
                    old(self).algorithms(),
                    input,
                ),
            forall|i: int|
                0 <= i < results@.len() ==> (#[trigger] results@[i]).bytes@.len()
                    == results@[i].algorithm.output_len_spec(),
    {
        let n: usize = self.adapters.len();
        let mut results: Vec<DigestResult> = Vec::with_capacity(n);
        let mut i: usize = 0;
        while i < n
            invariant
                i <= n,
                self.adapters@.len() == n,
                old(self).adapters@.len() == n,
                results@.len() == i,
                forall|j: int|
                    0 <= j < n ==> (#[trigger] self.adapters@[j]).algorithm_spec() == old(
                        self,
                    ).adapters@[j].algorithm_spec(),
                forall|j: int|
                    0 <= j < i ==> (#[trigger] self.adapters@[j]).input() == Seq::<u8>::empty(),
                forall|j: int|
                    i <= j < n ==> (#[trigger] self.adapters@[j]).input() == old(
                        self,
                    ).adapters@[j].input(),
                forall|j: int|
                    0 <= j < i ==> (#[trigger] results@[j])@ == (
                        old(self).adapters@[j].algorithm_spec(),
                        digest_spec(
                            old(self).adapters@[j].algorithm_spec(),
                            old(self).adapters@[j].input(),
                        ),
                    ) && results@[j].bytes@.len() == results@[j].algorithm.output_len_spec(),
            decreases n - i,
        {
            let adapter = &mut self.adapters[i];
            let algorithm = adapter.algorithm();
            let bytes = adapter.finalize_reset();
            results.push(DigestResult { algorithm, bytes });
            i += 1;
        }
        assert(self.algorithms() =~= old(self).algorithms());
        assert(results_view(results@) =~= each_digest(
            old(self).algorithms(),
            old(self).inputs(),
        ));
        assert forall|input: Seq<u8>| #[trigger] old(self).has_seen(input) implies results_view(
            results@,
        ) == digests_spec(old(self).algorithms(), input) by {
            assert forall|j: int| 0 <= j < n implies old(self).adapters@[j].input() == input by {
                assert(old(self).inputs()[j] == input);
            }
            assert(results_view(results@) =~= digests_spec(old(self).algorithms(), input));
        }
        results
    }
}

/// What one read from the input source gave.
pub enum ReadEvent<'a> {
    /// The bytes that the read delivered. No bytes at all means that the
    /// source is exhausted.
    Chunk(&'a [u8]),
    /// The read failed; the text names the failure.
    Failed(String),
}

/// What the caller of [`advance`] does next.
pub enum Progress {
    /// Read again and come back with the outcome.
    NeedInput,
    /// The input is exhausted: these are the digests, in the set's order.
    Done(Vec<DigestResult>),
    /// The input could not be read. No digest is handed out.
    Aborted(String),
}

/// Takes one outcome of reading the input and decides how the run goes on.
///
/// A chunk with bytes in it goes to every adapter and the caller reads
/// again. An empty chunk ends the input: every adapter is finalized. A
/// failed read ends the run with the failure's text, and what was absorbed so
/// far is thrown away. After the end of a run the set is ready for the next.
pub fn advance(set: &mut DigestSet, event: ReadEvent<'_>) -> (progress: Progress)
    ensures
        final(set).algorithms() == old(set).algorithms(),
        match event {
            ReadEvent::Chunk(chunk) => if chunk@.len() > 0 {
                &&& progress is NeedInput
                &&& final(set).inputs() == Seq::new(
                    old(set).inputs().len(),
                    |i: int| old(set).inputs()[i] + chunk@,
                )
                &&& forall|input: Seq<u8>| #[trigger]
                    old(set).has_seen(input) ==> final(set).has_seen(input + chunk@)
            } else {
                &&& progress matches Progress::Done(results)
                &&& results_view(results@) == each_digest(old(set).algorithms(), old(set).inputs())
                &&& forall|input: Seq<u8>| #[trigger]
                    old(set).has_seen(input) ==> results_view(results@) == digests_spec(
                        old(set).algorithms(),
                        input,
                    )
                &&& final(set).has_seen(Seq::empty())
            },
            ReadEvent::Failed(reason) => {
                &&& progress == Progress::Aborted(reason)
                &&& final(set).has_seen(Seq::empty())
            },
        },
{
    match event {
        ReadEvent::Chunk(chunk) => {
            if chunk.len() > 0 {
                set.update(chunk);
                Progress::NeedInput
            } else {
                Progress::Done(set.finalize())
            }
        },
        ReadEvent::Failed(reason) => {
            let _ = set.finalize();
            Progress::Aborted(reason)
        },
    }
}

/// Hashes `data` under each of `algorithms`, feeding it to the adapters in
/// pieces of `chunk_len` bytes, the last one possibly shorter. The size of
/// the pieces has no influence on the result.
pub fn hash_in_chunks(data: &[u8], chunk_len: usize, algorithms: &[AlgorithmId]) -> (results: Vec<
    DigestResult,
>)
    requires
        chunk_len > 0,
    ensures
        results_view(results@) == digests_spec(algorithms@, data@),
        forall|i: int|
            0 <= i < results@.len() ==> (#[trigger] results@[i]).bytes@.len()
                == results@[i].algorithm.output_len_spec(),
{
    let mut set = DigestSet::new(algorithms);
    let total: usize = data.len();
    let mut pos: usize = 0;
    assert(data@.subrange(0, 0) =~= Seq::<u8>::empty());
    while pos < total
        invariant
            chunk_len > 0,
            total == data@.len(),
            pos <= total,
            set.algorithms() == algorithms@,
            set.has_seen(data@.subrange(0, pos as int)),
        decreases total - pos,
    {
        let end: usize = if total - pos > chunk_len {
            pos + chunk_len
        } else {
            total
        };
        let chunk = slice_subrange(data, pos, end);
        let ghost before = set;
        set.update(chunk);
        assert(data@.subrange(0, pos as int) + data@.subrange(pos as int, end as int)
            =~= data@.subrange(0, end as int));
        assert(before.has_seen(data@.subrange(0, pos as int)));
        pos = end;
    }
    assert(data@.subrange(0, total as int) =~= data@);
    assert(set.has_seen(data@));
    set.finalize()
}

/// The number of bytes that one read of the input asks for.
pub const CHUNK_LEN: usize = 65536;

/// Hashes `data` under each of `algorithms`.
pub fn hash_bytes(data: &[u8], algorithms: &[AlgorithmId]) -> (results: Vec<DigestResult>)
    ensures
        results_view(results@) == digests_spec(algorithms@, data@),
        forall|i: int|
            0 <= i < results@.len() ==> (#[trigger] results@[i]).bytes@.len()
                == results@[i].algorithm.output_len_spec(),
{
    hash_in_chunks(data, CHUNK_LEN, algorithms)
}

/// Sharing one pass between several algorithms changes no digest: what the
/// `i`-th algorithm gives among the others is what it gives when it runs over
/// the same input alone.
pub proof fn lemma_shared_pass_agrees_with_single(
    algorithms: Seq<AlgorithmId>,
    input: Seq<u8>,
    i: int,
)
    requires
        0 <= i < algorithms.len(),
    ensures
        digests_spec(algorithms, input).len() == algorithms.len(),
        digests_spec(seq![algorithms[i]], input).len() == 1,
        digests_spec(algorithms, input)[i] == digests_spec(seq![algorithms[i]], input)[0],
{
}

/// Two runs over the same input with the same algorithms give the same
/// digests, byte for byte.
pub proof fn lemma_hashing_is_repeatable(
    algorithms: Seq<AlgorithmId>,
    input: Seq<u8>,
    first: Seq<DigestResult>,
    second: Seq<DigestResult>,
)
    requires
        results_view(first) == digests_spec(algorithms, input),
        results_view(second) == digests_spec(algorithms, input),
    ensures
        first.len() == second.len(),
        forall|i: int|
            0 <= i < first.len() ==> (#[trigger] first[i]).algorithm == second[i].algorithm
                && first[i].bytes@ == second[i].bytes@,
{
    assert(results_view(first).len() == first.len());
    assert(results_view(second).len() == second.len());
    assert forall|i: int| 0 <= i < first.len() implies (#[trigger] first[i]).algorithm
        == second[i].algorithm && first[i].bytes@ == second[i].bytes@ by {
        assert(results_view(first)[i] == first[i]@);
        assert(results_view(second)[i] == second[i]@);
    }
}

/// Takes one outcome of reading an input that is wanted whole, and says
/// whether to read again. A chunk with bytes in it is added to what was
/// collected. An empty chunk ends the input, and so does a failed read: what
/// was collected until then is the input.
pub fn gather(collected: &mut Vec<u8>, event: ReadEvent<'_>) -> (more: bool)
    ensures
        match event {
            ReadEvent::Chunk(chunk) => {
                &&& more == (chunk@.len() > 0)
                &&& final(collected)@ == old(collected)@ + chunk@
            },
            ReadEvent::Failed(_) => !more && final(collected)@ == old(collected)@,
        },
{
    match event {
        ReadEvent::Chunk(chunk) => {
            append_bytes(collected, chunk);
            chunk.len() > 0
        },
        ReadEvent::Failed(_) => false,
    }
}

} // verus!
