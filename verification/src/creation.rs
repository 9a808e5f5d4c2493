//! The lines that a digest run prints: each digest in each byte order under
//! each encoding that was asked for.

use vstd::prelude::*;
use crate::adapter::digest_spec;
use crate::algorithm::{
    algorithms_named, lemma_named, named, names_view, parse_names, AlgorithmId,
};
use crate::encoding::{
    encoded_text, encodings_named, lemma_parsed_names, parse_encodings, parsed, Encoding,
};
use crate::matcher::{
    in_order, lemma_order_names, order_named, orders_named, parse_orders, ByteOrder,
};
use crate::numeral::hex_text;
use crate::stream::{digests_spec, hash_bytes, results_view, DigestResult};

verus! {

/// What a line carries after its labels.
#[derive(Debug)]
pub enum Payload {
    /// The digest as text, for every encoding but the blob.
    Text(String),
    /// The digest's bytes as they are, for the blob.
    Raw(Vec<u8>),
}

/// The mathematical content of a [`Payload`].
pub enum PayloadModel {
    Text(Seq<char>),
    Raw(Seq<u8>),
}

impl View for Payload {
    type V = PayloadModel;

    open spec fn view(&self) -> PayloadModel {
        match self {
            Payload::Text(text) => PayloadModel::Text(text@),
            Payload::Raw(bytes) => PayloadModel::Raw(bytes@),
        }
    }
}

/// One digest in one byte order under one encoding.
#[derive(Debug)]
pub struct OutputLine {
    pub algorithm: AlgorithmId,
    pub byte_order: ByteOrder,
    pub encoding: Encoding,
    pub payload: Payload,
}

/// The mathematical content of an [`OutputLine`].
pub struct Line {
    pub algorithm: AlgorithmId,
    pub byte_order: ByteOrder,
    pub encoding: Encoding,
    pub payload: PayloadModel,
}

impl View for OutputLine {
    type V = Line;

    open spec fn view(&self) -> Line {
        Line {
            algorithm: self.algorithm,
            byte_order: self.byte_order,
            encoding: self.encoding,
            payload: self.payload@,
        }
    }
}

/// The views of a list of lines, in the same order.
pub open spec fn lines_view(lines: Seq<OutputLine>) -> Seq<Line> {
    Seq::new(lines.len(), |i: int| lines[i]@)
}

/// The line for one digest in one byte order under one encoding: the bytes
/// in that order, as they are for the blob and as text otherwise.
pub open spec fn line_of(digest: (AlgorithmId, Seq<u8>), order: ByteOrder, kind: Encoding)
    -> Line {
    Line {
        algorithm: digest.0,
        byte_order: order,
        encoding: kind,
        payload: if kind == Encoding::Blob {
            PayloadModel::Raw(in_order(digest.1, order))
        } else {
            PayloadModel::Text(encoded_text(in_order(digest.1, order), kind))
        },
    }
}

/// The lines of one digest in one byte order, one per encoding.
pub open spec fn block(digest: (AlgorithmId, Seq<u8>), order: ByteOrder, kinds: Seq<Encoding>)
    -> Seq<Line> {
    Seq::new(kinds.len(), |k: int| line_of(digest, order, kinds[k]))
}

/// The lines of one digest in every byte order in turn.
pub open spec fn section(
    digest: (AlgorithmId, Seq<u8>),
    orders: Seq<ByteOrder>,
    kinds: Seq<Encoding>,
) -> Seq<Line>
    decreases orders.len(),
{
    if orders.len() == 0 {
        Seq::empty()
    } else {
        section(digest, orders.drop_last(), kinds) + block(digest, orders.last(), kinds)
    }
}

/// Every line of a run: the digests in turn, for each digest the byte orders
/// in turn, for each byte order the encodings in turn.
pub open spec fn expansion(
    digests: Seq<(AlgorithmId, Seq<u8>)>,
    orders: Seq<ByteOrder>,
    kinds: Seq<Encoding>,
) -> Seq<Line>
    decreases digests.len(),
{
    if digests.len() == 0 {
        Seq::empty()
    } else {
        expansion(digests.drop_last(), orders, kinds) + section(digests.last(), orders, kinds)
    }
}

impl OutputLine {
    /// The line for one digest in one byte order under one encoding.
    pub fn new(digest: &DigestResult, order: ByteOrder, kind: Encoding) -> (line: OutputLine)
        ensures
            line@ == line_of(digest@, order, kind),
    {
        let bytes = order.apply(digest.bytes.as_slice());
        let payload = match kind {
            Encoding::Blob => Payload::Raw(bytes),
            _ => Payload::Text(Encoding::encode(bytes.as_slice(), kind).into_string()),
        };
        OutputLine { algorithm: digest.algorithm, byte_order: order, encoding: kind, payload }
    }
}

/// Adds the lines of one digest in one byte order.
fn append_block(
    out: &mut Vec<OutputLine>,
    digest: &DigestResult,
    order: ByteOrder,
    kinds: &[Encoding],
)
    ensures
        lines_view(final(out)@) == lines_view(old(out)@) + block(digest@, order, kinds@),
{
    let ghost start = lines_view(out@);
    let ghost whole = block(digest@, order, kinds@);
    let mut k: usize = 0;
    assert(lines_view(out@) =~= start + whole.subrange(0, 0));
    while k < kinds.len()
        invariant
            k <= kinds@.len(),
            whole == block(digest@, order, kinds@),
            lines_view(out@) == start + whole.subrange(0, k as int),
        decreases kinds@.len() - k,
    {
        let ghost before = out@;
        let line = OutputLine::new(digest, order, kinds[k]);
        out.push(line);
        assert(lines_view(out@) =~= lines_view(before).push(line@));
        assert(whole.subrange(0, k + 1) =~= whole.subrange(0, k as int).push(whole[k as int]));
        assert(lines_view(out@) =~= start + whole.subrange(0, k + 1));
        k += 1;
    }
    assert(whole.subrange(0, kinds@.len() as int) =~= whole);
}

/// Adds the lines of one digest in every byte order.
fn append_section(
    out: &mut Vec<OutputLine>,
    digest: &DigestResult,
    orders: &[ByteOrder],
    kinds: &[Encoding],
)
    ensures
        lines_view(final(out)@) == lines_view(old(out)@) + section(digest@, orders@, kinds@),
{
    let ghost start = lines_view(out@);
    let mut j: usize = 0;
    assert(orders@.subrange(0, 0) =~= Seq::<ByteOrder>::empty());
    assert(lines_view(out@) =~= start + section(digest@, orders@.subrange(0, 0), kinds@));
    while j < orders.len()
        invariant
            j <= orders@.len(),
            lines_view(out@) == start + section(digest@, orders@.subrange(0, j as int), kinds@),
        decreases orders@.len() - j,
    {
        append_block(out, digest, orders[j], kinds);
        proof {
            let longer = orders@.subrange(0, j + 1);
            assert(longer.drop_last() =~= orders@.subrange(0, j as int));
            assert(longer.last() == orders@[j as int]);
            assert(lines_view(out@) =~= start + section(digest@, longer, kinds@));
        }
        j += 1;
    }
    assert(orders@.subrange(0, orders@.len() as int) =~= orders@);
}

/// Every line of a run, from the digests, the byte orders and the encodings
/// that were asked for.
pub fn expand(digests: &[DigestResult], orders: &[ByteOrder], kinds: &[Encoding]) -> (lines: Vec<
    OutputLine,
>)
    ensures
        lines_view(lines@) == expansion(results_view(digests@), orders@, kinds@),
{
    let ghost all = results_view(digests@);
    let mut out: Vec<OutputLine> = Vec::new();
    let mut i: usize = 0;
    assert(all.subrange(0, 0) =~= Seq::<(AlgorithmId, Seq<u8>)>::empty());
    assert(lines_view(out@) =~= expansion(all.subrange(0, 0), orders@, kinds@));
    while i < digests.len()
        invariant
            i <= digests@.len(),
            all == results_view(digests@),
            lines_view(out@) == expansion(all.subrange(0, i as int), orders@, kinds@),
        decreases digests@.len() - i,
    {
        append_section(&mut out, &digests[i], orders, kinds);
        proof {
            let longer = all.subrange(0, i + 1);
            assert(longer.drop_last() =~= all.subrange(0, i as int));
            assert(longer.last() == digests@[i as int]@);
        }
        i += 1;
    }
    assert(all.subrange(0, digests@.len() as int) =~= all);
    out
}

/// What a run over `input` prints for the requested names: the lines, or
/// the message for the first name that cannot be honoured. Algorithm names
/// are looked at first, then byte orders, then encodings.
pub open spec fn created(
    input: Seq<u8>,
    types: Seq<Seq<char>>,
    orders: Seq<Seq<char>>,
    encodings: Seq<Seq<char>>,
) -> Result<Seq<Line>, Seq<char>> {
    match algorithms_named(types) {
        Err(message) => Err(message),
        Ok(algorithms) => match orders_named(orders) {
            Err(message) => Err(message),
            Ok(byte_orders) => match encodings_named(encodings) {
                Err(message) => Err(message),
                Ok(kinds) => Ok(expansion(digests_spec(algorithms, input), byte_orders, kinds)),
            },
        },
    }
}

/// Whether an executable result is the one that the model `expected` names.
pub open spec fn lines_result_is(
    r: Result<Vec<OutputLine>, String>,
    expected: Result<Seq<Line>, Seq<char>>,
) -> bool {
    match r {
        Ok(lines) => expected == Ok::<Seq<Line>, Seq<char>>(lines_view(lines@)),
        Err(message) => expected == Err::<Seq<Line>, Seq<char>>(message@),
    }
}

/// Hashes `input` under the algorithms named and returns every line of the
/// run.
pub fn create(input: &[u8], types: &[&str], orders: &[&str], encodings: &[&str]) -> (r: Result<
    Vec<OutputLine>,
    String,
>)
    ensures
        lines_result_is(
            r,
            created(input@, names_view(types@), names_view(orders@), names_view(encodings@)),
        ),
{
    let algorithms = match parse_names(types) {
        Ok(algorithms) => algorithms,
        Err(message) => {
            return Err(message);
        },
    };
    let byte_orders = match parse_orders(orders) {
        Ok(byte_orders) => byte_orders,
        Err(message) => {
            return Err(message);
        },
    };
    let kinds = match parse_encodings(encodings) {
        Ok(kinds) => kinds,
        Err(message) => {
            return Err(message);
        },
    };
    let digests = hash_bytes(input, algorithms.as_slice());
    Ok(expand(digests.as_slice(), byte_orders.as_slice(), kinds.as_slice()))
}

/// Creation is repeatable: two runs over the same input with the same
/// requests give the same lines, byte for byte, or the same message.
pub proof fn lemma_creation_is_repeatable(
    input: Seq<u8>,
    types: Seq<Seq<char>>,
    orders: Seq<Seq<char>>,
    encodings: Seq<Seq<char>>,
    first: Result<Vec<OutputLine>, String>,
    second: Result<Vec<OutputLine>, String>,
)
    requires
        lines_result_is(first, created(input, types, orders, encodings)),
        lines_result_is(second, created(input, types, orders, encodings)),
    ensures
        match (first, second) {
            (Ok(a), Ok(b)) => lines_view(a@) == lines_view(b@),
            (Err(a), Err(b)) => a@ == b@,
            _ => false,
        },
{
}

/// A section holds one line for each pair of a byte order and an encoding.
pub proof fn lemma_section_len(
    digest: (AlgorithmId, Seq<u8>),
    orders: Seq<ByteOrder>,
    kinds: Seq<Encoding>,
)
    ensures
        section(digest, orders, kinds).len() == orders.len() * kinds.len(),
    decreases orders.len(),
{
    let width = kinds.len() as int;
    let count = orders.len() as int;
    if orders.len() > 0 {
        lemma_section_len(digest, orders.drop_last(), kinds);
        assert((count - 1) * width + width == count * width) by (nonlinear_arith);
    } else {
        assert(0 * width == 0) by (nonlinear_arith);
    }
}

/// A run prints one line for each combination of a digest, a byte order and
/// an encoding.
pub proof fn lemma_expansion_len(
    digests: Seq<(AlgorithmId, Seq<u8>)>,
    orders: Seq<ByteOrder>,
    kinds: Seq<Encoding>,
)
    ensures
        expansion(digests, orders, kinds).len() == digests.len() * (orders.len() * kinds.len()),
    decreases digests.len(),
{
    let block_len = (orders.len() * kinds.len()) as int;
    let count = digests.len() as int;
    if digests.len() > 0 {
        lemma_expansion_len(digests.drop_last(), orders, kinds);
        lemma_section_len(digests.last(), orders, kinds);
        assert((count - 1) * block_len + block_len == count * block_len) by (nonlinear_arith);
    } else {
        assert(0 * block_len == 0) by (nonlinear_arith);
    }
}

/// The line of the `i`-th digest in the `j`-th byte order under the `k`-th
/// encoding stands at `(i * orders + j) * encodings + k`.
pub proof fn lemma_expansion_index(
    digests: Seq<(AlgorithmId, Seq<u8>)>,
    orders: Seq<ByteOrder>,
    kinds: Seq<Encoding>,
    i: int,
    j: int,
    k: int,
)
    requires
        0 <= i < digests.len(),
        0 <= j < orders.len(),
        0 <= k < kinds.len(),
    ensures
        0 <= (i * orders.len() + j) * kinds.len() + k < expansion(digests, orders, kinds).len(),
        expansion(digests, orders, kinds)[(i * orders.len() + j) * kinds.len() + k] == line_of(
            digests[i],
            orders[j],
            kinds[k],
        ),
    decreases digests.len(),
{
    let width = kinds.len() as int;
    let per = orders.len() as int;
    let block_len = per * width;
    let count = digests.len() as int;
    let earlier = digests.drop_last();
    let at = (i * per + j) * width + k;
    lemma_expansion_len(digests, orders, kinds);
    lemma_expansion_len(earlier, orders, kinds);
    lemma_section_index(digests.last(), orders, kinds, j, k);
    assert(at == i * block_len + (j * width + k)) by (nonlinear_arith)
        requires
            at == (i * per + j) * width + k,
            block_len == per * width,
    ;
    assert(0 <= j * width + k < block_len);
    assert(0 <= i * block_len && i * block_len + block_len <= count * block_len)
        by (nonlinear_arith)
        requires
            0 <= i < count,
            0 <= block_len,
    ;
    if i < count - 1 {
        lemma_expansion_index(earlier, orders, kinds, i, j, k);
        assert(i * block_len + block_len <= (count - 1) * block_len) by (nonlinear_arith)
            requires
                0 <= i < count - 1,
                0 <= block_len,
        ;
        assert(earlier[i] == digests[i]);
    } else {
        assert(at - (count - 1) * block_len == j * width + k);
    }
}

/// Within a section, the line of the `j`-th byte order under the `k`-th
/// encoding stands at `j * encodings + k`.
pub proof fn lemma_section_index(
    digest: (AlgorithmId, Seq<u8>),
    orders: Seq<ByteOrder>,
    kinds: Seq<Encoding>,
    j: int,
    k: int,
)
    requires
        0 <= j < orders.len(),
        0 <= k < kinds.len(),
    ensures
        section(digest, orders, kinds).len() == orders.len() * kinds.len(),
        0 <= j * kinds.len() + k < section(digest, orders, kinds).len(),
        section(digest, orders, kinds)[j * kinds.len() + k] == line_of(
            digest,
            orders[j],
            kinds[k],
        ),
    decreases orders.len(),
{
    let width = kinds.len() as int;
    let count = orders.len() as int;
    let earlier = orders.drop_last();
    lemma_section_len(digest, orders, kinds);
    lemma_section_len(digest, earlier, kinds);
    assert(0 <= j * width + k < count * width) by (nonlinear_arith)
        requires
            0 <= j < count,
            0 <= k < width,
    ;
    if j < count - 1 {
        lemma_section_index(digest, earlier, kinds, j, k);
        assert(j * width + k < (count - 1) * width) by (nonlinear_arith)
            requires
                0 <= j < count - 1,
                0 <= k < width,
        ;
        assert(earlier[j] == orders[j]);
    } else {
        assert(j * width + k - (count - 1) * width == k) by (nonlinear_arith)
            requires
                j == count - 1,
        ;
    }
}

/// A run for one algorithm, in big-endian order and lower-case hexadecimal,
/// prints one line: the digest of the input, two digits to the byte.
pub proof fn lemma_creation_in_hexadecimal(algorithm: AlgorithmId, input: Seq<u8>)
    ensures
        created(input, seq![algorithm.name_spec()], seq!["big"@], seq!["hex"@]) == Ok::<
            Seq<Line>,
            Seq<char>,
        >(
            seq![
                Line {
                    algorithm,
                    byte_order: ByteOrder::BigEndian,
                    encoding: Encoding::LowHex,
                    payload: PayloadModel::Text(hex_text(digest_spec(algorithm, input), false)),
                },
            ],
        ),
{
    let digest = digest_spec(algorithm, input);
    let types = seq![algorithm.name_spec()];
    let order_names = seq!["big"@];
    let kind_names = seq!["hex"@];
    lemma_parsed_names();
    lemma_order_names();
    lemma_named(algorithm, algorithm.name_spec());
    assert(named(types[0]) == Some(algorithm));
    assert(Seq::new(types.len(), |i: int| named(types[i]).unwrap()) =~= seq![algorithm]);
    assert(algorithms_named(types) == Ok::<Seq<AlgorithmId>, Seq<char>>(seq![algorithm]));
    assert(order_named(order_names[0]) == Some(ByteOrder::BigEndian));
    assert(Seq::new(order_names.len(), |i: int| order_named(order_names[i]).unwrap()) =~= seq![
        ByteOrder::BigEndian,
    ]);
    assert(orders_named(order_names) == Ok::<Seq<ByteOrder>, Seq<char>>(
        seq![ByteOrder::BigEndian],
    ));
    assert(parsed(kind_names[0]) == Some(Encoding::LowHex));
    assert(Seq::new(kind_names.len(), |i: int| parsed(kind_names[i]).unwrap()) =~= seq![
        Encoding::LowHex,
    ]);
    assert(encodings_named(kind_names) == Ok::<Seq<Encoding>, Seq<char>>(
        seq![Encoding::LowHex],
    ));
    let digests = digests_spec(seq![algorithm], input);
    let orders = seq![ByteOrder::BigEndian];
    let kinds = seq![Encoding::LowHex];
    assert(digests =~= seq![(algorithm, digest)]);
    let only = line_of((algorithm, digest), ByteOrder::BigEndian, Encoding::LowHex);
    assert(block(digests[0], orders[0], kinds) =~= seq![only]);
    assert(orders.drop_last() =~= Seq::<ByteOrder>::empty());
    assert(section(digests[0], orders.drop_last(), kinds) =~= Seq::<Line>::empty());
    assert(orders.last() == orders[0]);
    assert(section(digests[0], orders, kinds) =~= seq![only]);
    assert(digests.drop_last() =~= Seq::<(AlgorithmId, Seq<u8>)>::empty());
    assert(expansion(digests.drop_last(), orders, kinds) =~= Seq::<Line>::empty());
    assert(digests.last() == digests[0]);
    assert(expansion(digests, orders, kinds) =~= seq![only]);
}

} // verus!
