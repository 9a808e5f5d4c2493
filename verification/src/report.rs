//! The columns in which lines and verdicts are laid out.

use vstd::prelude::*;
use vstd::string::StrSliceExecFns;
use vstd::string::StringExecFns;
use crate::algorithm::{names_view, AlgorithmId};
use crate::creation::{Line, OutputLine};
use crate::encoding::Encoding;
use crate::matcher::{trials_view, Trial, Verdict, VerificationTrial};

verus! {

/// `text`, with spaces after it until it is `width` characters long. Text
/// that is longer stays as it is.
pub open spec fn padded(text: Seq<char>, width: nat) -> Seq<char> {
    if text.len() >= width {
        text
    } else {
        text + Seq::new((width - text.len()) as nat, |i: int| ' ')
    }
}

/// `text`, with spaces after it until it is `width` characters long.
pub fn pad_right(text: &str, width: usize) -> (r: String)
    ensures
        r@ == padded(text@, width as nat),
{
    let len: usize = text.unicode_len();
    let mut out = String::from_str(text);
    if len >= width {
        return out;
    }
    let mut n: usize = len;
    assert(out@ =~= text@ + Seq::new(0, |i: int| ' '));
    while n < width
        invariant
            len == text@.len(),
            len <= n <= width,
            out@ == text@ + Seq::new((n - len) as nat, |i: int| ' '),
        decreases width - n,
    {
        proof {
            reveal_strlit(" ");
            assert(" "@ =~= seq![' ']);
        }
        let ghost before = out@;
        out.append(" ");
        assert(out@ =~= text@ + Seq::new((n + 1 - len) as nat, |i: int| ' '));
        n += 1;
    }
    out
}

/// The length of the longest of `names`; zero where there is none.
pub open spec fn longest(names: Seq<Seq<char>>) -> nat
    decreases names.len(),
{
    if names.len() == 0 {
        0
    } else {
        let earlier = longest(names.drop_last());
        if names.last().len() > earlier {
            names.last().len()
        } else {
            earlier
        }
    }
}

/// The length of the longest of `names`; zero where there is none.
pub fn max_len(names: &[&str]) -> (r: usize)
    ensures
        r == longest(names_view(names@)),
{
    let ghost all = names_view(names@);
    let mut width: usize = 0;
    let mut i: usize = 0;
    assert(all.subrange(0, 0) =~= Seq::<Seq<char>>::empty());
    while i < names.len()
        invariant
            i <= names@.len(),
            all == names_view(names@),
            width == longest(all.subrange(0, i as int)),
        decreases names@.len() - i,
    {
        proof {
            let longer = all.subrange(0, i + 1);
            assert(longer.drop_last() =~= all.subrange(0, i as int));
            assert(longer.last() == names@[i as int]@);
        }
        let len: usize = names[i].unicode_len();
        if len > width {
            width = len;
        }
        i += 1;
    }
    assert(all.subrange(0, names@.len() as int) =~= all);
    width
}

/// The widths of the three columns that stand before a line's payload.
#[derive(Debug, Copy, Clone, PartialEq, Eq, Structural)]
pub struct Widths {
    pub label: usize,
    pub byte_order: usize,
    pub encoding: usize,
}

/// The three columns that stand before a line's payload, each padded to its
/// width.
#[derive(Debug)]
pub struct Columns {
    pub label: String,
    pub byte_order: String,
    pub encoding: String,
}

impl Verdict {
    /// The word that shows a verdict.
    pub open spec fn name_spec(self) -> Seq<char> {
        match self {
            Verdict::Pass => "pass"@,
            Verdict::Fail => "fail"@,
        }
    }

    /// The word that shows a verdict.
    pub fn name(&self) -> (r: &'static str)
        ensures
            r@ == self.name_spec(),
    {
        match self {
            Verdict::Pass => "pass",
            Verdict::Fail => "fail",
        }
    }
}

/// The names of the algorithms of `algorithms`, in order.
pub open spec fn algorithm_names(algorithms: Seq<AlgorithmId>) -> Seq<Seq<char>> {
    Seq::new(algorithms.len(), |i: int| algorithms[i].name_spec())
}

/// The widths for the lines of a digest run: the label as wide as the
/// longest algorithm name, the other two as wide as the longest word by
/// which a byte order and an encoding were asked for.
pub fn creation_widths(algorithms: &[AlgorithmId], orders: &[&str], encodings: &[&str]) -> (w:
    Widths)
    ensures
        w.label == longest(algorithm_names(algorithms@)),
        w.byte_order == longest(names_view(orders@)),
        w.encoding == longest(names_view(encodings@)),
{
    let ghost all = algorithm_names(algorithms@);
    let mut label: usize = 0;
    let mut i: usize = 0;
    assert(all.subrange(0, 0) =~= Seq::<Seq<char>>::empty());
    while i < algorithms.len()
        invariant
            i <= algorithms@.len(),
            all == algorithm_names(algorithms@),
            label == longest(all.subrange(0, i as int)),
        decreases algorithms@.len() - i,
    {
        proof {
            let longer = all.subrange(0, i + 1);
            assert(longer.drop_last() =~= all.subrange(0, i as int));
            assert(longer.last() == algorithms@[i as int].name_spec());
        }
        let len: usize = algorithms[i].name().unicode_len();
        if len > label {
            label = len;
        }
        i += 1;
    }
    assert(all.subrange(0, algorithms@.len() as int) =~= all);
    Widths { label, byte_order: max_len(orders), encoding: max_len(encodings) }
}

/// The columns of a line of a digest run. The byte order is the word by
/// which it is asked for, padded, and then `-endian`; the blob shows no
/// encoding name.
pub open spec fn creation_columns_spec(line: Line, w: Widths) -> (Seq<char>, Seq<char>, Seq<char>) {
    (
        padded(line.algorithm.name_spec(), w.label as nat),
        padded(line.byte_order.short_name_spec(), w.byte_order as nat) + "-endian"@,
        padded(
            if line.encoding == Encoding::Blob {
                Seq::empty()
            } else {
                line.encoding.name_spec()
            },
            w.encoding as nat,
        ),
    )
}

/// The columns of a line of a digest run.
pub fn creation_columns(line: &OutputLine, w: &Widths) -> (c: Columns)
    ensures
        (c.label@, c.byte_order@, c.encoding@) == creation_columns_spec(line@, *w),
{
    let shown = match line.encoding {
        Encoding::Blob => "",
        _ => line.encoding.name(),
    };
    proof {
        reveal_strlit("");
        assert(""@ =~= Seq::<char>::empty());
    }
    Columns {
        label: pad_right(line.algorithm.name(), w.label),
        byte_order: pad_right(line.byte_order.short_name(), w.byte_order).concat("-endian"),
        encoding: pad_right(shown, w.encoding),
    }
}

/// The names of the algorithms of `trials`, in order.
pub open spec fn trial_labels(trials: Seq<Trial>) -> Seq<Seq<char>> {
    Seq::new(trials.len(), |i: int| trials[i].algorithm.name_spec())
}

/// The names of the byte orders of `trials`, in order.
pub open spec fn trial_orders(trials: Seq<Trial>) -> Seq<Seq<char>> {
    Seq::new(trials.len(), |i: int| trials[i].byte_order.name_spec())
}

/// The names of the encodings of `trials`, in order.
pub open spec fn trial_encodings(trials: Seq<Trial>) -> Seq<Seq<char>> {
    Seq::new(trials.len(), |i: int| trials[i].encoding.name_spec())
}

/// The widths for the verdicts of a verification run. When every trial is
/// shown, each column is as wide as its longest entry over all trials; when
/// only the first is shown, each column is as wide as that trial's entry.
pub open spec fn trial_widths_spec(trials: Seq<Trial>, verbose: bool) -> (nat, nat, nat) {
    let counted = if verbose || trials.len() == 0 {
        trials
    } else {
        trials.subrange(0, 1)
    };
    (
        longest(trial_labels(counted)),
        longest(trial_orders(counted)),
        longest(trial_encodings(counted)),
    )
}

/// The widths for the verdicts of a verification run.
pub fn trial_widths(trials: &[VerificationTrial], verbose: bool) -> (w: Widths)
    ensures
        (w.label as nat, w.byte_order as nat, w.encoding as nat) == trial_widths_spec(
            trials_view(trials@),
            verbose,
        ),
{
    let count: usize = if verbose || trials.len() == 0 {
        trials.len()
    } else {
        1
    };
    let ghost counted = trials_view(trials@).subrange(0, count as int);
    let ghost labels = trial_labels(counted);
    let ghost orders = trial_orders(counted);
    let ghost kinds = trial_encodings(counted);
    let mut w = Widths { label: 0, byte_order: 0, encoding: 0 };
    let mut i: usize = 0;
    proof {
        assert(labels.subrange(0, 0) =~= Seq::<Seq<char>>::empty());
        assert(orders.subrange(0, 0) =~= Seq::<Seq<char>>::empty());
        assert(kinds.subrange(0, 0) =~= Seq::<Seq<char>>::empty());
    }
    while i < count
        invariant
            i <= count <= trials@.len(),
            counted == trials_view(trials@).subrange(0, count as int),
            labels == trial_labels(counted),
            orders == trial_orders(counted),
            kinds == trial_encodings(counted),
            w.label == longest(labels.subrange(0, i as int)),
            w.byte_order == longest(orders.subrange(0, i as int)),
            w.encoding == longest(kinds.subrange(0, i as int)),
        decreases count - i,
    {
        proof {
            assert(counted[i as int] == trials@[i as int]@);
            assert(labels.subrange(0, i + 1).drop_last() =~= labels.subrange(0, i as int));
            assert(orders.subrange(0, i + 1).drop_last() =~= orders.subrange(0, i as int));
            assert(kinds.subrange(0, i + 1).drop_last() =~= kinds.subrange(0, i as int));
            assert(labels.subrange(0, i + 1).last() == trials@[i as int].algorithm.name_spec());
            assert(orders.subrange(0, i + 1).last() == trials@[i as int].byte_order.name_spec());
            assert(kinds.subrange(0, i + 1).last() == trials@[i as int].encoding.name_spec());
        }
        let trial = &trials[i];
        let label: usize = trial.algorithm.name().unicode_len();
        let order: usize = trial.byte_order.name().unicode_len();
        let kind: usize = trial.encoding.name().unicode_len();
        if label > w.label {
            w.label = label;
        }
        if order > w.byte_order {
            w.byte_order = order;
        }
        if kind > w.encoding {
            w.encoding = kind;
        }
        i += 1;
    }
    proof {
        assert(labels.subrange(0, count as int) =~= labels);
        assert(orders.subrange(0, count as int) =~= orders);
        assert(kinds.subrange(0, count as int) =~= kinds);
        if verbose || trials@.len() == 0 {
            assert(counted =~= trials_view(trials@));
        }
    }
    w
}

/// The columns of a trial, which are its three names, each padded to its
/// width.
pub open spec fn trial_columns_spec(trial: Trial, w: Widths) -> (Seq<char>, Seq<char>, Seq<char>) {
    (
        padded(trial.algorithm.name_spec(), w.label as nat),
        padded(trial.byte_order.name_spec(), w.byte_order as nat),
        padded(trial.encoding.name_spec(), w.encoding as nat),
    )
}

/// The columns of a trial.
pub fn trial_columns(trial: &VerificationTrial, w: &Widths) -> (c: Columns)
    ensures
        (c.label@, c.byte_order@, c.encoding@) == trial_columns_spec(trial@, *w),
{
    Columns {
        label: pad_right(trial.algorithm.name(), w.label),
        byte_order: pad_right(trial.byte_order.name(), w.byte_order),
        encoding: pad_right(trial.encoding.name(), w.encoding),
    }
}

} // verus!
