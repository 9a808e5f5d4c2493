use hashify::algorithm::AlgorithmId;
use hashify::creation::create;
use hashify::matcher::Verdict;
use hashify::report::{
    creation_columns, creation_widths, max_len, pad_right, trial_columns, trial_widths, Widths,
};
use hashify::verification::verify;

#[test]
fn padding() {
    assert_eq!(pad_right("ab", 5), "ab   ");
    assert_eq!(pad_right("ab", 2), "ab");
    assert_eq!(pad_right("abcdef", 3), "abcdef");
    assert_eq!(pad_right("", 3), "   ");
    assert_eq!(pad_right("", 0), "");
    assert_eq!(pad_right("\u{e9}t\u{e9}", 4), "\u{e9}t\u{e9} ");
}

#[test]
fn longest_of_a_list() {
    assert_eq!(max_len(&[]), 0);
    assert_eq!(max_len(&["big", "little"]), 6);
    assert_eq!(max_len(&["little", "big"]), 6);
    assert_eq!(max_len(&["hex"]), 3);
    assert_eq!(max_len(&["", ""]), 0);
}

#[test]
fn columns_of_a_digest_run() {
    let types = ["md5", "sha2-512-t256"];
    let orders = ["big", "little"];
    let encodings = ["hex", "blob", "bs64u"];
    let w = creation_widths(&[AlgorithmId::Md5, AlgorithmId::Sha2_512T256], &orders, &encodings);
    assert_eq!(w, Widths { label: 13, byte_order: 6, encoding: 5 });
    let lines = create(b"abc", &types, &orders, &encodings).unwrap();
    assert_eq!(lines.len(), 12);

    let c = creation_columns(&lines[0], &w);
    assert_eq!(c.label, "md5          ");
    assert_eq!(c.byte_order, "big   -endian");
    assert_eq!(c.encoding, "hex  ");

    let c = creation_columns(&lines[1], &w);
    assert_eq!(c.encoding, "     ");

    let c = creation_columns(&lines[2], &w);
    assert_eq!(c.encoding, "base64url");

    let c = creation_columns(&lines[9], &w);
    assert_eq!(c.label, "sha2-512-t256");
    assert_eq!(c.byte_order, "little-endian");
    assert_eq!(c.encoding, "hex  ");

    let none = creation_widths(&[], &[], &[]);
    assert_eq!(none, Widths { label: 0, byte_order: 0, encoding: 0 });
}

#[test]
fn columns_of_a_verification_run() {
    let checksum = b"900150983cd24fb0d6963f7d28e17f72";
    let trials = verify(b"abc", checksum, &["md5", "ripemd128"], None, None).unwrap();
    assert_eq!(trials[0].verdict, Verdict::Pass);
    assert_eq!(Verdict::Pass.name(), "pass");
    assert_eq!(Verdict::Fail.name(), "fail");

    let all = trial_widths(&trials, true);
    assert_eq!(all, Widths { label: 9, byte_order: 13, encoding: 9 });
    let c = trial_columns(&trials[0], &all);
    assert_eq!(c.label, "md5      ");
    assert_eq!(c.byte_order, "big-endian   ");
    assert_eq!(c.encoding, "hex      ");

    let first = trial_widths(&trials, false);
    assert_eq!(first, Widths { label: 3, byte_order: 10, encoding: 3 });
    let c = trial_columns(&trials[0], &first);
    assert_eq!(c.label, "md5");
    assert_eq!(c.byte_order, "big-endian");
    assert_eq!(c.encoding, "hex");

    assert_eq!(trial_widths(&[], true), Widths { label: 0, byte_order: 0, encoding: 0 });
    assert_eq!(trial_widths(&[], false), Widths { label: 0, byte_order: 0, encoding: 0 });
}
