use hashify::algorithm::AlgorithmId;
use hashify::checksum::{
    infer_algorithms, infer_for_length, resolve_candidates, resolve_checksum, select_algorithms,
    EncodedChecksum,
};
use hashify::encoding::Encoding;
use hashify::matcher::{
    all_trials, match_checksums, orders_in_scope, parse_orders, presented, rank, ByteOrder,
    Verdict, VerificationTrial,
};
use hashify::stream::{hash_bytes, DigestResult};
use hashify::verification::{judge, plan_verification, verify};

const SHA256_ABC: &str = "ba7816bf8f01cfea414140de5dae2223b00361a396177a9cb410ff61f20015ad";
const SHA256_ABC_REVERSED: &str =
    "ad1500f261ff10b49c7a1796a36103b02322ae5dde404141eacf018fbf1678ba";

fn kinds(candidates: &[EncodedChecksum]) -> Vec<Encoding> {
    candidates.iter().map(|c| c.encoding).collect()
}

fn digest(algorithm: AlgorithmId, bytes: &[u8]) -> DigestResult {
    DigestResult { algorithm, bytes: bytes.to_vec() }
}

fn candidate(encoding: Encoding, bytes: &[u8]) -> EncodedChecksum {
    EncodedChecksum { encoding, bytes: bytes.to_vec() }
}

fn summary(trials: &[VerificationTrial]) -> Vec<(AlgorithmId, ByteOrder, Encoding, Verdict)> {
    trials.iter().map(|t| (t.algorithm, t.byte_order, t.encoding, t.verdict)).collect()
}

#[test]
fn inference_by_length() {
    assert_eq!(infer_for_length(16), [AlgorithmId::Ripemd128, AlgorithmId::Md5]);
    assert_eq!(infer_for_length(20), [AlgorithmId::Sha1, AlgorithmId::Ripemd160]);
    assert_eq!(
        infer_for_length(28),
        [AlgorithmId::Sha2_224, AlgorithmId::Sha2_512T224, AlgorithmId::Sha3_224]
    );
    assert_eq!(
        infer_for_length(32),
        [
            AlgorithmId::Sha2_256,
            AlgorithmId::Sha2_512T256,
            AlgorithmId::Blake2_256,
            AlgorithmId::Sha3_256,
            AlgorithmId::Blake3_256
        ]
    );
    assert_eq!(infer_for_length(40), [AlgorithmId::Ripemd320]);
    assert_eq!(
        infer_for_length(48),
        [
            AlgorithmId::Sha2_384,
            AlgorithmId::Sha3_384,
            AlgorithmId::Blake2_384,
            AlgorithmId::Blake3_384
        ]
    );
    assert_eq!(
        infer_for_length(64),
        [
            AlgorithmId::Sha2_512,
            AlgorithmId::Sha3_512,
            AlgorithmId::Blake2_512,
            AlgorithmId::Blake3_512,
            AlgorithmId::Whirlpool
        ]
    );
}

#[test]
fn inference_is_exact_for_every_length() {
    let all = AlgorithmId::all();
    let mut listed = 0;
    for len in 0..200usize {
        let found = infer_for_length(len);
        for algorithm in &all {
            assert_eq!(found.contains(algorithm), algorithm.output_len() == len);
        }
        for i in 0..found.len() {
            for j in 0..i {
                assert_ne!(found[i], found[j]);
            }
        }
        listed += found.len();
    }
    assert_eq!(listed, all.len());
    assert!(infer_for_length(0).is_empty());
    assert!(infer_for_length(33).is_empty());
    assert!(infer_for_length(usize::MAX).is_empty());
}

#[test]
fn inference_looks_each_length_up_once() {
    let candidates = vec![
        candidate(Encoding::Blob, &[0u8; 40]),
        candidate(Encoding::LowHex, &[1u8; 20]),
        candidate(Encoding::UpHex, &[2u8; 20]),
        candidate(Encoding::Base64, &[3u8; 7]),
        candidate(Encoding::Base62, &[4u8; 40]),
        candidate(Encoding::Base58, &[5u8; 16]),
    ];
    assert_eq!(
        infer_algorithms(&candidates),
        [
            AlgorithmId::Ripemd320,
            AlgorithmId::Sha1,
            AlgorithmId::Ripemd160,
            AlgorithmId::Ripemd128,
            AlgorithmId::Md5
        ]
    );
    assert!(infer_algorithms(&[]).is_empty());
}

#[test]
fn select_prefers_requested_names() {
    let candidates = vec![candidate(Encoding::LowHex, &[0u8; 16])];
    assert_eq!(
        select_algorithms(&["sha3-512"], &candidates),
        Ok(vec![AlgorithmId::Sha3_512])
    );
    assert_eq!(
        select_algorithms(&[], &candidates),
        Ok(vec![AlgorithmId::Ripemd128, AlgorithmId::Md5])
    );
    assert_eq!(
        select_algorithms(&[], &[candidate(Encoding::LowHex, &[0u8; 5])]),
        Err("Unknown checksum length".to_string())
    );
    assert_eq!(
        select_algorithms(&["sha4"], &candidates),
        Err("Unrecognized checksum \"sha4]\"".to_string())
    );
}

#[test]
fn a_hexadecimal_checksum_has_several_readings() {
    let candidates = resolve_candidates(SHA256_ABC, SHA256_ABC.as_bytes(), None).unwrap();
    assert_eq!(
        kinds(&candidates),
        [
            Encoding::Blob,
            Encoding::Base62,
            Encoding::Base64,
            Encoding::Base64Url,
            Encoding::LowHex,
            Encoding::UpHex
        ]
    );
    assert_eq!(candidates[0].bytes, SHA256_ABC.as_bytes());
    assert_eq!(candidates[1].bytes.len(), 48);
    assert_eq!(candidates[2].bytes.len(), 48);
    assert_eq!(candidates[4].bytes.len(), 32);
    assert_eq!(candidates[4].bytes, candidates[5].bytes);
    assert_eq!(candidates[4].bytes[..4], [0xba, 0x78, 0x16, 0xbf]);
}

#[test]
fn a_pinned_encoding_gives_one_reading_or_fails() {
    let one = resolve_candidates("ff00", b"ff00", Some(Encoding::LowHex)).unwrap();
    assert_eq!(kinds(&one), [Encoding::LowHex]);
    assert_eq!(one[0].bytes, [0xff, 0x00]);

    let blob = resolve_candidates("ff00", b"raw!", Some(Encoding::Blob)).unwrap();
    assert_eq!(kinds(&blob), [Encoding::Blob]);
    assert_eq!(blob[0].bytes, b"raw!");

    assert!(resolve_candidates("not hex", b"not hex", Some(Encoding::LowHex)).is_err());
    assert_eq!(
        resolve_candidates("12x", b"12x", Some(Encoding::Base10)).err(),
        Some("Unable to convert from base10".to_string())
    );
}

#[test]
fn text_that_only_a_blob_accepts() {
    let candidates = resolve_candidates("# !", b"# !", None).unwrap();
    assert_eq!(kinds(&candidates), [Encoding::Blob]);
    assert_eq!(candidates[0].bytes, b"# !");
}

#[test]
fn a_checksum_must_be_text() {
    assert_eq!(
        resolve_checksum(&[0xff, 0xfe], None).err(),
        Some("Checksum cannot be read properly".to_string())
    );
    assert_eq!(
        resolve_checksum(&[0xff, 0xfe], Some(Encoding::Blob)).err(),
        Some("Checksum cannot be read properly".to_string())
    );
    let candidates = resolve_checksum(b"ff", Some(Encoding::UpHex)).unwrap();
    assert_eq!(candidates[0].bytes, [0xff]);
}

#[test]
fn byte_orders_in_scope() {
    assert_eq!(orders_in_scope(None), [ByteOrder::BigEndian, ByteOrder::LittleEndian]);
    assert_eq!(orders_in_scope(Some(ByteOrder::LittleEndian)), [ByteOrder::LittleEndian]);
    assert_eq!(orders_in_scope(Some(ByteOrder::BigEndian)), [ByteOrder::BigEndian]);
    assert_eq!(ByteOrder::parse("big"), Ok(ByteOrder::BigEndian));
    assert_eq!(ByteOrder::parse("little"), Ok(ByteOrder::LittleEndian));
    assert_eq!(
        ByteOrder::parse("middle"),
        Err("Unrecognized byteorder - \"middle\"".to_string())
    );
    assert_eq!(
        parse_orders(&["little", "big", "little"]),
        Ok(vec![ByteOrder::LittleEndian, ByteOrder::BigEndian, ByteOrder::LittleEndian])
    );
    assert_eq!(
        parse_orders(&["little", "pdp", "vax"]),
        Err("Unrecognized byteorder - \"pdp\"".to_string())
    );
    assert_eq!(ByteOrder::BigEndian.name(), "big-endian");
    assert_eq!(ByteOrder::LittleEndian.name(), "little-endian");
    assert_eq!(ByteOrder::BigEndian.short_name(), "big");
    assert_eq!(ByteOrder::LittleEndian.short_name(), "little");
    assert_eq!(ByteOrder::BigEndian.apply(&[1, 2, 3]), [1, 2, 3]);
    assert_eq!(ByteOrder::LittleEndian.apply(&[1, 2, 3]), [3, 2, 1]);
    assert_eq!(ByteOrder::LittleEndian.apply(&[]), []);
}

#[test]
fn a_reversed_checksum_passes_in_little_endian_only() {
    let digests = hash_bytes(b"abc", &[AlgorithmId::Sha2_256]);
    let mut reversed = digests[0].bytes.clone();
    reversed.reverse();
    let candidates = vec![candidate(Encoding::LowHex, &reversed)];
    let trials = all_trials(
        &digests,
        &candidates,
        &[ByteOrder::BigEndian, ByteOrder::LittleEndian],
    );
    assert_eq!(
        summary(&trials),
        [
            (AlgorithmId::Sha2_256, ByteOrder::BigEndian, Encoding::LowHex, Verdict::Fail),
            (AlgorithmId::Sha2_256, ByteOrder::LittleEndian, Encoding::LowHex, Verdict::Pass),
        ]
    );
    assert_eq!(trials[1].digest, digests[0].bytes);
    assert_eq!(trials[1].checksum, reversed);
    let ranked = rank(&trials);
    assert_eq!(ranked[0].byte_order, ByteOrder::LittleEndian);
    assert_eq!(ranked[0].verdict, Verdict::Pass);
    assert_eq!(ranked[1].verdict, Verdict::Fail);
}

#[test]
fn a_digest_that_reads_the_same_both_ways_passes_in_both_orders() {
    let digests = vec![digest(AlgorithmId::Md5, &[7u8; 16])];
    let candidates = vec![candidate(Encoding::Blob, &[7u8; 16])];
    let trials = match_checksums(&digests, &candidates, &orders_in_scope(None));
    assert_eq!(trials.len(), 2);
    assert_eq!(trials[0].verdict, Verdict::Pass);
    assert_eq!(trials[1].verdict, Verdict::Pass);
}

#[test]
fn a_pass_needs_the_same_length() {
    let digests = vec![digest(AlgorithmId::Md5, &[1, 2, 3, 4])];
    let candidates = vec![
        candidate(Encoding::LowHex, &[1, 2, 3]),
        candidate(Encoding::UpHex, &[1, 2, 3, 4, 5]),
        candidate(Encoding::Base64, &[]),
        candidate(Encoding::Base62, &[1, 2, 3, 4]),
    ];
    let trials = all_trials(&digests, &candidates, &[ByteOrder::BigEndian]);
    let verdicts: Vec<Verdict> = trials.iter().map(|t| t.verdict).collect();
    assert_eq!(verdicts, [Verdict::Fail, Verdict::Fail, Verdict::Fail, Verdict::Pass]);
}

#[test]
fn trials_come_in_combination_order_and_rank_is_stable() {
    let a = [1u8, 2];
    let b = [2u8, 1];
    let c = [9u8, 9];
    let digests = vec![digest(AlgorithmId::Md5, &a), digest(AlgorithmId::Sha1, &c)];
    let candidates = vec![
        candidate(Encoding::LowHex, &b),
        candidate(Encoding::Base64, &a),
        candidate(Encoding::Blob, &c),
    ];
    let orders = [ByteOrder::BigEndian, ByteOrder::LittleEndian];
    let trials = all_trials(&digests, &candidates, &orders);
    let (md5, sha1) = (AlgorithmId::Md5, AlgorithmId::Sha1);
    let (big, little) = (ByteOrder::BigEndian, ByteOrder::LittleEndian);
    let (hex, base64, blob) = (Encoding::LowHex, Encoding::Base64, Encoding::Blob);
    let (pass, fail) = (Verdict::Pass, Verdict::Fail);
    assert_eq!(
        summary(&trials),
        [
            (md5, big, hex, fail),
            (md5, little, hex, pass),
            (md5, big, base64, pass),
            (md5, little, base64, fail),
            (md5, big, blob, fail),
            (md5, little, blob, fail),
            (sha1, big, hex, fail),
            (sha1, little, hex, fail),
            (sha1, big, base64, fail),
            (sha1, little, base64, fail),
            (sha1, big, blob, pass),
            (sha1, little, blob, pass),
        ]
    );
    let expected = [
        (md5, little, hex, pass),
        (md5, big, base64, pass),
        (sha1, big, blob, pass),
        (sha1, little, blob, pass),
        (md5, big, hex, fail),
        (md5, little, base64, fail),
        (md5, big, blob, fail),
        (md5, little, blob, fail),
        (sha1, big, hex, fail),
        (sha1, little, hex, fail),
        (sha1, big, base64, fail),
        (sha1, little, base64, fail),
    ];
    assert_eq!(summary(&rank(&trials)), expected);
    assert_eq!(summary(&match_checksums(&digests, &candidates, &orders)), expected);

    let only_little = match_checksums(&digests, &candidates, &[little]);
    assert_eq!(only_little.len(), 6);
    assert!(only_little.iter().all(|t| t.byte_order == little));
    assert!(match_checksums(&digests, &candidates, &[]).is_empty());
    assert!(match_checksums(&digests, &[], &orders).is_empty());
    assert!(match_checksums(&[], &candidates, &orders).is_empty());
}

#[test]
fn presented_is_the_first_trial_or_all() {
    let digests = vec![digest(AlgorithmId::Md5, &[1]), digest(AlgorithmId::Sha1, &[2])];
    let candidates = vec![candidate(Encoding::LowHex, &[2])];
    let ranked = match_checksums(&digests, &candidates, &[ByteOrder::BigEndian]);
    assert_eq!(ranked.len(), 2);
    let first = presented(&ranked, false);
    assert_eq!(first.len(), 1);
    assert_eq!(first[0].algorithm, AlgorithmId::Sha1);
    assert_eq!(first[0].verdict, Verdict::Pass);
    assert_eq!(summary(&presented(&ranked, true)), summary(&ranked));
    assert!(presented(&[], false).is_empty());
    assert!(presented(&[], true).is_empty());
}

#[test]
fn a_hexadecimal_checksum_passes_first_although_base62_reads_it_too() {
    let trials = verify(b"abc", SHA256_ABC.as_bytes(), &[], None, None).unwrap();
    // 14 algorithms of 64, 48 and 32 bytes, 6 readings, 2 byte orders.
    assert_eq!(trials.len(), 14 * 6 * 2);
    assert_eq!(
        summary(&trials[..2]),
        [
            (AlgorithmId::Sha2_256, ByteOrder::BigEndian, Encoding::LowHex, Verdict::Pass),
            (AlgorithmId::Sha2_256, ByteOrder::BigEndian, Encoding::UpHex, Verdict::Pass),
        ]
    );
    assert!(trials[2..].iter().all(|t| t.verdict == Verdict::Fail));
    assert!(trials[2..].iter().any(|t| t.encoding == Encoding::Base62));
    assert!(trials[2..]
        .iter()
        .any(|t| t.encoding == Encoding::Base62 && t.algorithm == AlgorithmId::Sha2_256));
    // The trials that fail keep the order in which they were made.
    assert_eq!(
        summary(&trials[2..4]),
        [
            (AlgorithmId::Sha2_512, ByteOrder::BigEndian, Encoding::Blob, Verdict::Fail),
            (AlgorithmId::Sha2_512, ByteOrder::LittleEndian, Encoding::Blob, Verdict::Fail),
        ]
    );
}

#[test]
fn verification_with_everything_pinned() {
    let trials =
        verify(b"abc", SHA256_ABC_REVERSED.as_bytes(), &["sha2-256"], Some("hex"), Some("little"))
            .unwrap();
    assert_eq!(
        summary(&trials),
        [(AlgorithmId::Sha2_256, ByteOrder::LittleEndian, Encoding::LowHex, Verdict::Pass)]
    );
    let trials =
        verify(b"abc", SHA256_ABC_REVERSED.as_bytes(), &["sha2-256"], Some("hex"), Some("big"))
            .unwrap();
    assert_eq!(
        summary(&trials),
        [(AlgorithmId::Sha2_256, ByteOrder::BigEndian, Encoding::LowHex, Verdict::Fail)]
    );
    let trials = verify(b"abd", SHA256_ABC.as_bytes(), &["sha2-256", "md5"], Some("hex"), None)
        .unwrap();
    assert_eq!(trials.len(), 4);
    assert!(trials.iter().all(|t| t.verdict == Verdict::Fail));
    assert_eq!(trials[0].algorithm, AlgorithmId::Sha2_256);
    assert_eq!(trials[3].algorithm, AlgorithmId::Md5);
}

#[test]
fn what_stops_a_verification() {
    assert_eq!(
        verify(b"abc", &[0xc3, 0x28], &[], None, None).err(),
        Some("Checksum cannot be read properly".to_string())
    );
    assert_eq!(
        verify(b"abc", b"abcd", &[], Some("base32"), None).err(),
        Some("Unknown encoding: base32".to_string())
    );
    assert_eq!(
        verify(b"abc", b"zz", &[], Some("hex"), None).err(),
        Some("Invalid character 'z' at position 0".to_string())
    );
    assert_eq!(
        verify(b"abc", b"abc", &[], Some("hex"), None).err(),
        Some("Odd number of digits".to_string())
    );
    assert_eq!(
        verify(b"abc", b"abcd", &[], Some("hex"), None).err(),
        Some("Unknown checksum length".to_string())
    );
    assert_eq!(
        verify(b"abc", b"abcd", &[], None, None).err(),
        Some("Unknown checksum length".to_string())
    );
    assert_eq!(
        verify(b"abc", b"abcd", &["sha2-256", "sha9"], None, None).err(),
        Some("Unrecognized checksum \"sha9]\"".to_string())
    );
    assert_eq!(
        verify(b"abc", b"abcd", &["sha2-256"], None, Some("mixed")).err(),
        Some("Unrecognized byteorder - \"mixed\"".to_string())
    );
    // The order in which the causes are looked at.
    assert_eq!(
        verify(b"abc", &[0xff], &["sha9"], Some("base32"), Some("mixed")).err(),
        Some("Checksum cannot be read properly".to_string())
    );
    assert_eq!(
        verify(b"abc", b"zz", &["sha9"], Some("base32"), Some("mixed")).err(),
        Some("Unknown encoding: base32".to_string())
    );
    assert_eq!(
        verify(b"abc", b"zz", &["sha9"], Some("hex"), Some("mixed")).err(),
        Some("Invalid character 'z' at position 0".to_string())
    );
    assert_eq!(
        verify(b"abc", b"ab", &["sha9"], Some("hex"), Some("mixed")).err(),
        Some("Unrecognized checksum \"sha9]\"".to_string())
    );
}

#[test]
fn a_plan_then_digests_from_elsewhere() {
    let plan = plan_verification(SHA256_ABC.as_bytes(), &[], Some("uphex"), None).unwrap();
    assert_eq!(kinds(&plan.candidates), [Encoding::UpHex]);
    assert_eq!(
        plan.algorithms,
        [
            AlgorithmId::Sha2_256,
            AlgorithmId::Sha2_512T256,
            AlgorithmId::Blake2_256,
            AlgorithmId::Sha3_256,
            AlgorithmId::Blake3_256
        ]
    );
    assert_eq!(plan.orders, [ByteOrder::BigEndian, ByteOrder::LittleEndian]);
    let digests = hash_bytes(b"abc", &plan.algorithms);
    let trials = judge(&plan, &digests);
    assert_eq!(trials.len(), 10);
    assert_eq!(
        summary(&trials[..1]),
        [(AlgorithmId::Sha2_256, ByteOrder::BigEndian, Encoding::UpHex, Verdict::Pass)]
    );
    assert!(trials[1..].iter().all(|t| t.verdict == Verdict::Fail));
    let direct = verify(b"abc", SHA256_ABC.as_bytes(), &[], Some("uphex"), None).unwrap();
    assert_eq!(summary(&direct), summary(&trials));
}

#[test]
fn a_pinned_blob_takes_the_checksum_as_it_is() {
    let trials = verify(b"abc", b"0123456789abcdef", &[], Some("blob"), Some("big")).unwrap();
    assert_eq!(
        summary(&trials),
        [
            (AlgorithmId::Ripemd128, ByteOrder::BigEndian, Encoding::Blob, Verdict::Fail),
            (AlgorithmId::Md5, ByteOrder::BigEndian, Encoding::Blob, Verdict::Fail),
        ]
    );
    assert_eq!(trials[0].checksum, b"0123456789abcdef");
}
