use hashify::adapter::DigestAdapter;
use hashify::algorithm::{parse_names, AlgorithmId, Standing};
use hashify::stream::{
    advance, gather, hash_bytes, hash_in_chunks, DigestSet, Progress, ReadEvent, CHUNK_LEN,
};

fn hex(bytes: &[u8]) -> String {
    bytes.iter().map(|b| format!("{:02x}", b)).collect::<Vec<String>>().join("")
}

/// The digest of the empty input under every algorithm.
fn empty_input_vectors() -> Vec<(AlgorithmId, &'static str)> {
    vec![
        (AlgorithmId::Sha3_224, "6b4e03423667dbb73b6e15454f0eb1abd4597f9a1b078e3f5b5a6bc7"),
        (
            AlgorithmId::Sha3_256,
            "a7ffc6f8bf1ed76651c14756a061d662f580ff4de43b49fa82d80a4b80f8434a",
        ),
        (
            AlgorithmId::Sha3_384,
            "0c63a75b845e4f7d01107d852e4c2485c51a50aaaa94fc61995e71bbee983a2ac3713831264adb47fb6bd1e058d5f004",
        ),
        (
            AlgorithmId::Sha3_512,
            "a69f73cca23a9ac5c8b567dc185a756e97c982164fe25859e0d1dcc1475c80a615b2123af1f5f94c11e3e9402c3ac558f500199d95b6d3e301758586281dcd26",
        ),
        (AlgorithmId::Sha2_224, "d14a028c2a3a2bc9476102bb288234c415a2b01f828ea62ac5b3e42f"),
        (
            AlgorithmId::Sha2_256,
            "e3b0c44298fc1c149afbf4c8996fb92427ae41e4649b934ca495991b7852b855",
        ),
        (
            AlgorithmId::Sha2_384,
            "38b060a751ac96384cd9327eb1b1e36a21fdb71114be07434c0cc7bf63f6e1da274edebfe76f65fbd51ad2f14898b95b",
        ),
        (
            AlgorithmId::Sha2_512,
            "cf83e1357eefb8bdf1542850d66d8007d620e4050b5715dc83f4a921d36ce9ce47d0d13c5d85f2b0ff8318d2877eec2f63b931bd47417a81a538327af927da3e",
        ),
        (AlgorithmId::Sha2_512T224, "6ed0dd02806fa89e25de060c19d3ac86cabb87d6a0ddd05c333b84f4"),
        (
            AlgorithmId::Sha2_512T256,
            "c672b8d1ef56ed28ab87c3622c5114069bdd3ad7b8f9737498d0c01ecef0967a",
        ),
        (
            AlgorithmId::Blake2_256,
            "0e5751c026e543b2e8ab2eb06099daa1d1e5df47778f7787faab45cdf12fe3a8",
        ),
        (
            AlgorithmId::Blake2_384,
            "b32811423377f52d7862286ee1a72ee540524380fda1724a6f25d7978c6fd3244a6caf0498812673c5e05ef583825100",
        ),
        (
            AlgorithmId::Blake2_512,
            "786a02f742015903c6c6fd852552d272912f4740e15847618a86e217f71f5419d25e1031afee585313896444934eb04b903a685b1448b755d56f701afe9be2ce",
        ),
        (
            AlgorithmId::Blake3_256,
            "af1349b9f5f9a1a6a0404dea36dcc9499bcb25c9adc112b7cc9a93cae41f3262",
        ),
        (
            AlgorithmId::Blake3_384,
            "af1349b9f5f9a1a6a0404dea36dcc9499bcb25c9adc112b7cc9a93cae41f3262e00f03e7b69af26b7faaf09fcd333050",
        ),
        (
            AlgorithmId::Blake3_512,
            "af1349b9f5f9a1a6a0404dea36dcc9499bcb25c9adc112b7cc9a93cae41f3262e00f03e7b69af26b7faaf09fcd333050338ddfe085b8cc869ca98b206c08243a",
        ),
        (
            AlgorithmId::Whirlpool,
            "19fa61d75522a4669b44e39c1d2e1726c530232130d407f89afee0964997f7a73e83be698b288febcf88e3e03c4f0757ea8964e59b63d93708b138cc42a66eb3",
        ),
        (AlgorithmId::Sha1, "da39a3ee5e6b4b0d3255bfef95601890afd80709"),
        (
            AlgorithmId::Ripemd320,
            "22d65d5661536cdc75c1fdf5c6de7b41b9f27325ebc61e8557177d705a0ec880151c3a32a00899b8",
        ),
        (AlgorithmId::Ripemd160, "9c1185a5c5e9fc54612808977ee8f548b2258d31"),
        (AlgorithmId::Ripemd128, "cdf26213a150dc3ecb610f18f6b38b46"),
        (AlgorithmId::Md5, "d41d8cd98f00b204e9800998ecf8427e"),
    ]
}

#[test]
fn empty_input_gives_the_reference_digest() {
    let vectors = empty_input_vectors();
    assert_eq!(vectors.len(), 22);
    for (algorithm, expected) in vectors {
        let mut adapter = DigestAdapter::new(algorithm);
        assert_eq!(adapter.algorithm(), algorithm);
        let digest = adapter.finalize_reset();
        assert_eq!(hex(&digest), expected, "{}", algorithm.name());
        assert_eq!(digest.len(), algorithm.output_len());
    }
}

#[test]
fn every_algorithm_has_a_vector_and_a_distinct_name() {
    let all = AlgorithmId::all();
    assert_eq!(all.len(), 22);
    let vectors = empty_input_vectors();
    for algorithm in &all {
        assert!(vectors.iter().any(|(a, _)| a == algorithm));
        assert_eq!(AlgorithmId::from_name(algorithm.name()), Some(*algorithm));
    }
    for i in 0..all.len() {
        for j in 0..all.len() {
            if i != j {
                assert_ne!(all[i].name(), all[j].name());
            }
        }
    }
}

#[test]
fn finalize_starts_a_new_computation() {
    for algorithm in AlgorithmId::all() {
        let mut adapter = DigestAdapter::new(algorithm);
        adapter.update(b"abc");
        let first = adapter.finalize_reset();
        adapter.update(b"abc");
        let second = adapter.finalize_reset();
        assert_eq!(first, second);
        let empty = adapter.finalize_reset();
        let mut fresh = DigestAdapter::new(algorithm);
        assert_eq!(empty, fresh.finalize_reset());
        assert_ne!(first, empty);
    }
}

#[test]
fn update_is_order_sensitive_and_splits_freely() {
    for algorithm in AlgorithmId::all() {
        let mut whole = DigestAdapter::new(algorithm);
        whole.update(b"hello world");
        let mut parts = DigestAdapter::new(algorithm);
        parts.update(b"hello");
        parts.update(b"");
        parts.update(b" world");
        let mut swapped = DigestAdapter::new(algorithm);
        swapped.update(b" world");
        swapped.update(b"hello");
        let expected = whole.finalize_reset();
        assert_eq!(parts.finalize_reset(), expected);
        assert_ne!(swapped.finalize_reset(), expected);
    }
}

#[test]
fn published_vectors_for_abc() {
    let results = hash_bytes(
        b"abc",
        &[AlgorithmId::Sha2_256, AlgorithmId::Md5, AlgorithmId::Sha2_512],
    );
    assert_eq!(results.len(), 3);
    assert_eq!(results[0].algorithm, AlgorithmId::Sha2_256);
    assert_eq!(
        hex(&results[0].bytes),
        "ba7816bf8f01cfea414140de5dae2223b00361a396177a9cb410ff61f20015ad"
    );
    assert_eq!(results[1].algorithm, AlgorithmId::Md5);
    assert_eq!(hex(&results[1].bytes), "900150983cd24fb0d6963f7d28e17f72");
    assert_eq!(results[2].algorithm, AlgorithmId::Sha2_512);
    assert_eq!(
        hex(&results[2].bytes),
        "ddaf35a193617abacc417349ae20413112e6fa4e89a97ea20a9eeee64b55d39a2192992a274fc1a836ba3c23a3feebbd454d4423643ce80e2a9ac94fa54ca49f"
    );
}

#[test]
fn blake3_widths_are_prefixes_of_one_output() {
    let results = hash_bytes(
        b"some input",
        &[AlgorithmId::Blake3_256, AlgorithmId::Blake3_384, AlgorithmId::Blake3_512],
    );
    assert_eq!(results[0].bytes.len(), 32);
    assert_eq!(results[1].bytes.len(), 48);
    assert_eq!(results[2].bytes.len(), 64);
    assert_eq!(results[0].bytes[..], results[2].bytes[..32]);
    assert_eq!(results[1].bytes[..], results[2].bytes[..48]);
}

#[test]
fn shared_pass_agrees_with_each_algorithm_alone() {
    let input: Vec<u8> = (0..100_000u32).map(|i| (i % 251) as u8).collect();
    let all = AlgorithmId::all();
    let together = hash_bytes(&input, &all);
    assert_eq!(together.len(), all.len());
    for (i, algorithm) in all.iter().enumerate() {
        let alone = hash_bytes(&input, &[*algorithm]);
        assert_eq!(alone.len(), 1);
        assert_eq!(together[i].algorithm, *algorithm);
        assert_eq!(together[i].bytes, alone[0].bytes);
        assert_eq!(together[i].bytes.len(), algorithm.output_len());
    }
}

#[test]
fn chunk_size_does_not_change_digests() {
    let input: Vec<u8> = (0..5000u32).map(|i| (i * 7 % 256) as u8).collect();
    let algorithms = [AlgorithmId::Sha3_256, AlgorithmId::Blake3_384, AlgorithmId::Ripemd160];
    let reference = hash_in_chunks(&input, CHUNK_LEN, &algorithms);
    for chunk_len in [1usize, 2, 3, 64, 4999, 5000, 5001, usize::MAX] {
        let other = hash_in_chunks(&input, chunk_len, &algorithms);
        assert_eq!(other.len(), reference.len());
        for i in 0..reference.len() {
            assert_eq!(other[i].algorithm, reference[i].algorithm);
            assert_eq!(other[i].bytes, reference[i].bytes);
        }
    }
}

#[test]
fn no_algorithms_give_no_digests() {
    assert!(hash_bytes(b"abc", &[]).is_empty());
    let mut set = DigestSet::new(&[]);
    assert_eq!(set.len(), 0);
    set.update(b"abc");
    assert!(set.finalize().is_empty());
}

#[test]
fn a_repeated_algorithm_is_computed_for_each_request() {
    let results = hash_bytes(b"abc", &[AlgorithmId::Md5, AlgorithmId::Md5]);
    assert_eq!(results.len(), 2);
    assert_eq!(results[0].bytes, results[1].bytes);
}

#[test]
fn advance_feeds_then_finishes() {
    let algorithms = [AlgorithmId::Sha2_256, AlgorithmId::Blake2_256];
    let mut set = DigestSet::new(&algorithms);
    assert_eq!(set.len(), 2);
    assert!(matches!(advance(&mut set, ReadEvent::Chunk(b"he")), Progress::NeedInput));
    assert!(matches!(advance(&mut set, ReadEvent::Chunk(b"llo")), Progress::NeedInput));
    let expected = hash_bytes(b"hello", &algorithms);
    match advance(&mut set, ReadEvent::Chunk(b"")) {
        Progress::Done(results) => {
            assert_eq!(results.len(), 2);
            assert_eq!(
                hex(&results[0].bytes),
                "2cf24dba5fb0a30e26e83b2ac5b9e29e1b161e5c1fa7425e73043362938b9824"
            );
            assert_eq!(results[0].bytes, expected[0].bytes);
            assert_eq!(results[1].bytes, expected[1].bytes);
        }
        _ => panic!("the end of the input finishes the run"),
    }
    // The set is ready for the next input.
    assert!(matches!(advance(&mut set, ReadEvent::Chunk(b"abc")), Progress::NeedInput));
    match advance(&mut set, ReadEvent::Chunk(b"")) {
        Progress::Done(results) => assert_eq!(
            hex(&results[0].bytes),
            "ba7816bf8f01cfea414140de5dae2223b00361a396177a9cb410ff61f20015ad"
        ),
        _ => panic!("the end of the input finishes the run"),
    }
}

#[test]
fn a_failed_read_hands_out_no_digest() {
    let mut set = DigestSet::new(&[AlgorithmId::Sha2_256]);
    assert!(matches!(advance(&mut set, ReadEvent::Chunk(b"partial")), Progress::NeedInput));
    match advance(&mut set, ReadEvent::Failed("disk on fire".to_string())) {
        Progress::Aborted(reason) => assert_eq!(reason, "disk on fire"),
        _ => panic!("a failed read aborts the run"),
    }
    // What was absorbed before the failure is gone.
    match advance(&mut set, ReadEvent::Chunk(b"")) {
        Progress::Done(results) => assert_eq!(
            hex(&results[0].bytes),
            "e3b0c44298fc1c149afbf4c8996fb92427ae41e4649b934ca495991b7852b855"
        ),
        _ => panic!("the end of the input finishes the run"),
    }
}

#[test]
fn gather_collects_until_the_input_ends() {
    let mut collected = Vec::new();
    assert!(gather(&mut collected, ReadEvent::Chunk(b"ab")));
    assert!(gather(&mut collected, ReadEvent::Chunk(b"c")));
    assert!(!gather(&mut collected, ReadEvent::Chunk(b"")));
    assert_eq!(collected, b"abc");
    assert!(!gather(&mut collected, ReadEvent::Failed("gone".to_string())));
    assert_eq!(collected, b"abc");
}

#[test]
fn names_lengths_and_standing() {
    assert_eq!(AlgorithmId::Sha2_512T256.name(), "sha2-512-t256");
    assert_eq!(AlgorithmId::Blake3_384.name(), "blake3-384");
    assert_eq!(AlgorithmId::Whirlpool.output_len(), 64);
    assert_eq!(AlgorithmId::Ripemd320.output_len(), 40);
    assert_eq!(AlgorithmId::Sha2_512T224.output_len(), 28);
    assert_eq!(AlgorithmId::Md5.standing(), Standing::Broken);
    assert_eq!(AlgorithmId::Sha1.standing(), Standing::Legacy);
    assert_eq!(AlgorithmId::Ripemd128.standing(), Standing::Legacy);
    assert_eq!(AlgorithmId::Ripemd160.standing(), Standing::Legacy);
    assert_eq!(AlgorithmId::Ripemd320.standing(), Standing::Legacy);
    assert_eq!(AlgorithmId::Whirlpool.standing(), Standing::Current);
    assert_eq!(AlgorithmId::Sha3_256.standing(), Standing::Current);
    assert_eq!(AlgorithmId::from_name("sha-256"), None);
    assert_eq!(AlgorithmId::from_name(""), None);
    assert_eq!(AlgorithmId::from_name("MD5"), None);
}

#[test]
fn parse_names_keeps_order_and_reports_the_first_unknown() {
    assert_eq!(
        parse_names(&["md5", "sha3-256", "md5"]),
        Ok(vec![AlgorithmId::Md5, AlgorithmId::Sha3_256, AlgorithmId::Md5])
    );
    assert_eq!(parse_names(&[]), Ok(vec![]));
    assert_eq!(
        parse_names(&["md5", "crc32", "sha3-256", "adler"]),
        Err("Unrecognized checksum \"crc32]\"".to_string())
    );
}
