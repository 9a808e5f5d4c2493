use hashify::encoding::Encoding;
use hashify::options::{check_arguments, CommandLineArgs};

#[test]
fn checked_arguments_are_filed_under_their_keys() {
    let args = check_arguments("16", "hex", None).unwrap();
    assert_eq!(args.len(), 2);
    assert_eq!(args[0].0, "bytes");
    assert!(matches!(args[0].1, CommandLineArgs::Bytes(16)));
    assert_eq!(args[1].0, "encoding");
    assert!(matches!(args[1].1, CommandLineArgs::Encoding(Encoding::LowHex)));

    let args = check_arguments("+0032", "bs58", Some(b"seed")).unwrap();
    assert_eq!(args.len(), 3);
    assert!(matches!(args[0].1, CommandLineArgs::Bytes(32)));
    assert!(matches!(args[1].1, CommandLineArgs::Encoding(Encoding::Base58)));
    assert_eq!(args[2].0, "seed");
    match &args[2].1 {
        CommandLineArgs::Seed(seed) => assert_eq!(
            seed.iter().map(|b| format!("{:02x}", b)).collect::<Vec<String>>().join(""),
            "19b25856e1c150ca834cffc8b59b23adbd0ec0389e58eb22b3b64768098d002b"
        ),
        _ => panic!("the third argument is the seed"),
    }
    let keys: Vec<&str> = args.iter().map(|a| a.0).collect();
    let mut sorted = keys.clone();
    sorted.sort();
    assert_eq!(keys, sorted);
}

#[test]
fn what_stops_the_arguments() {
    assert_eq!(
        check_arguments("0", "hex", None).err(),
        Some("Expected argument 'bytes=#' and # must be greater than 0".to_string())
    );
    assert_eq!(
        check_arguments("+000", "hex", None).err(),
        Some("Expected argument 'bytes=#' and # must be greater than 0".to_string())
    );
    assert_eq!(
        check_arguments("many", "hex", None).err(),
        Some("invalid digit found in string".to_string())
    );
    assert_eq!(
        check_arguments("", "hex", None).err(),
        Some("cannot parse integer from empty string".to_string())
    );
    for text in ["+", "-1", "1_0", " 1", "1 ", "++1", "0x10"] {
        assert_eq!(
            check_arguments(text, "hex", None).err(),
            Some("invalid digit found in string".to_string()),
            "{:?}",
            text
        );
    }
    assert_eq!(
        check_arguments("99999999999999999999999999", "hex", None).err(),
        Some("number too large to fit in target type".to_string())
    );
    assert_eq!(
        check_arguments("8", "base32", Some(b"seed")).err(),
        Some("Unknown encoding: base32".to_string())
    );
    assert_eq!(
        check_arguments("zero", "base32", None).err(),
        Some("invalid digit found in string".to_string())
    );
}
