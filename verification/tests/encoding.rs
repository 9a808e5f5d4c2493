use hashify::encoding::{parse_encodings, Encoder, Encoding};
use rand::RngCore;

/// Sixty-four random bytes. A numeral drops leading zero bytes, so a buffer
/// that starts with a zero byte is drawn again.
fn random_buffer() -> Vec<u8> {
    let mut rng = rand::thread_rng();
    let mut buffer = vec![0u8; 64];
    rng.fill_bytes(buffer.as_mut_slice());
    while buffer[0] == 0 {
        rng.fill_bytes(buffer.as_mut_slice());
    }
    buffer
}

#[test]
fn encode_decode() {
    let buffer = random_buffer();

    let res = Encoding::encode(&buffer, Encoding::Blob).into_vec();
    assert_eq!(buffer, res);

    for v in Encoding::values()[1..].iter() {
        let res = Encoding::encode(&buffer, *v).into_string();
        assert_eq!(buffer, Encoding::decode(&res, *v).unwrap());
    }
}

#[test]
fn macros() {
    let buffer = random_buffer();

    for v in Encoding::values()[1..].iter() {
        let by_name = Encoding::parse(&v.to_string()).unwrap();
        let res = Encoding::encode(&buffer, by_name).into_string();
        assert_eq!(buffer, Encoding::decode(&res, by_name).unwrap());
        let res = Encoding::encode(&buffer, *v).into_string();
        assert_eq!(buffer, Encoding::decode(&res, *v).unwrap());
    }
}

#[test]
fn recode() {
    let buffer = random_buffer();
    let encodings = Encoding::values();

    for i in 1..(encodings.len() - 1) {
        for j in 2..(encodings.len()) {
            let res = Encoding::encode(&buffer, encodings[i]).into_string();
            let c = Encoding::recode(&res, encodings[i], encodings[j]).unwrap();
            assert_eq!(buffer, Encoding::decode(&c, encodings[j]).unwrap());
        }
    }
}

#[test]
fn encoder_new_is_encode() {
    let data = [0xde_u8, 0xad, 0xbe, 0xef];
    assert_eq!(Encoder::new(&data, Encoding::LowHex).into_string(), "deadbeef");
    assert_eq!(Encoding::encode(&data, Encoding::UpHex).into_string(), "DEADBEEF");
}

#[test]
fn known_text_of_hello_world() {
    let data = b"hello world";
    let expected = [
        (Encoding::Blob, "hello world"),
        (
            Encoding::Binary,
            "110100001100101011011000110110001101111001000000111011101101111011100100110110001100100",
        ),
        (Encoding::Base10, "126207244316550804821666916"),
        (Encoding::Base58, "StV1DL6CwTryKyV"),
        (Encoding::Base62, "AAwf93rvy4aWQVw"),
        (Encoding::Base64, "aGVsbG8gd29ybGQ="),
        (Encoding::Base64Url, "aGVsbG8gd29ybGQ"),
        (Encoding::BitCoin, "StV1DL6CwTryKyV"),
        (Encoding::Flickr, "rTu1dk6cWsRYjYu"),
        (Encoding::LowHex, "68656c6c6f20776f726c64"),
        (Encoding::Monero, "StV1DL6CwTryKyV"),
        (Encoding::Ripple, "StVrDLaUATiyKyV"),
        (Encoding::UpHex, "68656C6C6F20776F726C64"),
    ];
    assert_eq!(expected.len(), Encoding::values().len());
    for (kind, text) in expected {
        assert_eq!(Encoding::encode(data, kind).into_string(), text, "{}", kind.to_string());
        assert_eq!(Encoding::decode(text, kind).unwrap(), data, "{}", kind.to_string());
    }
}

#[test]
fn into_vec_is_the_text_as_bytes_except_for_blob() {
    let data = [0xff_u8, 0x00, 0x80];
    assert_eq!(Encoding::encode(&data, Encoding::Blob).into_vec(), data);
    assert_eq!(Encoding::encode(&data, Encoding::LowHex).into_vec(), b"ff0080");
    assert_eq!(Encoding::encode(&data, Encoding::Base64).into_vec(), b"/wCA");
    assert_eq!(Encoding::encode(&data, Encoding::Base64Url).into_vec(), b"_wCA");
}

#[test]
fn blob_text_of_bytes_that_are_no_text() {
    let data = [b'a', 0xff, b'b'];
    assert_eq!(Encoding::encode(&data, Encoding::Blob).into_string(), "a\u{fffd}b");
    assert_eq!(Encoding::decode("a\u{e9}", Encoding::Blob).unwrap(), vec![b'a', 0xc3, 0xa9]);
}

#[test]
fn base64_alphabets_differ_where_they_should() {
    let data = [0xfb_u8, 0xff, 0xfe];
    assert_eq!(Encoding::encode(&data, Encoding::Base64).into_string(), "+//+");
    assert_eq!(Encoding::encode(&data, Encoding::Base64Url).into_string(), "-__-");
    assert_eq!(Encoding::decode("+//+", Encoding::Base64).unwrap(), data);
    assert_eq!(Encoding::decode("-__-", Encoding::Base64Url).unwrap(), data);
    assert!(Encoding::decode("-__-", Encoding::Base64).is_err());
    assert!(Encoding::decode("+//+", Encoding::Base64Url).is_err());
}

#[test]
fn leading_zero_bytes() {
    let data = [0u8, 0, 1, 2, 3];
    assert_eq!(Encoding::encode(&data, Encoding::Base58).into_string(), "11Ldp");
    assert_eq!(Encoding::decode("11Ldp", Encoding::Base58).unwrap(), data);
    assert_eq!(Encoding::encode(&data, Encoding::Base62).into_string(), "00HBL");
    assert_eq!(Encoding::decode("00HBL", Encoding::Base62).unwrap(), data);
    assert_eq!(Encoding::encode(&data, Encoding::LowHex).into_string(), "0000010203");
    assert_eq!(Encoding::decode("0000010203", Encoding::UpHex).unwrap(), data);
    // A numeral keeps no leading zeros.
    assert_eq!(Encoding::encode(&data, Encoding::Base10).into_string(), "66051");
    assert_eq!(Encoding::decode("66051", Encoding::Base10).unwrap(), vec![1u8, 2, 3]);
    assert_eq!(Encoding::encode(&data, Encoding::Binary).into_string(), "10000001000000011");
    assert_eq!(Encoding::decode("10000001000000011", Encoding::Binary).unwrap(), vec![1u8, 2, 3]);
}

#[test]
fn the_empty_sequence() {
    let empty: [u8; 0] = [];
    for kind in Encoding::values() {
        let text = Encoding::encode(&empty, kind).into_string();
        match kind {
            Encoding::Binary | Encoding::Base10 => {
                assert_eq!(text, "0");
                assert_eq!(Encoding::decode(&text, kind).unwrap(), vec![0u8]);
            }
            _ => {
                assert_eq!(text, "");
                assert_eq!(Encoding::decode(&text, kind).unwrap(), empty);
            }
        }
    }
    assert_eq!(Encoding::encode(&empty, Encoding::Blob).into_vec(), empty);
}

#[test]
fn numerals_accept_a_sign_and_underscores() {
    assert_eq!(Encoding::decode("+256", Encoding::Base10).unwrap(), vec![1u8, 0]);
    assert_eq!(Encoding::decode("2_5_6", Encoding::Base10).unwrap(), vec![1u8, 0]);
    assert_eq!(Encoding::decode("0", Encoding::Base10).unwrap(), vec![0u8]);
    assert_eq!(Encoding::decode("000255", Encoding::Base10).unwrap(), vec![255u8]);
    assert_eq!(Encoding::decode("+1_0000_0000", Encoding::Binary).unwrap(), vec![1u8, 0]);
    for text in ["", "+", "++1", "_1", "+_1", "12a", "-1", " 1", "1 "] {
        assert_eq!(
            Encoding::decode(text, Encoding::Base10),
            Err("Unable to convert from base10".to_string()),
            "{:?}",
            text
        );
    }
    for text in ["", "2", "10b", "0x1"] {
        assert_eq!(
            Encoding::decode(text, Encoding::Binary),
            Err("Unable to convert from binary".to_string()),
            "{:?}",
            text
        );
    }
}

#[test]
fn hexadecimal_accepts_both_cases_and_rejects_the_rest() {
    assert_eq!(Encoding::decode("f9B4Ca", Encoding::LowHex).unwrap(), vec![0xf9u8, 0xb4, 0xca]);
    assert_eq!(Encoding::decode("f9B4Ca", Encoding::UpHex).unwrap(), vec![0xf9u8, 0xb4, 0xca]);
    assert_eq!(Encoding::decode("", Encoding::LowHex).unwrap(), Vec::<u8>::new());
    assert!(Encoding::decode("abc", Encoding::LowHex).is_err());
    assert!(Encoding::decode("zz", Encoding::LowHex).is_err());
    assert!(Encoding::decode("a\u{e9}", Encoding::LowHex).is_err());
    assert!(Encoding::decode("\u{e9}", Encoding::LowHex).is_err());
}

#[test]
fn text_outside_the_alphabet_is_rejected() {
    assert!(Encoding::decode("0OIl", Encoding::Base58).is_err());
    assert!(Encoding::decode("0OIl", Encoding::BitCoin).is_err());
    assert!(Encoding::decode("0OIl", Encoding::Monero).is_err());
    assert!(Encoding::decode("0OIl", Encoding::Flickr).is_err());
    assert!(Encoding::decode("0OIl", Encoding::Ripple).is_err());
    assert!(Encoding::decode("a-b", Encoding::Base62).is_err());
    assert!(Encoding::decode("a", Encoding::Base64).is_err());
    assert!(Encoding::decode("a", Encoding::Base64Url).is_err());
}

#[test]
fn parse_knows_every_name_and_short_form() {
    let names = [
        ("blob", Encoding::Blob),
        ("bin", Encoding::Binary),
        ("binary", Encoding::Binary),
        ("bs10", Encoding::Base10),
        ("base10", Encoding::Base10),
        ("bs58", Encoding::Base58),
        ("base58", Encoding::Base58),
        ("btc", Encoding::BitCoin),
        ("bitcoin", Encoding::BitCoin),
        ("bs62", Encoding::Base62),
        ("base62", Encoding::Base62),
        ("bs64", Encoding::Base64),
        ("base64", Encoding::Base64),
        ("bs64u", Encoding::Base64Url),
        ("base64url", Encoding::Base64Url),
        ("fkr", Encoding::Flickr),
        ("flickr", Encoding::Flickr),
        ("lowhex", Encoding::LowHex),
        ("hex", Encoding::LowHex),
        ("xmr", Encoding::Monero),
        ("monero", Encoding::Monero),
        ("xrp", Encoding::Ripple),
        ("ripple", Encoding::Ripple),
        ("uhx", Encoding::UpHex),
        ("uphex", Encoding::UpHex),
    ];
    for (name, kind) in names {
        assert_eq!(Encoding::parse(name), Ok(kind));
    }
    assert_eq!(Encoding::parse("base32"), Err("Unknown encoding: base32".to_string()));
    assert_eq!(Encoding::parse(""), Err("Unknown encoding: ".to_string()));
    assert_eq!(Encoding::parse("HEX"), Err("Unknown encoding: HEX".to_string()));
}

#[test]
fn canonical_names() {
    let names: Vec<String> = Encoding::values().iter().map(|e| e.to_string()).collect();
    assert_eq!(
        names,
        [
            "blob", "binary", "base10", "base58", "base62", "base64", "base64url", "bitcoin",
            "flickr", "hex", "monero", "ripple", "uphex"
        ]
    );
    for kind in Encoding::values() {
        assert_eq!(kind.name(), kind.to_string());
        assert_eq!(Encoding::parse(kind.name()), Ok(kind));
    }
}

#[test]
fn parse_encodings_reports_the_first_unknown() {
    assert_eq!(
        parse_encodings(&["hex", "bs64", "hex"]),
        Ok(vec![Encoding::LowHex, Encoding::Base64, Encoding::LowHex])
    );
    assert_eq!(parse_encodings(&[]), Ok(vec![]));
    assert_eq!(
        parse_encodings(&["hex", "rot13", "base32"]),
        Err("Unknown encoding: rot13".to_string())
    );
}

#[test]
fn recode_blob_to_blob_hands_the_text_on() {
    assert_eq!(Encoding::recode("any text \u{e9}", Encoding::Blob, Encoding::Blob).unwrap(), "any text \u{e9}");
    assert_eq!(Encoding::recode("hello world", Encoding::Blob, Encoding::LowHex).unwrap(), "68656c6c6f20776f726c64");
    assert_eq!(Encoding::recode("68656c6c6f20776f726c64", Encoding::LowHex, Encoding::Blob).unwrap(), "hello world");
    assert_eq!(Encoding::recode("aGVsbG8gd29ybGQ=", Encoding::Base64, Encoding::Base58).unwrap(), "StV1DL6CwTryKyV");
    assert!(Encoding::recode("not hex", Encoding::LowHex, Encoding::Base64).is_err());
}

#[test]
fn recode_bytes_wants_text() {
    assert_eq!(
        Encoding::recode_bytes(b"68656c6c6f", Encoding::LowHex, Encoding::Blob).unwrap(),
        "hello"
    );
    assert_eq!(
        Encoding::recode_bytes(&[0xff, 0xfe], Encoding::Blob, Encoding::LowHex),
        Err("Input cannot be read properly".to_string())
    );
}
