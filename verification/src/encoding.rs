//! Text encodings of byte sequences: how a kind is named, and how bytes
//! become text and text becomes bytes under each kind.

use vstd::prelude::*;
use vstd::string::StringExecFns;
use vstd::string::StrSliceExecFns;
use vstd::utf8::*;
use crate::algorithm::names_view;
use crate::codec::{
    base58_decode_bitcoin, base58_decode_flickr, base58_decode_monero, base58_decode_ripple,
    base58_decoded, base58_encode_bitcoin, base58_encode_flickr, base58_encode_monero,
    base58_encode_ripple, base58_text, base64_decode, base64_decoded, base64_encode, base64_text,
    base64url_decode, base64url_decoded, base64url_encode, base64url_text, basex_decode,
    basex_decoded, basex_encode, basex_text, bitcoin_alphabet, flickr_alphabet, hex_decode,
    hex_encode, hex_encode_upper, hex_failure, radix_decode, radix_encode, ripple_alphabet,
    utf8_lossy, utf8_lossy_text, utf8_text,
};
use crate::numeral::{
    be_value, hex_bytes, hex_text, is_hex, is_numeral, lemma_hex_round_trip,
    lemma_numeral_round_trip, numeral_bytes, radix_text,
};
use crate::text::{copied, str_eq};

verus! {

/// The sixty-two characters of the base-62 encoding, in the order of their
/// digit values.
pub const BASE62: &'static str = "0123456789ABCDEFGHIJKLMNOPQRSTUVWXYZabcdefghijklmnopqrstuvwxyz";

/// A way of writing bytes as text.
#[derive(Debug, Copy, Clone, Eq, PartialEq, Structural, Hash)]
pub enum Encoding {
    Blob,
    Binary,
    Base10,
    Base58,
    Base62,
    Base64,
    Base64Url,
    BitCoin,
    Flickr,
    LowHex,
    Monero,
    Ripple,
    UpHex,
}

/// The text of `data` under `kind`.
pub open spec fn encoded_text(data: Seq<u8>, kind: Encoding) -> Seq<char> {
    match kind {
        Encoding::Blob => if valid_utf8(data) {
            decode_utf8(data)
        } else {
            utf8_lossy_text(data)
        },
        Encoding::Binary => radix_text(be_value(data), 2),
        Encoding::Base10 => radix_text(be_value(data), 10),
        Encoding::Base58 | Encoding::BitCoin | Encoding::Monero => base58_text(
            bitcoin_alphabet(),
            data,
        ),
        Encoding::Base62 => basex_text(BASE62@, data),
        Encoding::Base64 => base64_text(data),
        Encoding::Base64Url => base64url_text(data),
        Encoding::Flickr => base58_text(flickr_alphabet(), data),
        Encoding::LowHex => hex_text(data, false),
        Encoding::Ripple => base58_text(ripple_alphabet(), data),
        Encoding::UpHex => hex_text(data, true),
    }
}

/// The message for text that is no numeral of the kind `kind`.
pub open spec fn unconvertible_message(kind: Encoding) -> Seq<char> {
    "Unable to convert from "@ + kind.name_spec()
}

/// What `text` stands for under `kind`: the bytes, or the reason why it
/// stands for none.
pub open spec fn decoded(text: Seq<char>, kind: Encoding) -> Result<Seq<u8>, Seq<char>> {
    match kind {
        Encoding::Blob => Ok(encode_utf8(text)),
        Encoding::Binary => if is_numeral(text, 2) {
            Ok(numeral_bytes(text, 2))
        } else {
            Err(unconvertible_message(kind))
        },
        Encoding::Base10 => if is_numeral(text, 10) {
            Ok(numeral_bytes(text, 10))
        } else {
            Err(unconvertible_message(kind))
        },
        Encoding::Base58 | Encoding::BitCoin | Encoding::Monero => base58_decoded(
            bitcoin_alphabet(),
            text,
        ),
        Encoding::Base62 => basex_decoded(BASE62@, text),
        Encoding::Base64 => base64_decoded(text),
        Encoding::Base64Url => base64url_decoded(text),
        Encoding::Flickr => base58_decoded(flickr_alphabet(), text),
        Encoding::LowHex | Encoding::UpHex => if is_hex(text) {
            Ok(hex_bytes(text))
        } else {
            Err(hex_failure(text))
        },
        Encoding::Ripple => base58_decoded(ripple_alphabet(), text),
    }
}

/// Whether an executable result is the one that the model `expected` names.
pub open spec fn bytes_result_is(r: Result<Vec<u8>, String>, expected: Result<Seq<u8>, Seq<char>>)
    -> bool {
    match r {
        Ok(bytes) => expected == Ok::<Seq<u8>, Seq<char>>(bytes@),
        Err(reason) => expected == Err::<Seq<u8>, Seq<char>>(reason@),
    }
}

/// Whether an executable result is the one that the model `expected` names.
pub open spec fn text_result_is(r: Result<String, String>, expected: Result<Seq<char>, Seq<char>>)
    -> bool {
    match r {
        Ok(text) => expected == Ok::<Seq<char>, Seq<char>>(text@),
        Err(reason) => expected == Err::<Seq<char>, Seq<char>>(reason@),
    }
}

/// What recoding `text` from `src` to `tgt` gives. Blob to blob hands the
/// text on untouched; everything else decodes, then encodes.
pub open spec fn recoded(text: Seq<char>, src: Encoding, tgt: Encoding) -> Result<
    Seq<char>,
    Seq<char>,
> {
    if src == Encoding::Blob && tgt == Encoding::Blob {
        Ok(text)
    } else {
        match decoded(text, src) {
            Ok(bytes) => Ok(encoded_text(bytes, tgt)),
            Err(reason) => Err(reason),
        }
    }
}

/// The message for input that is not text.
pub open spec fn unreadable_input_message() -> Seq<char> {
    "Input cannot be read properly"@
}

/// What recoding input gives that arrives as raw bytes: the bytes must be
/// UTF-8, and the text they encode is recoded as [`recoded`] says.
pub open spec fn recoded_bytes(input: Seq<u8>, src: Encoding, tgt: Encoding) -> Result<
    Seq<char>,
    Seq<char>,
> {
    if valid_utf8(input) {
        recoded(decode_utf8(input), src, tgt)
    } else {
        Err(unreadable_input_message())
    }
}

/// The message for a name that no encoding carries.
pub open spec fn unknown_encoding_message(name: Seq<char>) -> Seq<char> {
    "Unknown encoding: "@ + name
}

/// The encoding that `name` names, by its canonical name or its short form.
pub open spec fn parsed(name: Seq<char>) -> Option<Encoding> {
    if name == "blob"@ {
        Some(Encoding::Blob)
    } else if name == "bin"@ || name == "binary"@ {
        Some(Encoding::Binary)
    } else if name == "bs10"@ || name == "base10"@ {
        Some(Encoding::Base10)
    } else if name == "bs58"@ || name == "base58"@ {
        Some(Encoding::Base58)
    } else if name == "btc"@ || name == "bitcoin"@ {
        Some(Encoding::BitCoin)
    } else if name == "bs62"@ || name == "base62"@ {
        Some(Encoding::Base62)
    } else if name == "bs64"@ || name == "base64"@ {
        Some(Encoding::Base64)
    } else if name == "bs64u"@ || name == "base64url"@ {
        Some(Encoding::Base64Url)
    } else if name == "fkr"@ || name == "flickr"@ {
        Some(Encoding::Flickr)
    } else if name == "lowhex"@ || name == "hex"@ {
        Some(Encoding::LowHex)
    } else if name == "xmr"@ || name == "monero"@ {
        Some(Encoding::Monero)
    } else if name == "xrp"@ || name == "ripple"@ {
        Some(Encoding::Ripple)
    } else if name == "uhx"@ || name == "uphex"@ {
        Some(Encoding::UpHex)
    } else {
        None
    }
}

impl Encoding {
    /// The canonical name.
    pub open spec fn name_spec(self) -> Seq<char> {
        match self {
            Encoding::Blob => "blob"@,
            Encoding::Binary => "binary"@,
            Encoding::Base10 => "base10"@,
            Encoding::Base58 => "base58"@,
            Encoding::BitCoin => "bitcoin"@,
            Encoding::Base62 => "base62"@,
            Encoding::Base64 => "base64"@,
            Encoding::Base64Url => "base64url"@,
            Encoding::Flickr => "flickr"@,
            Encoding::LowHex => "hex"@,
            Encoding::Monero => "monero"@,
            Encoding::Ripple => "ripple"@,
            Encoding::UpHex => "uphex"@,
        }
    }

    /// Every encoding, in the order in which an unknown text is tried.
    pub open spec fn values_spec() -> Seq<Encoding> {
        seq![
            Encoding::Blob,
            Encoding::Binary,
            Encoding::Base10,
            Encoding::Base58,
            Encoding::Base62,
            Encoding::Base64,
            Encoding::Base64Url,
            Encoding::BitCoin,
            Encoding::Flickr,
            Encoding::LowHex,
            Encoding::Monero,
            Encoding::Ripple,
            Encoding::UpHex,
        ]
    }

    /// The canonical name.
    pub fn name(&self) -> (r: &'static str)
        ensures
            r@ == self.name_spec(),
    {
        match self {
            Encoding::Blob => "blob",
            Encoding::Binary => "binary",
            Encoding::Base10 => "base10",
            Encoding::Base58 => "base58",
            Encoding::BitCoin => "bitcoin",
            Encoding::Base62 => "base62",
            Encoding::Base64 => "base64",
            Encoding::Base64Url => "base64url",
            Encoding::Flickr => "flickr",
            Encoding::LowHex => "hex",
            Encoding::Monero => "monero",
            Encoding::Ripple => "ripple",
            Encoding::UpHex => "uphex",
        }
    }

    /// The canonical name, as an owned string.
    pub fn to_string(&self) -> (r: String)
        ensures
            r@ == self.name_spec(),
    {
        String::from_str(self.name())
    }

    /// The encoding that `s` names, or a message that repeats `s`.
    pub fn parse(s: &str) -> (r: Result<Encoding, String>)
        ensures
            match r {
                Ok(kind) => parsed(s@) == Some(kind),
                Err(message) => parsed(s@) is None && message@ == unknown_encoding_message(s@),
            },
    {
        if str_eq(s, "blob") {
            Ok(Encoding::Blob)
        } else if str_eq(s, "bin") || str_eq(s, "binary") {
            Ok(Encoding::Binary)
        } else if str_eq(s, "bs10") || str_eq(s, "base10") {
            Ok(Encoding::Base10)
        } else if str_eq(s, "bs58") || str_eq(s, "base58") {
            Ok(Encoding::Base58)
        } else if str_eq(s, "btc") || str_eq(s, "bitcoin") {
            Ok(Encoding::BitCoin)
        } else if str_eq(s, "bs62") || str_eq(s, "base62") {
            Ok(Encoding::Base62)
        } else if str_eq(s, "bs64") || str_eq(s, "base64") {
            Ok(Encoding::Base64)
        } else if str_eq(s, "bs64u") || str_eq(s, "base64url") {
            Ok(Encoding::Base64Url)
        } else if str_eq(s, "fkr") || str_eq(s, "flickr") {
            Ok(Encoding::Flickr)
        } else if str_eq(s, "lowhex") || str_eq(s, "hex") {
            Ok(Encoding::LowHex)
        } else if str_eq(s, "xmr") || str_eq(s, "monero") {
            Ok(Encoding::Monero)
        } else if str_eq(s, "xrp") || str_eq(s, "ripple") {
            Ok(Encoding::Ripple)
        } else if str_eq(s, "uhx") || str_eq(s, "uphex") {
            Ok(Encoding::UpHex)
        } else {
            Err(String::from_str("Unknown encoding: ").concat(s))
        }
    }

    /// The bytes that `s` stands for under `src`, or the reason why it stands
    /// for none.
    pub fn decode(s: &str, src: Encoding) -> (r: Result<Vec<u8>, String>)
        ensures
            bytes_result_is(r, decoded(s@, src)),
    {
        match src {
            Encoding::Blob => Ok(s.as_bytes_vec()),
            Encoding::Binary => match radix_decode(s, 2) {
                Some(bytes) => Ok(bytes),
                None => Err(String::from_str("Unable to convert from ").concat(src.name())),
            },
            Encoding::Base10 => match radix_decode(s, 10) {
                Some(bytes) => Ok(bytes),
                None => Err(String::from_str("Unable to convert from ").concat(src.name())),
            },
            Encoding::Base58 | Encoding::BitCoin => base58_decode_bitcoin(s),
            Encoding::Base62 => {
                proof {
                    reveal_strlit("0123456789ABCDEFGHIJKLMNOPQRSTUVWXYZabcdefghijklmnopqrstuvwxyz");
                }
                basex_decode(BASE62, s)
            },
            Encoding::Base64 => base64_decode(s),
            Encoding::Base64Url => base64url_decode(s),
            Encoding::Flickr => base58_decode_flickr(s),
            Encoding::LowHex | Encoding::UpHex => hex_decode(s),
            Encoding::Monero => base58_decode_monero(s),
            Encoding::Ripple => base58_decode_ripple(s),
        }
    }

    /// Pairs bytes with the encoding under which they are to be written.
    pub fn encode<'a>(s: &'a [u8], tgt: Encoding) -> (e: Encoder<'a>)
        ensures
            e.input_spec() == s@,
            e.encoding_spec() == tgt,
    {
        Encoder { input: s, encoding: tgt }
    }

    /// Reads `s` under `src` and writes what it stands for under `tgt`.
    pub fn recode(s: &str, src: Encoding, tgt: Encoding) -> (r: Result<String, String>)
        ensures
            text_result_is(r, recoded(s@, src, tgt)),
    {
        if src == Encoding::Blob && tgt == Encoding::Blob {
            Ok(String::from_str(s))
        } else {
            match Encoding::decode(s, src) {
                Ok(bytes) => Ok(Encoding::encode(bytes.as_slice(), tgt).into_string()),
                Err(reason) => Err(reason),
            }
        }
    }

    /// Reads input that arrives as raw bytes under `src` and writes what it
    /// stands for under `tgt`.
    pub fn recode_bytes(input: &[u8], src: Encoding, tgt: Encoding) -> (r: Result<String, String>)
        ensures
            text_result_is(r, recoded_bytes(input@, src, tgt)),
    {
        match utf8_text(input) {
            Some(text) => Encoding::recode(text.as_str(), src, tgt),
            None => Err(String::from_str("Input cannot be read properly")),
        }
    }

    /// Every encoding, in the order in which an unknown text is tried.
    pub fn values() -> (r: Vec<Encoding>)
        ensures
            r@ == Self::values_spec(),
    {
        let r = vec![
            Encoding::Blob,
            Encoding::Binary,
            Encoding::Base10,
            Encoding::Base58,
            Encoding::Base62,
            Encoding::Base64,
            Encoding::Base64Url,
            Encoding::BitCoin,
            Encoding::Flickr,
            Encoding::LowHex,
            Encoding::Monero,
            Encoding::Ripple,
            Encoding::UpHex,
        ];
        assert(r@ =~= Self::values_spec());
        r
    }
}

/// Bytes together with the encoding under which they are to be written.
#[derive(Debug, Clone, Copy)]
pub struct Encoder<'a> {
    input: &'a [u8],
    encoding: Encoding,
}

impl<'a> Encoder<'a> {
    /// The bytes to be written.
    pub closed spec fn input_spec(&self) -> Seq<u8> {
        self.input@
    }

    /// The encoding under which they are written.
    pub closed spec fn encoding_spec(&self) -> Encoding {
        self.encoding
    }

    /// Pairs bytes with the encoding under which they are to be written.
    pub fn new(input: &'a [u8], encoding: Encoding) -> (e: Encoder<'a>)
        ensures
            e.input_spec() == input@,
            e.encoding_spec() == encoding,
    {
        Encoder { input, encoding }
    }

    /// The text of the bytes under the encoding.
    pub fn into_string(self) -> (text: String)
        ensures
            text@ == encoded_text(self.input_spec(), self.encoding_spec()),
    {
        let s = self.input;
        match self.encoding {
            Encoding::Blob => utf8_lossy(s),
            Encoding::Binary => radix_encode(s, 2),
            Encoding::Base10 => radix_encode(s, 10),
            Encoding::Base58 | Encoding::BitCoin => base58_encode_bitcoin(s),
            Encoding::Base62 => {
                proof {
                    reveal_strlit("0123456789ABCDEFGHIJKLMNOPQRSTUVWXYZabcdefghijklmnopqrstuvwxyz");
                }
                basex_encode(BASE62, s)
            },
            Encoding::Base64 => base64_encode(s),
            Encoding::Base64Url => base64url_encode(s),
            Encoding::Flickr => base58_encode_flickr(s),
            Encoding::LowHex => hex_encode(s),
            Encoding::Monero => base58_encode_monero(s),
            Encoding::Ripple => base58_encode_ripple(s),
            Encoding::UpHex => hex_encode_upper(s),
        }
    }

    /// The bytes themselves for a blob, and for every other encoding the
    /// UTF-8 bytes of the text.
    pub fn into_vec(self) -> (bytes: Vec<u8>)
        ensures
            bytes@ == if self.encoding_spec() == Encoding::Blob {
                self.input_spec()
            } else {
                encode_utf8(encoded_text(self.input_spec(), self.encoding_spec()))
            },
    {
        match self.encoding {
            Encoding::Blob => copied(self.input),
            _ => {
                let text = self.into_string();
                text.as_str().as_bytes_vec()
            },
        }
    }
}

/// Whether `k` is the place of the first name that no encoding carries.
pub open spec fn is_first_unknown_encoding(names: Seq<Seq<char>>, k: int) -> bool {
    &&& 0 <= k < names.len()
    &&& parsed(names[k]) is None
    &&& forall|i: int| 0 <= i < k ==> parsed(#[trigger] names[i]) is Some
}

/// The encodings that a list of names asks for, in order; or, where some
/// name is carried by no encoding, the message for the first such name.
pub open spec fn encodings_named(names: Seq<Seq<char>>) -> Result<Seq<Encoding>, Seq<char>> {
    if forall|i: int| 0 <= i < names.len() ==> parsed(#[trigger] names[i]) is Some {
        Ok(Seq::new(names.len(), |i: int| parsed(names[i]).unwrap()))
    } else {
        Err(unknown_encoding_message(names[choose|k: int| is_first_unknown_encoding(names, k)]))
    }
}

/// Whether an executable result is the one that the model `expected` names.
pub open spec fn encodings_result_is(
    r: Result<Vec<Encoding>, String>,
    expected: Result<Seq<Encoding>, Seq<char>>,
) -> bool {
    match r {
        Ok(kinds) => expected == Ok::<Seq<Encoding>, Seq<char>>(kinds@),
        Err(message) => expected == Err::<Seq<Encoding>, Seq<char>>(message@),
    }
}

/// Resolves requested names to encodings, in order. The first name that no
/// encoding carries is reported and nothing else is returned.
pub fn parse_encodings(names: &[&str]) -> (r: Result<Vec<Encoding>, String>)
    ensures
        encodings_result_is(r, encodings_named(names_view(names@))),
{
    let ghost all = names_view(names@);
    let mut kinds: Vec<Encoding> = Vec::with_capacity(names.len());
    let mut i: usize = 0;
    while i < names.len()
        invariant
            i <= names@.len(),
            all == names_view(names@),
            kinds@.len() == i,
            forall|j: int| 0 <= j < i ==> parsed(#[trigger] all[j]) == Some(kinds@[j]),
        decreases names@.len() - i,
    {
        assert(all[i as int] == names@[i as int]@);
        match Encoding::parse(names[i]) {
            Ok(kind) => {
                kinds.push(kind);
            },
            Err(message) => {
                proof {
                    assert(is_first_unknown_encoding(all, i as int));
                    let k = choose|k: int| is_first_unknown_encoding(all, k);
                    assert(k == i) by {
                        if k < i {
                            assert(parsed(all[k]) is Some);
                        }
                        if k > i {
                            assert(parsed(all[i as int]) is Some);
                        }
                    }
                }
                return Err(message);
            },
        }
        i += 1;
    }
    assert(kinds@ =~= Seq::new(all.len(), |i: int| parsed(all[i]).unwrap()));
    Ok(kinds)
}

/// A few characters of a name that are enough to tell the names of the
/// encodings and their short forms apart.
spec fn name_marks(name: Seq<char>) -> (nat, char, char, char) {
    (name.len(), name[0], name[1], name[name.len() - 1])
}

/// What each canonical name and each short form names.
pub proof fn lemma_parsed_names()
    ensures
        parsed("blob"@) == Some(Encoding::Blob),
        parsed("bin"@) == Some(Encoding::Binary),
        parsed("binary"@) == Some(Encoding::Binary),
        parsed("bs10"@) == Some(Encoding::Base10),
        parsed("base10"@) == Some(Encoding::Base10),
        parsed("bs58"@) == Some(Encoding::Base58),
        parsed("base58"@) == Some(Encoding::Base58),
        parsed("btc"@) == Some(Encoding::BitCoin),
        parsed("bitcoin"@) == Some(Encoding::BitCoin),
        parsed("bs62"@) == Some(Encoding::Base62),
        parsed("base62"@) == Some(Encoding::Base62),
        parsed("bs64"@) == Some(Encoding::Base64),
        parsed("base64"@) == Some(Encoding::Base64),
        parsed("bs64u"@) == Some(Encoding::Base64Url),
        parsed("base64url"@) == Some(Encoding::Base64Url),
        parsed("fkr"@) == Some(Encoding::Flickr),
        parsed("flickr"@) == Some(Encoding::Flickr),
        parsed("lowhex"@) == Some(Encoding::LowHex),
        parsed("hex"@) == Some(Encoding::LowHex),
        parsed("xmr"@) == Some(Encoding::Monero),
        parsed("monero"@) == Some(Encoding::Monero),
        parsed("xrp"@) == Some(Encoding::Ripple),
        parsed("ripple"@) == Some(Encoding::Ripple),
        parsed("uhx"@) == Some(Encoding::UpHex),
        parsed("uphex"@) == Some(Encoding::UpHex),
{
    reveal_strlit("blob");
    reveal_strlit("bin");
    reveal_strlit("binary");
    reveal_strlit("bs10");
    reveal_strlit("base10");
    reveal_strlit("bs58");
    reveal_strlit("base58");
    reveal_strlit("btc");
    reveal_strlit("bitcoin");
    reveal_strlit("bs62");
    reveal_strlit("base62");
    reveal_strlit("bs64");
    reveal_strlit("base64");
    reveal_strlit("bs64u");
    reveal_strlit("base64url");
    reveal_strlit("fkr");
    reveal_strlit("flickr");
    reveal_strlit("lowhex");
    reveal_strlit("hex");
    reveal_strlit("xmr");
    reveal_strlit("monero");
    reveal_strlit("xrp");
    reveal_strlit("ripple");
    reveal_strlit("uhx");
    reveal_strlit("uphex");
    assert(name_marks("blob"@) == (4nat, 'b', 'l', 'b'));
    assert(name_marks("bin"@) == (3nat, 'b', 'i', 'n'));
    assert(name_marks("binary"@) == (6nat, 'b', 'i', 'y'));
    assert(name_marks("bs10"@) == (4nat, 'b', 's', '0'));
    assert(name_marks("base10"@) == (6nat, 'b', 'a', '0'));
    assert(name_marks("bs58"@) == (4nat, 'b', 's', '8'));
    assert(name_marks("base58"@) == (6nat, 'b', 'a', '8'));
    assert(name_marks("btc"@) == (3nat, 'b', 't', 'c'));
    assert(name_marks("bitcoin"@) == (7nat, 'b', 'i', 'n'));
    assert(name_marks("bs62"@) == (4nat, 'b', 's', '2'));
    assert(name_marks("base62"@) == (6nat, 'b', 'a', '2'));
    assert(name_marks("bs64"@) == (4nat, 'b', 's', '4'));
    assert(name_marks("base64"@) == (6nat, 'b', 'a', '4'));
    assert(name_marks("bs64u"@) == (5nat, 'b', 's', 'u'));
    assert(name_marks("base64url"@) == (9nat, 'b', 'a', 'l'));
    assert(name_marks("fkr"@) == (3nat, 'f', 'k', 'r'));
    assert(name_marks("flickr"@) == (6nat, 'f', 'l', 'r'));
    assert(name_marks("lowhex"@) == (6nat, 'l', 'o', 'x'));
    assert(name_marks("hex"@) == (3nat, 'h', 'e', 'x'));
    assert(name_marks("xmr"@) == (3nat, 'x', 'm', 'r'));
    assert(name_marks("monero"@) == (6nat, 'm', 'o', 'o'));
    assert(name_marks("xrp"@) == (3nat, 'x', 'r', 'p'));
    assert(name_marks("ripple"@) == (6nat, 'r', 'i', 'e'));
    assert(name_marks("uhx"@) == (3nat, 'u', 'h', 'x'));
    assert(name_marks("uphex"@) == (5nat, 'u', 'p', 'x'));
}

/// Every encoding is found again under its canonical name.
pub proof fn lemma_parse_of_name(kind: Encoding)
    ensures
        parsed(kind.name_spec()) == Some(kind),
{
    lemma_parsed_names();
}

/// The bytes and encodings for which text is shown here to read back as the
/// bytes it was written from: hexadecimal of either case for all bytes; a
/// blob for bytes that are UTF-8; a numeral for bytes that start with a byte
/// other than zero. For the other encodings the text is what an outside codec
/// gives, and nothing is shown of it here.
pub open spec fn round_trip_shown(data: Seq<u8>, kind: Encoding) -> bool {
    match kind {
        Encoding::LowHex | Encoding::UpHex => true,
        Encoding::Blob => valid_utf8(data),
        Encoding::Binary | Encoding::Base10 => data.len() > 0 && data[0] != 0,
        _ => false,
    }
}

/// Writing bytes as text and reading the text back gives the bytes again,
/// for the bytes and encodings that [`round_trip_shown`] names.
pub proof fn lemma_round_trip(data: Seq<u8>, kind: Encoding)
    requires
        round_trip_shown(data, kind),
    ensures
        decoded(encoded_text(data, kind), kind) == Ok::<Seq<u8>, Seq<char>>(data),
{
    match kind {
        Encoding::LowHex => lemma_hex_round_trip(data, false),
        Encoding::UpHex => lemma_hex_round_trip(data, true),
        Encoding::Blob => decode_utf8_encode_utf8(data),
        Encoding::Binary => lemma_numeral_round_trip(data, 2),
        Encoding::Base10 => lemma_numeral_round_trip(data, 10),
        _ => {},
    }
}

/// Recoding keeps the bytes: the text that it gives stands, under the new
/// encoding, for the bytes that the old text stood for under the old one.
/// This holds where the bytes and the new encoding are among those that
/// [`round_trip_shown`] names.
pub proof fn lemma_recode_keeps_bytes(text: Seq<char>, src: Encoding, tgt: Encoding)
    requires
        decoded(text, src) is Ok,
        round_trip_shown(decoded(text, src)->Ok_0, tgt),
        !(src == Encoding::Blob && tgt == Encoding::Blob),
    ensures
        recoded(text, src, tgt) is Ok,
        decoded(recoded(text, src, tgt)->Ok_0, tgt) == decoded(text, src),
{
    lemma_round_trip(decoded(text, src)->Ok_0, tgt);
}

} // verus!
