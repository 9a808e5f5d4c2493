//! What the positional encodings mean: hexadecimal text, and numerals of an
//! arbitrary-precision integer in a radix from 2 to 36.

use vstd::prelude::*;

verus! {

/// The character for the hexadecimal digit `d`.
pub open spec fn hex_digit(d: int, upper: bool) -> char {
    if d < 10 {
        ((48 + d) as u8) as char
    } else if upper {
        ((55 + d) as u8) as char
    } else {
        ((87 + d) as u8) as char
    }
}

/// The value of a hexadecimal digit of either case, if `c` is one.
pub open spec fn hex_value(c: char) -> Option<int> {
    let code = c as u32 as int;
    if 48 <= code <= 57 {
        Some(code - 48)
    } else if 97 <= code <= 102 {
        Some(code - 87)
    } else if 65 <= code <= 70 {
        Some(code - 55)
    } else {
        None
    }
}

/// Two hexadecimal digits for each byte, the high half first.
pub open spec fn hex_text(data: Seq<u8>, upper: bool) -> Seq<char> {
    Seq::new(
        2 * data.len(),
        |i: int|
            if i % 2 == 0 {
                hex_digit(data[i / 2] as int / 16, upper)
            } else {
                hex_digit(data[i / 2] as int % 16, upper)
            },
    )
}

/// Whether `text` is hexadecimal: an even number of digits of either case.
pub open spec fn is_hex(text: Seq<char>) -> bool {
    &&& text.len() % 2 == 0
    &&& forall|i: int| 0 <= i < text.len() ==> hex_value(#[trigger] text[i]) is Some
}

/// The bytes that hexadecimal text stands for.
pub open spec fn hex_bytes(text: Seq<char>) -> Seq<u8> {
    Seq::new(
        text.len() / 2,
        |i: int| (hex_value(text[2 * i]).unwrap() * 16 + hex_value(text[2 * i + 1]).unwrap()) as u8,
    )
}

/// Hexadecimal text of either case reads back as the bytes it was made from.
pub proof fn lemma_hex_round_trip(data: Seq<u8>, upper: bool)
    ensures
        is_hex(hex_text(data, upper)),
        hex_bytes(hex_text(data, upper)) == data,
{
    let text = hex_text(data, upper);
    assert forall|d: int| 0 <= d < 16 implies hex_value(#[trigger] hex_digit(d, upper)) == Some(
        d,
    ) by {}
    assert forall|i: int| 0 <= i < text.len() implies hex_value(#[trigger] text[i]) is Some by {
        let b = data[i / 2] as int;
        assert(0 <= b / 16 < 16 && 0 <= b % 16 < 16);
    }
    assert(text.len() / 2 == data.len());
    assert forall|i: int| 0 <= i < data.len() implies #[trigger] hex_bytes(text)[i] == data[i] by {
        let b = data[i] as int;
        assert(0 <= b / 16 < 16 && 0 <= b % 16 < 16);
        assert((2 * i) / 2 == i && (2 * i) % 2 == 0);
        assert((2 * i + 1) / 2 == i && (2 * i + 1) % 2 == 1);
        assert(text[2 * i] == hex_digit(b / 16, upper));
        assert(text[2 * i + 1] == hex_digit(b % 16, upper));
        assert((b / 16) * 16 + b % 16 == b);
    }
    assert(hex_bytes(text) =~= data);
}

/// The number that `bytes` spell in base 256, most significant byte first.
pub open spec fn be_value(bytes: Seq<u8>) -> nat
    decreases bytes.len(),
{
    if bytes.len() == 0 {
        0
    } else {
        be_value(bytes.drop_last()) * 256 + bytes.last() as nat
    }
}

/// The shortest bytes that spell `value` in base 256, most significant byte
/// first. Zero is one zero byte.
pub open spec fn minimal_be_bytes(value: nat) -> Seq<u8>
    decreases value,
{
    if value < 256 {
        seq![value as u8]
    } else {
        minimal_be_bytes(value / 256).push((value % 256) as u8)
    }
}

/// The character for the digit `d` of a numeral: `0` to `9`, then `a` to `z`.
pub open spec fn numeral_digit(d: nat) -> char {
    if d < 10 {
        ((48 + d) as u8) as char
    } else {
        ((87 + d) as u8) as char
    }
}

/// The numeral of `value` in `radix`, without leading zeros. Zero is `0`.
pub open spec fn radix_text(value: nat, radix: nat) -> Seq<char>
    decreases value,
{
    if radix < 2 || value < radix {
        seq![numeral_digit(value)]
    } else {
        proof {
            assert(value / radix < value) by (nonlinear_arith)
                requires
                    radix >= 2,
                    value >= radix,
            ;
        }
        radix_text(value / radix, radix).push(numeral_digit(value % radix))
    }
}

/// The value of a digit of a numeral, in either case, if `c` is one.
pub open spec fn numeral_digit_value(c: char) -> Option<nat> {
    let code = c as u32 as int;
    if 48 <= code <= 57 {
        Some((code - 48) as nat)
    } else if 97 <= code <= 122 {
        Some((code - 87) as nat)
    } else if 65 <= code <= 90 {
        Some((code - 55) as nat)
    } else {
        None
    }
}

/// The part of `text` that holds the digits: `text` without one leading
/// plus sign, unless a second plus sign follows it.
pub open spec fn numeral_body(text: Seq<char>) -> Seq<char> {
    if text.len() > 0 && text[0] == '+' && !(text.len() > 1 && text[1] == '+') {
        text.drop_first()
    } else {
        text
    }
}

/// Whether `text` is a numeral in `radix`: after the optional plus sign
/// comes at least one character, the first of them no underscore, and each
/// of them an underscore or a digit below `radix`.
pub open spec fn is_numeral(text: Seq<char>, radix: nat) -> bool {
    let body = numeral_body(text);
    &&& body.len() > 0
    &&& body[0] != '_'
    &&& forall|i: int|
        0 <= i < body.len() ==> {
            ||| #[trigger] body[i] == '_'
            ||| (numeral_digit_value(body[i]) matches Some(d) && d < radix)
        }
}

/// The number that the digits of `body` spell, underscores passed over.
pub open spec fn numeral_value(body: Seq<char>, radix: nat) -> nat
    decreases body.len(),
{
    if body.len() == 0 {
        0
    } else if body.last() == '_' {
        numeral_value(body.drop_last(), radix)
    } else {
        numeral_value(body.drop_last(), radix) * radix + numeral_digit_value(
            body.last(),
        ).unwrap_or(0)
    }
}

/// The bytes that a numeral in `radix` stands for.
pub open spec fn numeral_bytes(text: Seq<char>, radix: nat) -> Seq<u8> {
    minimal_be_bytes(numeral_value(numeral_body(text), radix))
}

/// A digit below the radix is written as a character that reads back as that
/// digit, and that is neither a plus sign nor an underscore.
pub proof fn lemma_digit_round_trip(d: nat)
    requires
        d < 36,
    ensures
        numeral_digit_value(numeral_digit(d)) == Some(d),
        numeral_digit(d) != '_',
        numeral_digit(d) != '+',
{
}

/// Whether every character of `text` is a digit below `radix`.
pub open spec fn all_digits(text: Seq<char>, radix: nat) -> bool {
    forall|i: int|
        0 <= i < text.len() ==> (numeral_digit_value(#[trigger] text[i]) matches Some(d) && d
            < radix) && text[i] != '_' && text[i] != '+'
}

/// The numeral of a number is made of digits below the radix and spells
/// that number.
pub proof fn lemma_radix_text_spells(value: nat, radix: nat)
    requires
        2 <= radix <= 36,
    ensures
        radix_text(value, radix).len() > 0,
        all_digits(radix_text(value, radix), radix),
        numeral_value(radix_text(value, radix), radix) == value,
    decreases value,
{
    let text = radix_text(value, radix);
    if value < radix {
        lemma_digit_round_trip(value);
        assert(text.drop_last() =~= Seq::<char>::empty());
        assert(numeral_value(text.drop_last(), radix) == 0);
        assert(0 * radix == 0) by (nonlinear_arith);
    } else {
        let high = value / radix;
        let low = value % radix;
        assert(high < value && low < radix && high * radix + low == value) by (nonlinear_arith)
            requires
                radix >= 2,
                value >= radix,
                high == value / radix,
                low == value % radix,
        ;
        lemma_radix_text_spells(high, radix);
        lemma_digit_round_trip(low);
        let earlier = radix_text(high, radix);
        assert(text == earlier.push(numeral_digit(low)));
        assert(text.drop_last() =~= earlier);
        assert(text.last() == numeral_digit(low));
        assert forall|i: int| 0 <= i < text.len() implies (numeral_digit_value(
            #[trigger] text[i],
        ) matches Some(d) && d < radix) && text[i] != '_' && text[i] != '+' by {
            if i < earlier.len() {
                assert(text[i] == earlier[i]);
            }
        }
    }
}

/// Bytes that start with a byte other than zero spell a number other than
/// zero.
pub proof fn lemma_be_value_positive(bytes: Seq<u8>)
    requires
        bytes.len() > 0,
        bytes[0] != 0,
    ensures
        be_value(bytes) >= 1,
    decreases bytes.len(),
{
    if bytes.len() > 1 {
        let earlier = bytes.drop_last();
        assert(earlier[0] == bytes[0]);
        lemma_be_value_positive(earlier);
        assert(be_value(earlier) * 256 >= 256) by (nonlinear_arith)
            requires
                be_value(earlier) >= 1,
        ;
    } else {
        assert(bytes.drop_last() =~= Seq::<u8>::empty());
        assert(be_value(bytes.drop_last()) == 0);
    }
}

/// Bytes that start with a byte other than zero are the shortest bytes of
/// the number they spell.
pub proof fn lemma_minimal_bytes_of_value(bytes: Seq<u8>)
    requires
        bytes.len() > 0,
        bytes[0] != 0,
    ensures
        minimal_be_bytes(be_value(bytes)) == bytes,
    decreases bytes.len(),
{
    let earlier = bytes.drop_last();
    let last = bytes.last() as nat;
    if bytes.len() == 1 {
        assert(earlier =~= Seq::<u8>::empty());
        assert(be_value(earlier) == 0);
        assert(be_value(bytes) == last);
        assert(minimal_be_bytes(last) =~= bytes);
    } else {
        assert(earlier[0] == bytes[0]);
        lemma_be_value_positive(earlier);
        lemma_minimal_bytes_of_value(earlier);
        let high = be_value(earlier);
        let value = be_value(bytes);
        assert(value == high * 256 + last);
        assert(value >= 256 && value / 256 == high && value % 256 == last) by (nonlinear_arith)
            requires
                value == high * 256 + last,
                high >= 1,
                last < 256,
        ;
        assert(minimal_be_bytes(value) == minimal_be_bytes(high).push(last as u8));
        assert(earlier.push(bytes.last()) =~= bytes);
    }
}

/// A numeral reads back as the bytes it was made from, provided that they
/// start with a byte other than zero. A numeral keeps no leading zeros, so
/// other bytes do not come back: the empty sequence comes back as one zero
/// byte.
pub proof fn lemma_numeral_round_trip(data: Seq<u8>, radix: nat)
    requires
        2 <= radix <= 36,
        data.len() > 0,
        data[0] != 0,
    ensures
        is_numeral(radix_text(be_value(data), radix), radix),
        numeral_bytes(radix_text(be_value(data), radix), radix) == data,
{
    let value = be_value(data);
    let text = radix_text(value, radix);
    lemma_radix_text_spells(value, radix);
    lemma_minimal_bytes_of_value(data);
    assert(text[0] != '+' && text[0] != '_');
    assert(numeral_body(text) == text);
    assert forall|i: int| 0 <= i < text.len() implies {
        ||| #[trigger] text[i] == '_'
        ||| (numeral_digit_value(text[i]) matches Some(d) && d < radix)
    } by {}
}

} // verus!
