//! Numbers and addresses as text: decimal notation, and the hexadecimal
//! notation of an address with its `0x` prefix.

use vstd::prelude::*;

use crate::models::{is_address_length, IotaAddress};

verus! {

/// The character that stands for a decimal digit.
pub open spec fn digit_char(digit: nat) -> char {
    if digit == 0 {
        '0'
    } else if digit == 1 {
        '1'
    } else if digit == 2 {
        '2'
    } else if digit == 3 {
        '3'
    } else if digit == 4 {
        '4'
    } else if digit == 5 {
        '5'
    } else if digit == 6 {
        '6'
    } else if digit == 7 {
        '7'
    } else if digit == 8 {
        '8'
    } else {
        '9'
    }
}

/// The decimal notation of a number, without leading zeros.
pub open spec fn decimal(number: nat) -> Seq<char>
    decreases number,
{
    if number < 10 {
        seq![digit_char(number)]
    } else {
        decimal(number / 10).push(digit_char(number % 10))
    }
}

/// The character that stands for a hexadecimal digit, in lower case.
pub open spec fn hex_char(digit: nat) -> char {
    if digit < 10 {
        digit_char(digit)
    } else if digit == 10 {
        'a'
    } else if digit == 11 {
        'b'
    } else if digit == 12 {
        'c'
    } else if digit == 13 {
        'd'
    } else if digit == 14 {
        'e'
    } else {
        'f'
    }
}

/// The hexadecimal notation of bytes: two digits for each byte.
pub open spec fn hex_of(bytes: Seq<u8>) -> Seq<char>
    decreases bytes.len(),
{
    if bytes.len() == 0 {
        Seq::empty()
    } else {
        hex_of(bytes.drop_last()).push(hex_char(bytes.last() as nat / 16)).push(
            hex_char(bytes.last() as nat % 16),
        )
    }
}

/// The text of an address: `0x` and its bytes in hexadecimal notation.
pub open spec fn address_text(bytes: Seq<u8>) -> Seq<char> {
    seq!['0', 'x'] + hex_of(bytes)
}

/// The text of one hexadecimal digit, in lower case.
fn hex_digit(digit: u8) -> (text: &'static str)
    requires
        digit < 16,
    ensures
        text@ == seq![hex_char(digit as nat)],
{
    proof {
        reveal_strlit("0");
        reveal_strlit("1");
        reveal_strlit("2");
        reveal_strlit("3");
        reveal_strlit("4");
        reveal_strlit("5");
        reveal_strlit("6");
        reveal_strlit("7");
        reveal_strlit("8");
        reveal_strlit("9");
        reveal_strlit("a");
        reveal_strlit("b");
        reveal_strlit("c");
        reveal_strlit("d");
        reveal_strlit("e");
        reveal_strlit("f");
    }
    let text = if digit == 0 {
        "0"
    } else if digit == 1 {
        "1"
    } else if digit == 2 {
        "2"
    } else if digit == 3 {
        "3"
    } else if digit == 4 {
        "4"
    } else if digit == 5 {
        "5"
    } else if digit == 6 {
        "6"
    } else if digit == 7 {
        "7"
    } else if digit == 8 {
        "8"
    } else if digit == 9 {
        "9"
    } else if digit == 10 {
        "a"
    } else if digit == 11 {
        "b"
    } else if digit == 12 {
        "c"
    } else if digit == 13 {
        "d"
    } else if digit == 14 {
        "e"
    } else {
        "f"
    };
    assert(text@ =~= seq![hex_char(digit as nat)]);
    text
}

/// Appends a colon to `text`.
pub fn push_colon(text: &mut String)
    ensures
        final(text)@ == old(text)@.push(':'),
{
    proof {
        reveal_strlit(":");
        assert(":"@ =~= seq![':']);
    }
    text.append(":");
}

/// Appends the decimal notation of `number` to `text`.
pub fn push_decimal(text: &mut String, number: u128)
    ensures
        final(text)@ == old(text)@ + decimal(number as nat),
    decreases number,
{
    if number < 10 {
        text.append(hex_digit(number as u8));
        assert(text@ =~= old(text)@ + decimal(number as nat));
    } else {
        push_decimal(text, number / 10);
        text.append(hex_digit((number % 10) as u8));
        assert(text@ =~= old(text)@ + decimal(number as nat));
    }
}

/// The hexadecimal notation of `bytes`.
pub fn to_hex(bytes: &[u8]) -> (text: String)
    ensures
        text@ == hex_of(bytes@),
{
    let mut text = String::new();
    let mut i: usize = 0;
    assert(bytes@.take(0) =~= Seq::empty());
    while i < bytes.len()
        invariant
            i <= bytes.len(),
            text@ == hex_of(bytes@.take(i as int)),
        decreases bytes.len() - i,
    {
        proof {
            assert(bytes@.take(i + 1).drop_last() =~= bytes@.take(i as int));
            assert(bytes@.take(i + 1).last() == bytes@[i as int]);
        }
        let byte = bytes[i];
        let ghost before = text@;
        text.append(hex_digit(byte / 16));
        text.append(hex_digit(byte % 16));
        assert(text@ =~= before.push(hex_char(byte as nat / 16)).push(hex_char(byte as nat % 16)));
        i += 1;
    }
    assert(bytes@.take(bytes.len() as int) =~= bytes@);
    text
}

/// The value of a hexadecimal digit, in either case.
pub open spec fn hex_value(c: char) -> Option<u8> {
    if '0' <= c && c <= '9' {
        Some((c as u8 - 48) as u8)
    } else if 'a' <= c && c <= 'f' {
        Some((c as u8 - 87) as u8)
    } else if 'A' <= c && c <= 'F' {
        Some((c as u8 - 55) as u8)
    } else {
        None
    }
}

/// The bytes that an even number of hexadecimal digits spell.
pub open spec fn hex_bytes(digits: Seq<char>) -> Option<Seq<u8>>
    decreases digits.len(),
{
    if digits.len() == 0 {
        Some(Seq::empty())
    } else if digits.len() == 1 {
        None
    } else {
        match (
            hex_bytes(digits.take(digits.len() - 2)),
            hex_value(digits[digits.len() - 2]),
            hex_value(digits[digits.len() - 1]),
        ) {
            (Some(bytes), Some(high), Some(low)) => Some(bytes.push((high * 16 + low) as u8)),
            _ => None,
        }
    }
}

/// The text without the prefix `0x`, if it has one.
pub open spec fn without_prefix(text: Seq<char>) -> Seq<char> {
    if text.len() >= 2 && text[0] == '0' && text[1] == 'x' {
        text.skip(2)
    } else {
        text
    }
}

/// The address that a text spells: hexadecimal digits for 20 or 32 bytes,
/// with or without the prefix `0x`.
pub open spec fn parsed_address(text: Seq<char>) -> Option<Seq<u8>> {
    match hex_bytes(without_prefix(text)) {
        Some(bytes) => if is_address_length(bytes.len()) {
            Some(bytes)
        } else {
            None
        },
        None => None,
    }
}

/// A text that is not the hexadecimal notation of an address.
#[derive(Debug, Clone, Copy, PartialEq, Eq, Structural)]
pub struct InvalidAddress;

fn hex_digit_value(byte: u8) -> (value: Option<u8>)
    ensures
        byte < 128 ==> value == hex_value(byte as char),
        value matches Some(v) ==> v < 16,
{
    if 48 <= byte && byte <= 57 {
        Some(byte - 48)
    } else if 97 <= byte && byte <= 102 {
        Some(byte - 87)
    } else if 65 <= byte && byte <= 70 {
        Some(byte - 55)
    } else {
        None
    }
}

/// Digits that spell bytes are all hexadecimal digits, two for each byte.
pub proof fn lemma_hex_bytes_digits(digits: Seq<char>)
    requires
        hex_bytes(digits) is Some,
    ensures
        digits.len() == 2 * hex_bytes(digits)->0.len(),
        forall|i: int| 0 <= i < digits.len() ==> hex_value(#[trigger] digits[i]) is Some,
    decreases digits.len(),
{
    if digits.len() >= 2 {
        let front = digits.take(digits.len() - 2);
        lemma_hex_bytes_digits(front);
        assert forall|i: int| 0 <= i < digits.len() implies hex_value(#[trigger] digits[i])
            is Some by {
            if i < front.len() {
                assert(front[i] == digits[i]);
            }
        }
    }
}

/// The hexadecimal notation of bytes spells those bytes.
pub proof fn lemma_hex_round_trip(bytes: Seq<u8>)
    ensures
        hex_bytes(hex_of(bytes)) == Some(bytes),
    decreases bytes.len(),
{
    if bytes.len() > 0 {
        let front = bytes.drop_last();
        let last = bytes.last();
        let digits = hex_of(bytes);
        lemma_hex_round_trip(front);
        assert(digits.take(digits.len() - 2) =~= hex_of(front));
        assert(digits[digits.len() - 2] == hex_char(last as nat / 16));
        assert(digits[digits.len() - 1] == hex_char(last as nat % 16));
        assert(hex_value(hex_char(last as nat / 16)) == Some((last / 16) as u8));
        assert(hex_value(hex_char(last as nat % 16)) == Some((last % 16) as u8));
        assert(front.push(last) =~= bytes);
    }
}

/// The text of an address reads back as the address.
pub proof fn lemma_address_text_round_trip(bytes: Seq<u8>)
    requires
        is_address_length(bytes.len()),
    ensures
        parsed_address(address_text(bytes)) == Some(bytes),
{
    lemma_hex_round_trip(bytes);
    assert(without_prefix(address_text(bytes)) =~= hex_of(bytes));
}

impl IotaAddress {
    /// The text of the address: `0x` and its bytes in hexadecimal notation.
    pub fn to_hex(&self) -> (text: String)
        ensures
            text@ == address_text(self@),
    {
        let digits = to_hex(self.as_bytes());
        proof {
            reveal_strlit("0x");
            assert("0x"@ =~= seq!['0', 'x']);
        }
        String::from_str("0x").concat(digits.as_str())
    }

    /// Reads an address from its text: hexadecimal digits in either case
    /// for 20 or 32 bytes, with or without the prefix `0x`.
    pub fn from_hex(text: &str) -> (result: Result<IotaAddress, InvalidAddress>)
        ensures
            match result {
                Ok(address) => parsed_address(text@) == Some(address@),
                Err(_) => parsed_address(text@) is None,
            },
    {
        broadcast use vstd::string::is_ascii_spec_bytes;

        let ghost digits = without_prefix(text@);
        if !text.is_ascii() {
            proof {
                if hex_bytes(digits) is Some {
                    lemma_hex_bytes_digits(digits);
                    let i = choose|i: int| 0 <= i < text@.len() && !('\0' <= #[trigger] text@[i]
                        <= '\u{7f}');
                    if digits.len() == text@.len() {
                        assert(hex_value(digits[i]) is Some);
                    } else {
                        if i >= 2 {
                            assert(hex_value(digits[i - 2]) is Some);
                        }
                    }
                }
            }
            return Err(InvalidAddress);
        }
        let raw = text.as_bytes();
        assert(raw@.len() == text@.len());
        assert(forall|i: int| 0 <= i < raw@.len() ==> #[trigger] raw@[i] == text@[i] as u8);
        let start: usize = if raw.len() >= 2 && raw[0] == 48 && raw[1] == 120 {
            2
        } else {
            0
        };
        assert(digits =~= text@.skip(start as int));
        if (raw.len() - start) % 2 != 0 {
            proof {
                if hex_bytes(digits) is Some {
                    lemma_hex_bytes_digits(digits);
                }
            }
            return Err(InvalidAddress);
        }
        let mut decoded: Vec<u8> = Vec::new();
        let mut i: usize = start;
        assert(digits.take(0) =~= Seq::empty());
        while i < raw.len()
            invariant
                start <= i <= raw.len(),
                (i - start) % 2 == 0,
                (raw.len() - start) % 2 == 0,
                raw@.len() == text@.len(),
                text.is_ascii(),
                forall|k: int| 0 <= k < raw@.len() ==> #[trigger] raw@[k] == text@[k] as u8,
                digits == text@.skip(start as int),
                digits == without_prefix(text@),
                hex_bytes(digits.take(i - start)) == Some(decoded@),
            decreases raw.len() - i,
        {
            let ghost prefix = digits.take(i - start + 2);
            proof {
                assert(prefix.take(prefix.len() - 2) =~= digits.take(i - start));
                assert(prefix[prefix.len() - 2] == text@[i as int]);
                assert(prefix[prefix.len() - 1] == text@[i + 1]);
                assert(raw@[i as int] == text@[i as int] as u8);
                assert(raw@[i + 1] == text@[i + 1] as u8);
                assert('\0' <= text@[i as int] <= '\u{7f}');
                assert('\0' <= text@[i + 1] <= '\u{7f}');
            }
            let high = hex_digit_value(raw[i]);
            let low = hex_digit_value(raw[i + 1]);
            match (high, low) {
                (Some(high), Some(low)) => {
                    decoded.push(high * 16 + low);
                },
                _ => {
                    proof {
                        if hex_bytes(digits) is Some {
                            lemma_hex_bytes_digits(digits);
                            assert(hex_value(digits[i - start]) is Some);
                            assert(hex_value(digits[i - start + 1]) is Some);
                        }
                    }
                    return Err(InvalidAddress);
                },
            }
            i += 2;
        }
        assert(digits.take(raw.len() - start) =~= digits);
        match IotaAddress::from_sql(decoded) {
            Ok(address) => Ok(address),
            Err(_) => Err(InvalidAddress),
        }
    }
}

} // verus!
