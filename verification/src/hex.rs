//! Keys as text: a key is written as one token per byte, each token two
//! hexadecimal digits or fewer, with an optional `0x` in front.

use vstd::prelude::*;
use vstd::utf8::encode_utf8;

verus! {

/// `token` without the `0x` prefixes at its start, however many there are.
pub open spec fn strip_hex_prefixes(token: Seq<u8>) -> Seq<u8>
    decreases token.len(),
{
    if token.len() >= 2 && token[0] == 0x30 && token[1] == 0x78 {
        strip_hex_prefixes(token.skip(2))
    } else {
        token
    }
}

/// `text` without the `+` sign that may stand at its start.
pub open spec fn drop_plus_sign(text: Seq<u8>) -> Seq<u8> {
    if text.len() > 0 && text[0] == 0x2b {
        text.skip(1)
    } else {
        text
    }
}

/// The value of a hexadecimal digit, of either case.
pub open spec fn hex_digit_value(digit: u8) -> Option<nat> {
    if 0x30 <= digit <= 0x39 {
        Some((digit - 0x30) as nat)
    } else if 0x61 <= digit <= 0x66 {
        Some((digit - 0x61 + 10) as nat)
    } else if 0x41 <= digit <= 0x46 {
        Some((digit - 0x41 + 10) as nat)
    } else {
        None
    }
}

/// The number that a run of hexadecimal digits writes, most significant
/// digit first; nothing where a byte of it is no digit.
pub open spec fn digits_value(digits: Seq<u8>) -> Option<nat>
    decreases digits.len(),
{
    if digits.len() == 0 {
        Some(0)
    } else {
        match (digits_value(digits.drop_last()), hex_digit_value(digits.last())) {
            (Some(high), Some(low)) => Some(high * 16 + low),
            _ => None,
        }
    }
}

/// The byte that a token writes: after any `0x` prefixes and an optional
/// `+`, at least one hexadecimal digit, and a value of at most 255.
pub open spec fn hex_token_value(token: Seq<u8>) -> Option<u8> {
    let digits = drop_plus_sign(strip_hex_prefixes(token));
    if digits.len() == 0 {
        None
    } else {
        match digits_value(digits) {
            Some(value) => if value <= 255 {
                Some(value as u8)
            } else {
                None
            },
            None => None,
        }
    }
}

/// The key that a list of tokens writes, one byte for each token; nothing
/// where a token writes no byte.
pub open spec fn hex_key_value(tokens: Seq<Seq<u8>>) -> Option<Seq<u8>> {
    if forall|k: int| 0 <= k < tokens.len() ==> (#[trigger] hex_token_value(tokens[k])) is Some {
        Some(Seq::new(tokens.len(), |k: int| hex_token_value(tokens[k])->0))
    } else {
        None
    }
}

/// The bytes of each string of a list, in UTF-8.
pub open spec fn utf8_tokens(strings: Seq<String>) -> Seq<Seq<u8>> {
    Seq::new(strings.len(), |k: int| encode_utf8(strings[k]@))
}

/// The lowercase hexadecimal digit for a value below 16.
pub open spec fn hex_digit_char(value: nat) -> char {
    if value == 0 {
        '0'
    } else if value == 1 {
        '1'
    } else if value == 2 {
        '2'
    } else if value == 3 {
        '3'
    } else if value == 4 {
        '4'
    } else if value == 5 {
        '5'
    } else if value == 6 {
        '6'
    } else if value == 7 {
        '7'
    } else if value == 8 {
        '8'
    } else if value == 9 {
        '9'
    } else if value == 10 {
        'a'
    } else if value == 11 {
        'b'
    } else if value == 12 {
        'c'
    } else if value == 13 {
        'd'
    } else if value == 14 {
        'e'
    } else {
        'f'
    }
}

/// The two lowercase hexadecimal digits of a byte.
pub open spec fn hex_pair(byte: u8) -> Seq<char> {
    seq![hex_digit_char((byte / 16) as nat), hex_digit_char((byte % 16) as nat)]
}

/// A key as a line of text: each byte as two lowercase hexadecimal digits,
/// with one space between neighbours.
pub open spec fn hex_line(bytes: Seq<u8>) -> Seq<char>
    decreases bytes.len(),
{
    if bytes.len() == 0 {
        Seq::empty()
    } else if bytes.len() == 1 {
        hex_pair(bytes[0])
    } else {
        hex_line(bytes.drop_last()) + seq![' '] + hex_pair(bytes.last())
    }
}

/// A run of digits has a value only if each of its prefixes has one, and
/// that value is no smaller than the prefix's.
proof fn lemma_digits_value_of_prefix(digits: Seq<u8>, k: int)
    requires
        0 <= k <= digits.len(),
    ensures
        digits_value(digits) matches Some(whole) ==> digits_value(digits.take(k)) matches Some(part)
            && part <= whole,
    decreases digits.len(),
{
    if k == digits.len() {
        assert(digits.take(k) =~= digits);
    } else {
        lemma_digits_value_of_prefix(digits.drop_last(), k);
        assert(digits.drop_last().take(k) =~= digits.take(k));
    }
}

/// Reads the byte that a token writes.
pub fn parse_hex_token(token: &[u8]) -> (value: Option<u8>)
    ensures
        value == hex_token_value(token@),
{
    let n = token.len();
    let mut start: usize = 0;
    assert(token@.skip(0) =~= token@);
    while n - start >= 2 && token[start] == 0x30 && token[start + 1] == 0x78
        invariant
            start <= n,
            n == token@.len(),
            strip_hex_prefixes(token@) == strip_hex_prefixes(token@.skip(start as int)),
        decreases n - start,
    {
        proof {
            assert(token@.skip(start as int).skip(2) =~= token@.skip(start + 2));
        }
        start += 2;
    }
    if start < n && token[start] == 0x2b {
        start += 1;
    }
    let ghost digits = token@.skip(start as int);
    assert(digits == drop_plus_sign(strip_hex_prefixes(token@))) by {
        let stripped = strip_hex_prefixes(token@);
        if stripped.len() > 0 && stripped[0] == 0x2b {
            assert(token@.skip(start - 1).skip(1) =~= digits);
        }
    }
    if start == n {
        return None;
    }
    let mut acc: u16 = 0;
    let mut k: usize = start;
    while k < n
        invariant
            start <= k <= n,
            start < n,
            n == token@.len(),
            digits == token@.skip(start as int),
            digits == drop_plus_sign(strip_hex_prefixes(token@)),
            digits_value(digits.take(k - start)) == Some(acc as nat),
            acc <= 255,
        decreases n - k,
    {
        let byte = token[k];
        let digit: u8 = if 0x30 <= byte && byte <= 0x39 {
            byte - 0x30
        } else if 0x61 <= byte && byte <= 0x66 {
            byte - 0x61 + 10
        } else if 0x41 <= byte && byte <= 0x46 {
            byte - 0x41 + 10
        } else {
            16
        };
        proof {
            let longer = digits.take(k - start + 1);
            assert(longer.drop_last() =~= digits.take(k - start));
            assert(longer.last() == byte);
            assert(hex_digit_value(byte) == if digit == 16 {
                None
            } else {
                Some(digit as nat)
            });
            assert(digits_value(longer) == if digit == 16 {
                None
            } else {
                Some((acc * 16 + digit) as nat)
            });
            lemma_digits_value_of_prefix(digits, k - start + 1);
        }
        if digit == 16 {
            return None;
        }
        let next: u16 = acc * 16 + digit as u16;
        if next > 255 {
            return None;
        }
        acc = next;
        k += 1;
    }
    assert(digits.take(k - start) =~= digits);
    Some(acc as u8)
}

/// Reads a key from its tokens, one byte for each; nothing where a token
/// writes no byte.
pub fn parse_hex_key(hex_strings: &[String]) -> (key: Option<Vec<u8>>)
    ensures
        match hex_key_value(utf8_tokens(hex_strings@)) {
            Some(bytes) => key matches Some(found) && found@ == bytes,
            None => key is None,
        },
{
    let ghost tokens = utf8_tokens(hex_strings@);
    let n = hex_strings.len();
    let mut bytes: Vec<u8> = Vec::new();
    let mut k: usize = 0;
    while k < n
        invariant
            k <= n,
            n == hex_strings@.len(),
            tokens == utf8_tokens(hex_strings@),
            bytes@.len() == k,
            forall|m: int|
                0 <= m < k ==> (#[trigger] hex_token_value(tokens[m])) == Some(bytes@[m]),
        decreases n - k,
    {
        match parse_hex_token(hex_strings[k].as_str().as_bytes()) {
            Some(byte) => {
                bytes.push(byte);
            },
            None => {
                assert(hex_token_value(tokens[k as int]) is None);
                return None;
            },
        }
        k += 1;
    }
    assert(hex_key_value(tokens) is Some);
    assert(bytes@ =~= hex_key_value(tokens)->0);
    Some(bytes)
}

/// The text of the lowercase hexadecimal digit for a value below 16.
fn hex_digit_text(value: u8) -> (text: &'static str)
    requires
        value < 16,
    ensures
        text@ == seq![hex_digit_char(value as nat)],
{
    proof {
        reveal_strlit("0");
        reveal_strlit("1");
        reveal_strlit("2");
        reveal_strlit("3");
        reveal_strlit("4");
        reveal_strlit("5");
        reveal_strlit("6");
        reveal_strlit("7");
        reveal_strlit("8");
        reveal_strlit("9");
        reveal_strlit("a");
        reveal_strlit("b");
        reveal_strlit("c");
        reveal_strlit("d");
        reveal_strlit("e");
        reveal_strlit("f");
    }
    let text = match value {
        0 => "0",
        1 => "1",
        2 => "2",
        3 => "3",
        4 => "4",
        5 => "5",
        6 => "6",
        7 => "7",
        8 => "8",
        9 => "9",
        10 => "a",
        11 => "b",
        12 => "c",
        13 => "d",
        14 => "e",
        _ => "f",
    };
    assert(text@ =~= seq![hex_digit_char(value as nat)]);
    text
}

/// Writes a key as a line of text: each byte as two lowercase hexadecimal
/// digits, with one space between neighbours.
pub fn format_hex_key(bytes: &[u8]) -> (line: String)
    ensures
        line@ == hex_line(bytes@),
{
    let n = bytes.len();
    let mut line = String::new();
    let mut k: usize = 0;
    while k < n
        invariant
            k <= n,
            n == bytes@.len(),
            line@ == hex_line(bytes@.take(k as int)),
        decreases n - k,
    {
        if k > 0 {
            proof {
                reveal_strlit(" ");
            }
            line.append(" ");
        }
        let byte = bytes[k];
        line.append(hex_digit_text(byte / 16));
        line.append(hex_digit_text(byte % 16));
        proof {
            let longer = bytes@.take(k + 1);
            assert(longer.drop_last() =~= bytes@.take(k as int));
            assert(longer.last() == byte);
            assert(line@ =~= hex_line(longer));
        }
        k += 1;
    }
    assert(bytes@.take(k as int) =~= bytes@);
    line
}

} // verus!
