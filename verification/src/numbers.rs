//! Numbers as text: reading decimal and hexadecimal numbers, and lists of
//! them.

use vstd::prelude::*;
use crate::ident::{fits, format_hex, hex_fixed, lemma_fits};
use crate::text::{chars_of, decimal_digit, decimal_of, fields_of, hex_digit, split_fields, texts};

verus! {

/// The number that a text of decimal digits writes; `None` where a
/// character is no digit. The empty text writes zero.
pub open spec fn digits_value(s: Seq<char>) -> Option<nat>
    decreases s.len(),
{
    if s.len() == 0 {
        Some(0)
    } else {
        match digits_value(s.drop_last()) {
            Some(v) => if '0' <= s.last() <= '9' {
                Some(v * 10 + (s.last() as nat - 48) as nat)
            } else {
                None
            },
            None => None,
        }
    }
}

/// The number that a text writes as an unsigned integer: decimal digits, at
/// least one, after an optional `+`.
pub open spec fn unsigned_value(s: Seq<char>) -> Option<nat> {
    let body = if s.len() > 0 && s[0] == '+' {
        s.skip(1)
    } else {
        s
    };
    if body.len() == 0 {
        None
    } else {
        digits_value(body)
    }
}

/// The number that a text writes as a signed integer: decimal digits, at
/// least one, after an optional `+` or `-`.
pub open spec fn signed_value(s: Seq<char>) -> Option<int> {
    if s.len() > 0 && s[0] == '-' {
        if s.len() == 1 {
            None
        } else {
            match digits_value(s.skip(1)) {
                Some(v) => Some(-(v as int)),
                None => None,
            }
        }
    } else {
        match unsigned_value(s) {
            Some(v) => Some(v as int),
            None => None,
        }
    }
}

/// The 32-bit number that a text writes, where it writes one.
pub open spec fn parsed_u32(s: Seq<char>) -> Option<u32> {
    match unsigned_value(s) {
        Some(v) => if v <= u32::MAX {
            Some(v as u32)
        } else {
            None
        },
        None => None,
    }
}

/// The 64-bit number that a text writes, where it writes one.
pub open spec fn parsed_u64(s: Seq<char>) -> Option<u64> {
    match unsigned_value(s) {
        Some(v) => if v <= u64::MAX {
            Some(v as u64)
        } else {
            None
        },
        None => None,
    }
}

/// The signed 64-bit number that a text writes, where it writes one.
pub open spec fn parsed_i64(s: Seq<char>) -> Option<i64> {
    match signed_value(s) {
        Some(v) => if i64::MIN <= v <= i64::MAX {
            Some(v as i64)
        } else {
            None
        },
        None => None,
    }
}

/// A text of digits writes a number no smaller than any of its beginnings
/// does.
pub proof fn lemma_digits_value_grows(s: Seq<char>, k: int)
    requires
        0 <= k <= s.len(),
        digits_value(s) is Some,
    ensures
        digits_value(s.take(k)) is Some,
        digits_value(s.take(k))->0 <= digits_value(s)->0,
    decreases s.len(),
{
    if k == s.len() {
        assert(s.take(k) == s);
    } else {
        lemma_digits_value_grows(s.drop_last(), k);
        assert(s.drop_last().take(k) == s.take(k));
    }
}

/// The decimal digits with which a number is written are read back as the
/// number, and there is at least one of them.
pub proof fn lemma_decimal_round_trip(n: nat)
    ensures
        decimal_of(n).len() >= 1,
        digits_value(decimal_of(n)) == Some(n),
    decreases n,
{
    assert('0' as nat == 48 && '9' as nat == 57);
    if n < 10 {
        let s = decimal_of(n);
        assert(s.drop_last() =~= Seq::<char>::empty());
        assert(digits_value(s.drop_last()) == Some(0nat));
        assert(s.last() == decimal_digit(n as int));
        assert(s.last() as nat == 48 + n);
        assert('0' <= s.last() <= '9');
    } else {
        lemma_decimal_round_trip(n / 10);
        let s = decimal_of(n);
        assert(s.drop_last() =~= decimal_of(n / 10));
        assert(s.last() == decimal_digit((n % 10) as int));
        assert(s.last() as nat == 48 + n % 10);
        assert('0' <= s.last() <= '9');
    }
}

/// Reads the digits of `chars` from `start` on: the number that they write,
/// unless there is no digit, a character is no digit, or the number is
/// above `limit`.
fn read_digits(chars: &Vec<char>, start: usize, limit: u64) -> (out: Option<u64>)
    requires
        start <= chars.len(),
    ensures
        out == if start == chars@.len() {
            None
        } else {
            match digits_value(chars@.skip(start as int)) {
                Some(v) => if v <= limit {
                    Some(v as u64)
                } else {
                    None
                },
                None => None,
            }
        },
{
    if start >= chars.len() {
        return None;
    }
    let ghost body = chars@.skip(start as int);
    proof {
        assert(body.take(0) == Seq::<char>::empty());
    }
    let mut value: u64 = 0;
    let mut i: usize = start;
    while i < chars.len()
        invariant
            start <= i <= chars.len(),
            body == chars@.skip(start as int),
            digits_value(body.take(i - start)) == Some(value as nat),
            value <= limit,
        decreases chars.len() - i,
    {
        let c: char = chars[i];
        proof {
            assert(body.take(i - start + 1).drop_last() == body.take(i - start));
            assert(body.take(i - start + 1).last() == c);
            if digits_value(body) is Some {
                lemma_digits_value_grows(body, i - start + 1);
            }
        }
        if c < '0' || c > '9' {
            return None;
        }
        let d: u128 = (c as u128) - 48;
        let next: u128 = value as u128 * 10 + d;
        if next > limit as u128 {
            return None;
        }
        value = next as u64;
        i += 1;
    }
    assert(body.take(chars.len() - start) == body);
    Some(value)
}

fn skip_plus(chars: &Vec<char>) -> (start: usize)
    ensures
        start <= chars@.len(),
        chars@.skip(start as int) == if chars@.len() > 0 && chars@[0] == '+' {
            chars@.skip(1)
        } else {
            chars@
        },
        start == if chars@.len() > 0 && chars@[0] == '+' {
            1usize
        } else {
            0usize
        },
{
    assert(chars@.skip(0) == chars@);
    if chars.len() > 0 && chars[0] == '+' {
        1
    } else {
        0
    }
}

/// Reads an unsigned 64-bit number from its decimal text.
pub fn parse_u64(s: &str) -> (out: Option<u64>)
    ensures
        out == parsed_u64(s@),
{
    let chars = chars_of(s);
    let start = skip_plus(&chars);
    read_digits(&chars, start, u64::MAX)
}

/// Reads an unsigned 32-bit number from its decimal text.
pub fn parse_u32(s: &str) -> (out: Option<u32>)
    ensures
        out == parsed_u32(s@),
{
    let chars = chars_of(s);
    let start = skip_plus(&chars);
    match read_digits(&chars, start, 0xffff_ffff) {
        Some(v) => Some(v as u32),
        None => None,
    }
}

/// Reads a signed 64-bit number from its decimal text.
pub fn parse_i64(s: &str) -> (out: Option<i64>)
    ensures
        out == parsed_i64(s@),
{
    let chars = chars_of(s);
    if chars.len() > 0 && chars[0] == '-' {
        match read_digits(&chars, 1, 0x8000_0000_0000_0000) {
            Some(v) => {
                if v == 0x8000_0000_0000_0000 {
                    Some(i64::MIN)
                } else {
                    Some(-(v as i64))
                }
            },
            None => None,
        }
    } else {
        let start = skip_plus(&chars);
        match read_digits(&chars, start, 0x7fff_ffff_ffff_ffff) {
            Some(v) => Some(v as i64),
            None => None,
        }
    }
}

/// Of the first `k` fields, the numbers of those that write one, in order.
pub open spec fn numbers_among(fields: Seq<Seq<char>>, k: int) -> Seq<i64>
    decreases k,
{
    if k <= 0 {
        Seq::empty()
    } else {
        let before = numbers_among(fields, k - 1);
        match parsed_i64(fields[k - 1]) {
            Some(v) => before.push(v),
            None => before,
        }
    }
}

/// The numbers of a list that is written with commas between them. What
/// stands between two commas and writes no number is passed over.
pub open spec fn id_list_of(text: Seq<char>) -> Seq<i64> {
    numbers_among(fields_of(text, ','), fields_of(text, ',').len() as int)
}

/// Reads a list of numbers that is written with commas between them.
pub fn parse_id_list(text: &str) -> (ids: Vec<i64>)
    ensures
        ids@ == id_list_of(text@),
{
    let fields = split_fields(text, ',');
    let mut ids: Vec<i64> = Vec::new();
    let mut i: usize = 0;
    assert(texts(fields@).len() == fields@.len());
    while i < fields.len()
        invariant
            i <= fields.len(),
            texts(fields@).len() == fields@.len(),
            ids@ == numbers_among(texts(fields@), i as int),
        decreases fields.len() - i,
    {
        assert(texts(fields@)[i as int] == fields@[i as int]@);
        match parse_i64(fields[i].as_str()) {
            Some(v) => {
                ids.push(v);
            },
            None => {},
        }
        i += 1;
    }
    ids
}

/// The value of a hexadecimal digit, in either case.
pub open spec fn hex_digit_value(c: char) -> Option<nat> {
    if '0' <= c <= '9' {
        Some((c as nat - 48) as nat)
    } else if 'a' <= c <= 'f' {
        Some((c as nat - 87) as nat)
    } else if 'A' <= c <= 'F' {
        Some((c as nat - 55) as nat)
    } else {
        None
    }
}

/// The number that a text of hexadecimal digits writes; `None` where a
/// character is no such digit. The empty text writes zero.
pub open spec fn hex_value(s: Seq<char>) -> Option<nat>
    decreases s.len(),
{
    if s.len() == 0 {
        Some(0)
    } else {
        match (hex_value(s.drop_last()), hex_digit_value(s.last())) {
            (Some(v), Some(d)) => Some(v * 16 + d),
            _ => None,
        }
    }
}

/// The 64-bit number that a text of hexadecimal digits writes, where it
/// has at least one digit and writes one.
pub open spec fn parsed_hex_u64(s: Seq<char>) -> Option<u64> {
    if s.len() == 0 {
        None
    } else {
        match hex_value(s) {
            Some(v) => if v <= u64::MAX {
                Some(v as u64)
            } else {
                None
            },
            None => None,
        }
    }
}

/// A text of hexadecimal digits writes a number no smaller than any of its
/// beginnings does.
pub proof fn lemma_hex_value_grows(s: Seq<char>, k: int)
    requires
        0 <= k <= s.len(),
        hex_value(s) is Some,
    ensures
        hex_value(s.take(k)) is Some,
        hex_value(s.take(k))->0 <= hex_value(s)->0,
    decreases s.len(),
{
    if k == s.len() {
        assert(s.take(k) == s);
    } else {
        lemma_hex_value_grows(s.drop_last(), k);
        assert(s.drop_last().take(k) == s.take(k));
    }
}

/// Reads an unsigned 64-bit number from its hexadecimal text.
pub fn parse_hex_u64(s: &str) -> (out: Option<u64>)
    ensures
        out == parsed_hex_u64(s@),
{
    let chars = chars_of(s);
    if chars.len() == 0 {
        return None;
    }
    proof {
        assert(chars@.take(0) == Seq::<char>::empty());
    }
    let mut value: u64 = 0;
    let mut i: usize = 0;
    while i < chars.len()
        invariant
            i <= chars.len(),
            chars@ == s@,
            chars@.len() > 0,
            hex_value(chars@.take(i as int)) == Some(value as nat),
        decreases chars.len() - i,
    {
        let c: char = chars[i];
        proof {
            assert(chars@.take(i as int + 1).drop_last() == chars@.take(i as int));
            assert(chars@.take(i as int + 1).last() == c);
            if hex_value(chars@) is Some {
                lemma_hex_value_grows(chars@, i as int + 1);
            }
        }
        let d: u128 = if '0' <= c && c <= '9' {
            (c as u128) - 48
        } else if 'a' <= c && c <= 'f' {
            (c as u128) - 87
        } else if 'A' <= c && c <= 'F' {
            (c as u128) - 55
        } else {
            return None;
        };
        let next: u128 = value as u128 * 16 + d;
        if next > u64::MAX as u128 {
            return None;
        }
        value = next as u64;
        i += 1;
    }
    assert(chars@.take(chars.len() as int) == chars@);
    Some(value)
}

/// The digits with which a number is written are read back as the number.
pub proof fn lemma_hex_round_trip(n: nat, width: nat)
    requires
        fits(n, width),
    ensures
        hex_value(hex_fixed(n, width)) == Some(n),
    decreases width,
{
    if width > 0 {
        lemma_hex_round_trip(n / 16, (width - 1) as nat);
        let digit = hex_digit((n % 16) as int);
        assert(hex_fixed(n, width).drop_last() =~= hex_fixed(n / 16, (width - 1) as nat));
        assert(hex_fixed(n, width).last() == digit);
        assert(digit as nat == if n % 16 < 10 {
            48 + n % 16
        } else {
            87 + n % 16
        });
        assert(hex_digit_value(digit) == Some(n % 16));
    }
}

/// Writes a fingerprint as 16 hexadecimal digits.
pub fn fingerprint_to_hex(code: u64) -> (out: String)
    ensures
        out@ == hex_fixed(code as nat, 16),
        parsed_hex_u64(out@) == Some(code),
{
    proof {
        vstd::arithmetic::power2::lemma2_to64_rest();
        lemma_fits(code as nat, 16);
        lemma_hex_round_trip(code as nat, 16);
        crate::ident::lemma_hex_fixed_len(code as nat, 16);
    }
    format_hex(code as u128, 16)
}

/// Reads a fingerprint from hexadecimal digits.
pub fn fingerprint_from_hex(text: &str) -> (out: Option<u64>)
    ensures
        out == parsed_hex_u64(text@),
{
    parse_hex_u64(text)
}

} // verus!
