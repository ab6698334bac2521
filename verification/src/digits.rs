//! Numerals: reading hexadecimal and decimal tokens, and rendering values
//! back as digit strings.
//!
//! Reading follows the lenient shape `from_str_radix` and `parse` give the
//! unsigned integer types: an optional leading plus sign, then at least one
//! digit of the base, rejected on any other character or when the value is
//! out of range.

use crate::text::dec_digit_value;
use crate::text::hex_digit_value;
use crate::text::is_dec_digit;
use crate::text::is_hex_digit;
use vstd::prelude::*;
use vstd::string::StrSliceExecFns;
use vstd::string::StringExecFns;

verus! {

/// The value of a digit string read as hexadecimal.
pub open spec fn hex_value(s: Seq<char>) -> nat
    decreases s.len(),
{
    if s.len() == 0 {
        0
    } else {
        hex_value(s.drop_last()) * 16 + hex_digit_value(s.last())
    }
}

/// The value of a digit string read as decimal.
pub open spec fn dec_value(s: Seq<char>) -> nat
    decreases s.len(),
{
    if s.len() == 0 {
        0
    } else {
        dec_value(s.drop_last()) * 10 + dec_digit_value(s.last())
    }
}

/// Whether every character of `d` is a hexadecimal digit.
pub open spec fn all_hex_digits(d: Seq<char>) -> bool {
    forall|k: int| 0 <= k < d.len() ==> is_hex_digit(d[k])
}

/// Whether every character of `d` is a decimal digit.
pub open spec fn all_dec_digits(d: Seq<char>) -> bool {
    forall|k: int| 0 <= k < d.len() ==> is_dec_digit(d[k])
}

/// A token read as a 16-bit hexadecimal value: an optional leading plus
/// sign, then one or more hexadecimal digits whose value fits; anything
/// else is rejected.
pub open spec fn parse_hex_u16(t: Seq<char>) -> Option<u16> {
    let d = if t.len() > 0 && t[0] == '+' {
        t.drop_first()
    } else {
        t
    };
    if d.len() > 0 && all_hex_digits(d) && hex_value(d) <= 0xFFFF {
        Some(hex_value(d) as u16)
    } else {
        None
    }
}

/// A token read as a byte-sized hexadecimal value, with the same shape as
/// `parse_hex_u16`.
pub open spec fn parse_hex_u8(t: Seq<char>) -> Option<u8> {
    let d = if t.len() > 0 && t[0] == '+' {
        t.drop_first()
    } else {
        t
    };
    if d.len() > 0 && all_hex_digits(d) && hex_value(d) <= 0xFF {
        Some(hex_value(d) as u8)
    } else {
        None
    }
}

/// A token read as a byte-sized decimal value, with the same lenient shape.
pub open spec fn parse_dec_u8(t: Seq<char>) -> Option<u8> {
    let d = if t.len() > 0 && t[0] == '+' {
        t.drop_first()
    } else {
        t
    };
    if d.len() > 0 && all_dec_digits(d) && dec_value(d) <= 0xFF {
        Some(dec_value(d) as u8)
    } else {
        None
    }
}

/// The numeric value of a hexadecimal digit character.
pub fn hex_digit_val(c: char) -> (v: u32)
    requires
        is_hex_digit(c),
    ensures
        v == hex_digit_value(c),
{
    let u = c as u32;
    if u <= 57 {
        u - 48
    } else if u >= 97 {
        u - 87
    } else {
        u - 55
    }
}

/// The value of the all-hexadecimal span `[from, to)` of `s`, capped: the
/// exact value when it is at most `0xFFFF`, and `0x10000` otherwise.
fn hex_span_value(s: &str, from: usize, to: usize) -> (v: u32)
    requires
        from <= to <= s@.len(),
        forall|k: int| from <= k < to ==> is_hex_digit(s@[k]),
    ensures
        hex_value(s@.subrange(from as int, to as int)) <= 0xFFFF ==> v == hex_value(
            s@.subrange(from as int, to as int),
        ),
        hex_value(s@.subrange(from as int, to as int)) > 0xFFFF ==> v == 0x10000,
{
    let mut acc: u32 = 0;
    let mut k: usize = from;
    proof {
        assert(s@.subrange(from as int, from as int) =~= Seq::<char>::empty());
    }
    while k < to
        invariant
            from <= k <= to <= s@.len(),
            forall|j: int| from <= j < to ==> is_hex_digit(s@[j]),
            hex_value(s@.subrange(from as int, k as int)) <= 0xFFFF ==> acc == hex_value(
                s@.subrange(from as int, k as int),
            ),
            hex_value(s@.subrange(from as int, k as int)) > 0xFFFF ==> acc == 0x10000,
            acc <= 0x10000,
        decreases to - k,
    {
        let ghost pre = s@.subrange(from as int, k as int);
        let c = s.get_char(k);
        let d = hex_digit_val(c);
        proof {
            assert(s@.subrange(from as int, k + 1).drop_last() =~= pre);
            assert(s@.subrange(from as int, k + 1).last() == s@[k as int]);
        }
        acc = if acc * 16 + d > 0xFFFF {
            0x10000
        } else {
            acc * 16 + d
        };
        k += 1;
    }
    acc
}

/// Read the span `[from, to)` of `s`, known to be one or more hexadecimal
/// digits, as a byte-sized value; out-of-range spans are rejected.
pub fn hex_u8_of_span(s: &str, from: usize, to: usize) -> (r: Option<u8>)
    requires
        from <= to <= s@.len(),
        forall|k: int| from <= k < to ==> is_hex_digit(s@[k]),
    ensures
        r == (if hex_value(s@.subrange(from as int, to as int)) <= 0xFF {
            Some(hex_value(s@.subrange(from as int, to as int)) as u8)
        } else {
            Option::<u8>::None
        }),
{
    let v = hex_span_value(s, from, to);
    if v <= 0xFF {
        Some(v as u8)
    } else {
        None
    }
}

/// Read the whole token `t` as a 16-bit hexadecimal value.
pub fn hex_u16_of_token(t: &str) -> (r: Option<u16>)
    ensures
        r == parse_hex_u16(t@),
{
    let n = t.unicode_len();
    let start: usize = if n > 0 && t.get_char(0) == '+' {
        1
    } else {
        0
    };
    let ghost d = if t@.len() > 0 && t@[0] == '+' {
        t@.drop_first()
    } else {
        t@
    };
    proof {
        assert(d =~= t@.subrange(start as int, n as int));
    }
    if start >= n {
        return None;
    }
    let mut k: usize = start;
    while k < n
        invariant
            start <= k <= n == t@.len(),
            d == t@.subrange(start as int, n as int),
            d == (if t@.len() > 0 && t@[0] == '+' {
                t@.drop_first()
            } else {
                t@
            }),
            forall|j: int| start <= j < k ==> is_hex_digit(t@[j]),
        decreases n - k,
    {
        if !crate::text::hex_digit_char(t.get_char(k)) {
            proof {
                assert(0 <= k - start < d.len());
                assert(d[k - start] == t@[k as int]);
                assert(!is_hex_digit(d[k - start]));
                assert(!all_hex_digits(d));
            }
            return None;
        }
        k += 1;
    }
    let v = hex_span_value(t, start, n);
    proof {
        assert(all_hex_digits(d));
    }
    if v <= 0xFFFF {
        Some(v as u16)
    } else {
        None
    }
}

/// Read the whole token `t` as a byte-sized hexadecimal value.
pub fn hex_u8_of_token(t: &str) -> (r: Option<u8>)
    ensures
        r == parse_hex_u8(t@),
{
    match hex_u16_of_token(t) {
        Some(v) => {
            if v <= 0xFF {
                Some(v as u8)
            } else {
                proof {
                    lemma_hex_u8_of_u16(t@);
                }
                None
            }
        },
        None => {
            proof {
                lemma_hex_u8_of_u16(t@);
            }
            None
        },
    }
}

/// A token in range for 16 bits is in range for 8 exactly when its value
/// is; one rejected for 16 bits is rejected for 8 as well.
proof fn lemma_hex_u8_of_u16(t: Seq<char>)
    ensures
        parse_hex_u16(t) is None ==> parse_hex_u8(t) is None,
        parse_hex_u16(t) matches Some(v) ==> parse_hex_u8(t) == (if v <= 0xFF {
            Some(v as u8)
        } else {
            Option::<u8>::None
        }),
{
}

/// The value of the all-decimal span `[from, to)` of `s`, capped: the
/// exact value when it is at most `0xFFFF`, and `0x10000` otherwise.
fn dec_span_value(s: &str, from: usize, to: usize) -> (v: u32)
    requires
        from <= to <= s@.len(),
        forall|k: int| from <= k < to ==> is_dec_digit(s@[k]),
    ensures
        dec_value(s@.subrange(from as int, to as int)) <= 0xFFFF ==> v == dec_value(
            s@.subrange(from as int, to as int),
        ),
        dec_value(s@.subrange(from as int, to as int)) > 0xFFFF ==> v == 0x10000,
{
    let mut acc: u32 = 0;
    let mut k: usize = from;
    proof {
        assert(s@.subrange(from as int, from as int) =~= Seq::<char>::empty());
    }
    while k < to
        invariant
            from <= k <= to <= s@.len(),
            forall|j: int| from <= j < to ==> is_dec_digit(s@[j]),
            dec_value(s@.subrange(from as int, k as int)) <= 0xFFFF ==> acc == dec_value(
                s@.subrange(from as int, k as int),
            ),
            dec_value(s@.subrange(from as int, k as int)) > 0xFFFF ==> acc == 0x10000,
            acc <= 0x10000,
        decreases to - k,
    {
        let ghost pre = s@.subrange(from as int, k as int);
        let c = s.get_char(k);
        let d = (c as u32) - 48;
        proof {
            assert(s@.subrange(from as int, k + 1).drop_last() =~= pre);
            assert(s@.subrange(from as int, k + 1).last() == s@[k as int]);
        }
        acc = if acc * 10 + d > 0xFFFF {
            0x10000
        } else {
            acc * 10 + d
        };
        k += 1;
    }
    acc
}

/// Read the whole token `t` as a byte-sized decimal value.
pub fn dec_u8_of_token(t: &str) -> (r: Option<u8>)
    ensures
        r == parse_dec_u8(t@),
{
    let n = t.unicode_len();
    let start: usize = if n > 0 && t.get_char(0) == '+' {
        1
    } else {
        0
    };
    let ghost d = if t@.len() > 0 && t@[0] == '+' {
        t@.drop_first()
    } else {
        t@
    };
    proof {
        assert(d =~= t@.subrange(start as int, n as int));
    }
    if start >= n {
        return None;
    }
    let mut k: usize = start;
    while k < n
        invariant
            start <= k <= n == t@.len(),
            d == t@.subrange(start as int, n as int),
            d == (if t@.len() > 0 && t@[0] == '+' {
                t@.drop_first()
            } else {
                t@
            }),
            forall|j: int| start <= j < k ==> is_dec_digit(t@[j]),
        decreases n - k,
    {
        let u = t.get_char(k) as u32;
        if !(48 <= u && u <= 57) {
            proof {
                assert(0 <= k - start < d.len());
                assert(d[k - start] == t@[k as int]);
                assert(!is_dec_digit(d[k - start]));
                assert(!all_dec_digits(d));
            }
            return None;
        }
        k += 1;
    }
    let v = dec_span_value(t, start, n);
    proof {
        assert(all_dec_digits(d));
    }
    if v <= 0xFF {
        Some(v as u8)
    } else {
        None
    }
}

/// The uppercase hexadecimal digit character for `d` (0 to 15).
pub open spec fn hex_digit_seq(d: int) -> Seq<char> {
    if d == 0 {
        "0"@
    } else if d == 1 {
        "1"@
    } else if d == 2 {
        "2"@
    } else if d == 3 {
        "3"@
    } else if d == 4 {
        "4"@
    } else if d == 5 {
        "5"@
    } else if d == 6 {
        "6"@
    } else if d == 7 {
        "7"@
    } else if d == 8 {
        "8"@
    } else if d == 9 {
        "9"@
    } else if d == 10 {
        "A"@
    } else if d == 11 {
        "B"@
    } else if d == 12 {
        "C"@
    } else if d == 13 {
        "D"@
    } else if d == 14 {
        "E"@
    } else {
        "F"@
    }
}

/// The decimal digit character for `d` (0 to 9).
pub open spec fn dec_digit_seq(d: int) -> Seq<char> {
    if d == 0 {
        "0"@
    } else if d == 1 {
        "1"@
    } else if d == 2 {
        "2"@
    } else if d == 3 {
        "3"@
    } else if d == 4 {
        "4"@
    } else if d == 5 {
        "5"@
    } else if d == 6 {
        "6"@
    } else if d == 7 {
        "7"@
    } else if d == 8 {
        "8"@
    } else {
        "9"@
    }
}

/// A byte in exactly two uppercase hexadecimal digits.
pub open spec fn hex_byte_seq(b: u8) -> Seq<char> {
    hex_digit_seq(b as int / 16) + hex_digit_seq(b as int % 16)
}

/// A 16-bit value in uppercase hexadecimal, without padding.
pub open spec fn hex_u16_seq(v: u16) -> Seq<char>
    decreases v,
{
    if v < 16 {
        hex_digit_seq(v as int)
    } else {
        hex_u16_seq(v / 16) + hex_digit_seq(v as int % 16)
    }
}

/// A 16-bit value in uppercase hexadecimal, padded to at least two digits.
pub open spec fn hex_u16_pad2_seq(v: u16) -> Seq<char> {
    if v < 0x100 {
        hex_byte_seq(v as u8)
    } else {
        hex_u16_seq(v)
    }
}

/// A 16-bit value in decimal.
pub open spec fn dec_u16_seq(v: u16) -> Seq<char>
    decreases v,
{
    if v < 10 {
        dec_digit_seq(v as int)
    } else {
        dec_u16_seq(v / 10) + dec_digit_seq(v as int % 10)
    }
}

/// Append the uppercase hexadecimal digit for `d`.
pub fn append_hex_digit(out: &mut String, d: u8)
    requires
        d < 16,
    ensures
        final(out)@ == old(out)@ + hex_digit_seq(d as int),
{
    match d {
        0 => out.append("0"),
        1 => out.append("1"),
        2 => out.append("2"),
        3 => out.append("3"),
        4 => out.append("4"),
        5 => out.append("5"),
        6 => out.append("6"),
        7 => out.append("7"),
        8 => out.append("8"),
        9 => out.append("9"),
        10 => out.append("A"),
        11 => out.append("B"),
        12 => out.append("C"),
        13 => out.append("D"),
        14 => out.append("E"),
        _ => out.append("F"),
    }
}

/// Append the decimal digit for `d`.
pub fn append_dec_digit(out: &mut String, d: u8)
    requires
        d < 10,
    ensures
        final(out)@ == old(out)@ + dec_digit_seq(d as int),
{
    match d {
        0 => out.append("0"),
        1 => out.append("1"),
        2 => out.append("2"),
        3 => out.append("3"),
        4 => out.append("4"),
        5 => out.append("5"),
        6 => out.append("6"),
        7 => out.append("7"),
        8 => out.append("8"),
        _ => out.append("9"),
    }
}

/// Append a byte as exactly two uppercase hexadecimal digits.
pub fn append_hex_byte(out: &mut String, b: u8)
    ensures
        final(out)@ == old(out)@ + hex_byte_seq(b),
{
    append_hex_digit(out, b / 16);
    append_hex_digit(out, b % 16);
    proof {
        assert(old(out)@ + hex_digit_seq(b as int / 16) + hex_digit_seq(b as int % 16) =~= old(
            out,
        )@ + hex_byte_seq(b));
    }
}

/// Append a 16-bit value in uppercase hexadecimal, without padding.
pub fn append_hex_u16(out: &mut String, v: u16)
    ensures
        final(out)@ == old(out)@ + hex_u16_seq(v),
    decreases v,
{
    if v < 16 {
        append_hex_digit(out, v as u8);
    } else {
        append_hex_u16(out, v / 16);
        append_hex_digit(out, (v % 16) as u8);
        proof {
            assert(old(out)@ + hex_u16_seq(v / 16) + hex_digit_seq(v as int % 16) =~= old(out)@
                + hex_u16_seq(v));
        }
    }
}

/// Append a 16-bit value in uppercase hexadecimal, padded to at least two
/// digits.
pub fn append_hex_u16_pad2(out: &mut String, v: u16)
    ensures
        final(out)@ == old(out)@ + hex_u16_pad2_seq(v),
{
    if v < 0x100 {
        append_hex_byte(out, v as u8);
    } else {
        append_hex_u16(out, v);
    }
}

/// Append a 16-bit value in decimal.
pub fn append_dec_u16(out: &mut String, v: u16)
    ensures
        final(out)@ == old(out)@ + dec_u16_seq(v),
    decreases v,
{
    if v < 10 {
        append_dec_digit(out, v as u8);
    } else {
        append_dec_u16(out, v / 10);
        append_dec_digit(out, (v % 10) as u8);
        proof {
            assert(old(out)@ + dec_u16_seq(v / 10) + dec_digit_seq(v as int % 10) =~= old(out)@
                + dec_u16_seq(v));
        }
    }
}

} // verus!
