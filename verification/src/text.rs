//! Character classes and whitespace splitting for the capabilities grammar.
//!
//! Keys are runs of alphanumeric or underscore characters, values are split
//! on whitespace, and codes are runs of hexadecimal digits. The classes are
//! stated here as spec functions, together with the generic "maximal run"
//! scanner the parser's specification is built on.

use vstd::prelude::*;
use vstd::string::StrSliceExecFns;
use vstd::string::StringExecFns;

verus! {

/// The Unicode `White_Space` characters: exactly the set that
/// `char::is_whitespace` accepts.
pub open spec fn is_space(c: char) -> bool {
    let u = c as u32;
    ||| (9 <= u && u <= 13)
    ||| u == 32
    ||| u == 0x85
    ||| u == 0xA0
    ||| u == 0x1680
    ||| (0x2000 <= u && u <= 0x200A)
    ||| u == 0x2028
    ||| u == 0x2029
    ||| u == 0x202F
    ||| u == 0x205F
    ||| u == 0x3000
}

/// Whether `c` is whitespace.
pub fn space_char(c: char) -> (b: bool)
    ensures
        b == is_space(c),
{
    let u = c as u32;
    (9 <= u && u <= 13) || u == 32 || u == 0x85 || u == 0xA0 || u == 0x1680 || (0x2000 <= u && u
        <= 0x200A) || u == 0x2028 || u == 0x2029 || u == 0x202F || u == 0x205F || u == 0x3000
}

/// An ASCII letter or decimal digit.
pub open spec fn is_ascii_alnum(c: char) -> bool {
    let u = c as u32;
    (48 <= u && u <= 57) || (65 <= u && u <= 90) || (97 <= u && u <= 122)
}

/// What `char::is_alphanumeric` returns on a character outside ASCII that
/// is not whitespace; the result depends on the character alone.
pub uninterp spec fn is_nonascii_alnum(c: char) -> bool;

/// Whether `c` is alphanumeric in the sense of `char::is_alphanumeric`.
/// Within ASCII its documentation gives the members plainly: the letters
/// and the decimal digits form the alphabetic and number categories there,
/// and no other ASCII character does. No `White_Space` character is in
/// either category: whitespace falls under the separator and control
/// categories, so it is never alphanumeric.
pub open spec fn is_alnum(c: char) -> bool {
    if (c as u32) < 128 {
        is_ascii_alnum(c)
    } else if is_space(c) {
        false
    } else {
        is_nonascii_alnum(c)
    }
}

/// Relies on `char::is_alphanumeric`: a pure classification of the
/// character into the Unicode alphabetic and number categories.
#[verifier::external_body]
pub fn alnum_char(c: char) -> (b: bool)
    ensures
        b == is_alnum(c),
        (c as u32) >= 128 && !is_space(c) ==> b == is_nonascii_alnum(c),
{
    c.is_alphanumeric()
}

/// Law: no whitespace character is a key character, so whitespace can
/// never be read as key text.
pub proof fn lemma_space_not_key(c: char)
    requires
        is_space(c),
    ensures
        !is_key_char(c),
{
}

/// A character that may appear in a top-level key: alphanumeric or
/// underscore.
pub open spec fn is_key_char(c: char) -> bool {
    is_alnum(c) || c == '_'
}

/// Whether `c` may appear in a top-level key.
pub fn key_char(c: char) -> (b: bool)
    ensures
        b == is_key_char(c),
{
    alnum_char(c) || c == '_'
}

/// An ASCII hexadecimal digit.
pub open spec fn is_hex_digit(c: char) -> bool {
    let u = c as u32;
    (48 <= u && u <= 57) || (97 <= u && u <= 102) || (65 <= u && u <= 70)
}

/// Whether `c` is an ASCII hexadecimal digit.
pub fn hex_digit_char(c: char) -> (b: bool)
    ensures
        b == is_hex_digit(c),
{
    let u = c as u32;
    (48 <= u && u <= 57) || (97 <= u && u <= 102) || (65 <= u && u <= 70)
}

/// The numeric value of a hexadecimal digit (0 for characters outside the
/// class, which the grammar never asks about).
pub open spec fn hex_digit_value(c: char) -> nat {
    let u = c as u32;
    if 48 <= u && u <= 57 {
        (u - 48) as nat
    } else if 97 <= u && u <= 102 {
        (u - 87) as nat
    } else if 65 <= u && u <= 70 {
        (u - 55) as nat
    } else {
        0
    }
}

/// An ASCII decimal digit.
pub open spec fn is_dec_digit(c: char) -> bool {
    let u = c as u32;
    48 <= u && u <= 57
}

/// The numeric value of a decimal digit.
pub open spec fn dec_digit_value(c: char) -> nat {
    let u = c as u32;
    if 48 <= u && u <= 57 {
        (u - 48) as nat
    } else {
        0
    }
}

/// The key-character class as a value, for use with `run_end`.
pub open spec fn key_char_p() -> spec_fn(char) -> bool {
    |c: char| is_key_char(c)
}

/// The whitespace class as a value, for use with `run_end`.
pub open spec fn space_p() -> spec_fn(char) -> bool {
    |c: char| is_space(c)
}

/// The hexadecimal-digit class as a value, for use with `run_end`.
pub open spec fn hex_digit_p() -> spec_fn(char) -> bool {
    |c: char| is_hex_digit(c)
}

/// The end of the maximal run of characters satisfying `p` that starts at
/// `i`: the first index at or after `i` whose character fails `p`, or the
/// end of the string.
pub open spec fn run_end(s: Seq<char>, i: int, p: spec_fn(char) -> bool) -> int
    decreases s.len() - i,
    when 0 <= i <= s.len()
{
    if i < s.len() && p(s[i]) {
        run_end(s, i + 1, p)
    } else {
        i
    }
}

pub proof fn lemma_run_end(s: Seq<char>, i: int, p: spec_fn(char) -> bool)
    requires
        0 <= i <= s.len(),
    ensures
        i <= run_end(s, i, p) <= s.len(),
        forall|k: int| i <= k < run_end(s, i, p) ==> p(s[k]),
        run_end(s, i, p) < s.len() ==> !p(s[run_end(s, i, p)]),
    decreases s.len() - i,
{
    if i < s.len() && p(s[i]) {
        lemma_run_end(s, i + 1, p);
    }
}

/// A run of characters all satisfying `p`, followed by the end of the
/// string or a character failing `p`, is maximal: `run_end` lands exactly
/// at its end.
pub proof fn lemma_run_end_of_run(s: Seq<char>, i: int, j: int, p: spec_fn(char) -> bool)
    requires
        0 <= i <= j <= s.len(),
        forall|k: int| i <= k < j ==> p(s[k]),
        j < s.len() ==> !p(s[j]),
    ensures
        run_end(s, i, p) == j,
    decreases j - i,
{
    if i < j {
        lemma_run_end_of_run(s, i + 1, j, p);
    }
}

/// The tokens of `s` from position `i` on, split on whitespace, with `cur`
/// the (possibly empty) token already being read.
pub open spec fn split_ws_acc(s: Seq<char>, i: int, cur: Seq<char>) -> Seq<Seq<char>>
    decreases s.len() - i,
    when 0 <= i <= s.len()
{
    if i >= s.len() {
        if cur.len() == 0 {
            Seq::empty()
        } else {
            seq![cur]
        }
    } else if is_space(s[i]) {
        if cur.len() == 0 {
            split_ws_acc(s, i + 1, Seq::empty())
        } else {
            seq![cur] + split_ws_acc(s, i + 1, Seq::empty())
        }
    } else {
        split_ws_acc(s, i + 1, cur.push(s[i]))
    }
}

/// The whitespace-separated tokens of `s`, in order.
pub open spec fn split_ws(s: Seq<char>) -> Seq<Seq<char>> {
    split_ws_acc(s, 0, Seq::empty())
}

/// Whether two string slices hold the same characters.
pub fn str_chars_eq(a: &str, b: &str) -> (r: bool)
    ensures
        r == (a@ == b@),
{
    let na = a.unicode_len();
    let nb = b.unicode_len();
    if na != nb {
        return false;
    }
    let mut i: usize = 0;
    while i < na
        invariant
            na == a@.len(),
            na == b@.len(),
            0 <= i <= na,
            forall|k: int| 0 <= k < i ==> a@[k] == b@[k],
        decreases na - i,
    {
        if a.get_char(i) != b.get_char(i) {
            return false;
        }
        i += 1;
    }
    proof {
        assert(a@ =~= b@);
    }
    true
}

/// Whether `x` is `y` itself or its ASCII uppercase form; `y` is expected
/// lowercase.
pub open spec fn ci_lower_eq(x: char, y: char) -> bool {
    x == y || ((65 <= x as u32 && x as u32 <= 90) && y as u32 == x as u32 + 32)
}

/// Whether `a` matches `b` when ASCII case in `a` is ignored; `b` is
/// expected lowercase.
pub open spec fn matches_keyword_ci(a: Seq<char>, b: Seq<char>) -> bool {
    a.len() == b.len() && (forall|k: int| 0 <= k < a.len() ==> ci_lower_eq(a[k], b[k]))
}

/// Whether `a` equals the lowercase keyword `b` up to ASCII case.
pub fn str_eq_ci(a: &str, b: &str) -> (r: bool)
    ensures
        r == matches_keyword_ci(a@, b@),
{
    let na = a.unicode_len();
    let nb = b.unicode_len();
    if na != nb {
        return false;
    }
    let mut i: usize = 0;
    while i < na
        invariant
            na == a@.len(),
            na == b@.len(),
            0 <= i <= na,
            forall|k: int| 0 <= k < i ==> ci_lower_eq(a@[k], b@[k]),
        decreases na - i,
    {
        let x = a.get_char(i);
        let y = b.get_char(i);
        let xu = x as u32;
        if !(x == y || ((65 <= xu && xu <= 90) && y as u32 == xu + 32)) {
            return false;
        }
        i += 1;
    }
    true
}

/// Split `s` between `from` and `to` into its whitespace-separated tokens.
pub fn split_whitespace_span(s: &str, from: usize, to: usize) -> (toks: Vec<String>)
    requires
        from <= to <= s@.len(),
    ensures
        toks.deep_view() == split_ws(s@.subrange(from as int, to as int)),
{
    let ghost span = s@.subrange(from as int, to as int);
    let mut toks: Vec<String> = Vec::new();
    let mut st: usize = from;
    let mut i: usize = from;
    proof {
        assert(toks.deep_view() =~= Seq::<Seq<char>>::empty());
        assert(s@.subrange(from as int, from as int) =~= Seq::<char>::empty());
        assert(Seq::<Seq<char>>::empty() + split_ws(span) =~= split_ws(span));
    }
    while i < to
        invariant
            from <= st <= i <= to <= s@.len(),
            span == s@.subrange(from as int, to as int),
            toks.deep_view() + split_ws_acc(span, i - from, s@.subrange(st as int, i as int))
                == split_ws(span),
        decreases to - i,
    {
        let ghost cur = s@.subrange(st as int, i as int);
        let ghost dv0 = toks.deep_view();
        let c = s.get_char(i);
        proof {
            assert(span[i - from] == s@[i as int]);
        }
        if space_char(c) {
            if st < i {
                let tok = s.substring_char(st, i);
                toks.push(String::from_str(tok));
                proof {
                    assert(toks.deep_view() =~= dv0 + seq![cur]);
                    assert((dv0 + seq![cur]) + split_ws_acc(span, i + 1 - from, Seq::<
                        char,
                    >::empty()) =~= dv0 + (seq![cur] + split_ws_acc(span, i + 1 - from, Seq::<
                        char,
                    >::empty())));
                }
            }
            st = i + 1;
            proof {
                assert(s@.subrange(st as int, st as int) =~= Seq::<char>::empty());
            }
        } else {
            proof {
                assert(s@.subrange(st as int, i + 1) =~= cur.push(s@[i as int]));
            }
        }
        i += 1;
    }
    let ghost cur = s@.subrange(st as int, i as int);
    let ghost dv0 = toks.deep_view();
    if st < i {
        let tok = s.substring_char(st, i);
        toks.push(String::from_str(tok));
        proof {
            assert(toks.deep_view() =~= dv0 + seq![cur]);
        }
    }
    toks
}

} // verus!
