//! The MCCS capabilities-string parser.
//!
//! A monitor answers a capabilities request with a nested, parenthesis
//! delimited text such as `(prot(monitor)type(lcd)model(X)vcp(10 12 60(01
//! 11)))`. Parsing never fails: malformed stretches are skipped and the
//! result is a document with fewer fields populated.
//!
//! The grammar is stated by the spec functions below, as a left-to-right
//! scan over the character sequence; `Capabilities::parse` is proved to
//! produce exactly the document those functions describe.

use crate::digits::hex_u16_of_token;
use crate::digits::hex_u8_of_span;
use crate::digits::hex_value;
use crate::digits::parse_hex_u16;
use crate::text::hex_digit_char;
use crate::text::hex_digit_p;
use crate::text::is_hex_digit;
use crate::text::is_key_char;
use crate::text::is_space;
use crate::text::key_char;
use crate::text::key_char_p;
use crate::text::lemma_run_end;
use crate::text::run_end;
use crate::text::space_char;
use crate::text::space_p;
use crate::text::split_whitespace_span;
use crate::text::split_ws;
use crate::text::str_chars_eq;
use std::collections::HashMap;
use vstd::prelude::*;
use vstd::string::StrSliceExecFns;
use vstd::string::StringExecFns;

verus! {

broadcast use vstd::std_specs::hash::group_hash_axioms;

/// The parsed capabilities document, at the specification level: each
/// field as a mathematical value.
#[verifier::ext_equal]
pub ghost struct DocSpec {
    pub protocol: Option<Seq<char>>,
    pub display_type: Option<Seq<char>>,
    pub model: Option<Seq<char>>,
    pub mccs_version: Option<Seq<char>>,
    pub commands: Seq<Seq<char>>,
    pub vcp: Map<u8, Seq<u16>>,
    pub raw: Seq<char>,
}

/// The document with nothing populated and `raw` retained.
pub open spec fn empty_doc(raw: Seq<char>) -> DocSpec {
    DocSpec {
        protocol: None,
        display_type: None,
        model: None,
        mccs_version: None,
        commands: Seq::empty(),
        vcp: Map::empty(),
        raw: raw,
    }
}

/// The index of the closing parenthesis that ends the group a scan at
/// position `i` and nesting depth `depth` is inside of, or the end of the
/// string when the group never closes. Depth rises on `(` and falls on `)`;
/// the scan stops on the `)` that would bring it to zero.
pub open spec fn close_index(s: Seq<char>, i: int, depth: int) -> int
    decreases s.len() - i,
    when 0 <= i <= s.len()
{
    if i >= s.len() {
        s.len() as int
    } else if s[i] == ')' && depth == 1 {
        i
    } else if s[i] == '(' {
        close_index(s, i + 1, depth + 1)
    } else if s[i] == ')' {
        close_index(s, i + 1, depth - 1)
    } else {
        close_index(s, i + 1, depth)
    }
}

pub proof fn lemma_close_index(s: Seq<char>, i: int, depth: int)
    requires
        0 <= i <= s.len(),
    ensures
        i <= close_index(s, i, depth) <= s.len(),
        close_index(s, i, depth) < s.len() ==> s[close_index(s, i, depth)] == ')',
    decreases s.len() - i,
{
    if i < s.len() && !(s[i] == ')' && depth == 1) {
        if s[i] == '(' {
            lemma_close_index(s, i + 1, depth + 1);
        } else if s[i] == ')' {
            lemma_close_index(s, i + 1, depth - 1);
        } else {
            lemma_close_index(s, i + 1, depth);
        }
    }
}

/// The list of 16-bit values an extracted value-list body yields: each
/// whitespace token read as hexadecimal, tokens that fail to read dropped.
pub open spec fn hex_u16_list(tokens: Seq<Seq<char>>) -> Seq<u16>
    decreases tokens.len(),
{
    if tokens.len() == 0 {
        Seq::empty()
    } else {
        let rest = hex_u16_list(tokens.drop_first());
        match parse_hex_u16(tokens.first()) {
            Some(v) => seq![v] + rest,
            None => rest,
        }
    }
}

/// One step of the VCP sub-grammar, folded over the value of the `vcp`
/// key from position `i` on: a run of hexadecimal digits is a byte code
/// (dropped when out of range); a parenthesized group after it, with
/// whitespace allowed between, holds its discrete values; a code without a
/// group is recorded with no values; anything else is skipped one
/// character at a time.
pub open spec fn vcp_scan(s: Seq<char>, i: int, m: Map<u8, Seq<u16>>) -> Map<u8, Seq<u16>>
    decreases s.len() - i,
    when 0 <= i <= s.len()
    via vcp_scan_decreases
{
    if i >= s.len() {
        m
    } else if is_hex_digit(s[i]) {
        let j = run_end(s, i, hex_digit_p());
        if hex_value(s.subrange(i, j)) <= 0xFF {
            let code = hex_value(s.subrange(i, j)) as u8;
            let k = run_end(s, j, space_p());
            if k < s.len() && s[k] == '(' {
                let c = close_index(s, k + 1, 1);
                let vals = hex_u16_list(split_ws(s.subrange(k + 1, c)));
                vcp_scan(
                    s,
                    if c < s.len() {
                        c + 1
                    } else {
                        c
                    },
                    m.insert(code, vals),
                )
            } else {
                vcp_scan(s, k, m.insert(code, Seq::empty()))
            }
        } else {
            vcp_scan(s, j, m)
        }
    } else {
        vcp_scan(s, i + 1, m)
    }
}

#[via_fn]
proof fn vcp_scan_decreases(s: Seq<char>, i: int, m: Map<u8, Seq<u16>>) {
    if 0 <= i < s.len() && is_hex_digit(s[i]) {
        assert(hex_digit_p()(s[i]) == is_hex_digit(s[i]));
        lemma_run_end(s, i + 1, hex_digit_p());
        let j = run_end(s, i, hex_digit_p());
        lemma_run_end(s, j, space_p());
        let k = run_end(s, j, space_p());
        if k < s.len() && s[k] == '(' {
            lemma_close_index(s, k + 1, 1);
        }
    }
}

/// The feature map the value of the `vcp` key yields.
pub open spec fn vcp_map(s: Seq<char>) -> Map<u8, Seq<u16>> {
    vcp_scan(s, 0, Map::empty())
}

/// Fold one extracted `key(value)` pair into the document. The four
/// string keys store the value verbatim, `cmds` splits it on whitespace,
/// `vcp` reads the sub-grammar, and any other key is dropped whole.
pub open spec fn apply_key(d: DocSpec, key: Seq<char>, value: Seq<char>) -> DocSpec {
    if key == "prot"@ {
        DocSpec { protocol: Some(value), ..d }
    } else if key == "type"@ {
        DocSpec { display_type: Some(value), ..d }
    } else if key == "model"@ {
        DocSpec { model: Some(value), ..d }
    } else if key == "mccs_ver"@ {
        DocSpec { mccs_version: Some(value), ..d }
    } else if key == "cmds"@ {
        DocSpec { commands: split_ws(value), ..d }
    } else if key == "vcp"@ {
        DocSpec { vcp: vcp_map(value), ..d }
    } else {
        d
    }
}

/// The top-level scan from position `i` on: a maximal run of key
/// characters followed directly by `(` has its balanced value extracted
/// and folded in, and the scan resumes after the matching `)`; any other
/// character is skipped.
pub open spec fn scan_top(s: Seq<char>, i: int, d: DocSpec) -> DocSpec
    decreases s.len() - i,
    when 0 <= i <= s.len()
    via scan_top_decreases
{
    if i >= s.len() {
        d
    } else if is_key_char(s[i]) {
        let j = run_end(s, i, key_char_p());
        if j < s.len() && s[j] == '(' {
            let c = close_index(s, j + 1, 1);
            let d2 = apply_key(d, s.subrange(i, j), s.subrange(j + 1, c));
            scan_top(
                s,
                if c < s.len() {
                    c + 1
                } else {
                    c
                },
                d2,
            )
        } else {
            scan_top(s, j, d)
        }
    } else {
        scan_top(s, i + 1, d)
    }
}

#[via_fn]
proof fn scan_top_decreases(s: Seq<char>, i: int, d: DocSpec) {
    if 0 <= i < s.len() && is_key_char(s[i]) {
        assert(key_char_p()(s[i]) == is_key_char(s[i]));
        lemma_run_end(s, i + 1, key_char_p());
        let j = run_end(s, i, key_char_p());
        if j < s.len() && s[j] == '(' {
            lemma_close_index(s, j + 1, 1);
        }
    }
}

/// The index one past the last non-whitespace character.
pub open spec fn trim_last(s: Seq<char>) -> int
    decreases s.len(),
{
    if s.len() == 0 {
        0
    } else if is_space(s.last()) {
        trim_last(s.drop_last())
    } else {
        s.len() as int
    }
}

/// `s` with leading and trailing whitespace removed.
pub open spec fn trimmed(s: Seq<char>) -> Seq<char> {
    let t = s.subrange(0, trim_last(s));
    t.subrange(run_end(t, 0, space_p()), t.len() as int)
}

/// The body the top-level scan runs over: the input trimmed, and one
/// enclosing pair of parentheses stripped when both are present.
pub open spec fn content_of(raw: Seq<char>) -> Seq<char> {
    let t = trimmed(raw);
    if t.len() >= 2 && t[0] == '(' && t.last() == ')' {
        t.subrange(1, t.len() - 1)
    } else {
        t
    }
}

/// What parsing a raw capabilities string yields.
pub open spec fn parse_spec(raw: Seq<char>) -> DocSpec {
    scan_top(content_of(raw), 0, empty_doc(raw))
}

/// The view of a feature table as a map of value sequences.
pub open spec fn seq_of_vec() -> spec_fn(Vec<u16>) -> Seq<u16> {
    |v: Vec<u16>| v@
}

/// The mathematical contents of an executable feature table.
pub open spec fn vcp_table_view(m: HashMap<u8, Vec<u16>>) -> Map<u8, Seq<u16>> {
    m@.map_values(seq_of_vec())
}

pub proof fn lemma_vcp_table_view_insert(m: Map<u8, Vec<u16>>, code: u8, v: Vec<u16>)
    ensures
        m.insert(code, v).map_values(seq_of_vec()) =~= m.map_values(seq_of_vec()).insert(
            code,
            v@,
        ),
{
}

/// A parsed capabilities document. Created by `parse` and immutable
/// afterwards; every field is optional or empty when the input did not
/// supply it.
#[derive(Debug)]
pub struct Capabilities {
    /// Value of the `prot` key, verbatim.
    pub protocol: Option<String>,
    /// Value of the `type` key, verbatim.
    pub display_type: Option<String>,
    /// Value of the `model` key, verbatim.
    pub model: Option<String>,
    /// Whitespace-split tokens of the `cmds` key, in order.
    pub commands: Vec<String>,
    /// One entry per byte code the `vcp` key declares; a code declared
    /// without discrete values maps to an empty list.
    pub vcp_features: HashMap<u8, Vec<u16>>,
    /// Value of the `mccs_ver` key, verbatim.
    pub mccs_version: Option<String>,
    /// The original input, unmodified.
    pub raw: String,
}

impl View for Capabilities {
    type V = DocSpec;

    open spec fn view(&self) -> DocSpec {
        DocSpec {
            protocol: match self.protocol {
                Some(s) => Some(s@),
                None => None,
            },
            display_type: match self.display_type {
                Some(s) => Some(s@),
                None => None,
            },
            model: match self.model {
                Some(s) => Some(s@),
                None => None,
            },
            mccs_version: match self.mccs_version {
                Some(s) => Some(s@),
                None => None,
            },
            commands: self.commands.deep_view(),
            vcp: vcp_table_view(self.vcp_features),
            raw: self.raw@,
        }
    }
}

impl Default for Capabilities {
    /// The document of an empty input.
    fn default() -> (d: Self)
        ensures
            d@ == empty_doc(Seq::<char>::empty()),
    {
        let d = Capabilities {
            protocol: None,
            display_type: None,
            model: None,
            commands: Vec::new(),
            vcp_features: HashMap::new(),
            mccs_version: None,
            raw: String::new(),
        };
        proof {
            assert(d.commands.deep_view() =~= Seq::<Seq<char>>::empty());
            assert(vcp_table_view(d.vcp_features) =~= Map::<u8, Seq<u16>>::empty());
        }
        d
    }
}

/// Occurrences of `c` in `s`.
pub open spec fn char_count(s: Seq<char>, c: char) -> int
    decreases s.len(),
{
    if s.len() == 0 {
        0
    } else {
        char_count(s.drop_last(), c) + (if s.last() == c {
            1int
        } else {
            0int
        })
    }
}

/// A value whose parentheses are balanced: as many `(` as `)` in all, and
/// no prefix with more `)` than `(`.
pub open spec fn balanced(v: Seq<char>) -> bool {
    &&& char_count(v, '(') == char_count(v, ')')
    &&& forall|k: int|
        0 <= k <= v.len() ==> char_count(v.subrange(0, k), '(') >= char_count(
            v.subrange(0, k),
            ')',
        )
}

proof fn lemma_close_scan_balanced(s: Seq<char>, i: int, v: Seq<char>, rest: Seq<char>, k: int)
    requires
        0 <= i <= s.len(),
        s.subrange(i, s.len() as int) == v + seq![')'] + rest,
        balanced(v),
        0 <= k <= v.len(),
    ensures
        close_index(
            s,
            i + k,
            1 + char_count(v.subrange(0, k), '(') - char_count(v.subrange(0, k), ')'),
        ) == i + v.len(),
    decreases v.len() - k,
{
    let tail = s.subrange(i, s.len() as int);
    assert(tail.len() == v.len() + 1 + rest.len());
    let opens = char_count(v.subrange(0, k), '(');
    let closes = char_count(v.subrange(0, k), ')');
    let depth = 1 + opens - closes;
    assert(opens >= closes);
    if k == v.len() {
        assert(v.subrange(0, k) =~= v);
        assert(tail[k] == ')');
        assert(s[i + k] == tail[k]);
        assert(close_index(s, i + k, 1) == i + k);
    } else {
        let c = v[k];
        assert(tail[k] == v[k]);
        assert(s[i + k] == tail[k]);
        assert(v.subrange(0, k + 1).drop_last() =~= v.subrange(0, k));
        assert(v.subrange(0, k + 1).last() == v[k]);
        if c == ')' {
            assert(char_count(v.subrange(0, k + 1), '(') >= char_count(
                v.subrange(0, k + 1),
                ')',
            ));
            assert(depth >= 2);
            lemma_close_scan_balanced(s, i, v, rest, k + 1);
        } else if c == '(' {
            lemma_close_scan_balanced(s, i, v, rest, k + 1);
        } else {
            lemma_close_scan_balanced(s, i, v, rest, k + 1);
        }
    }
}

/// Law: the value extractor is robust to nesting. Scanning for the
/// closing parenthesis from the start of `v + ")" + rest`, where `v` is
/// balanced, stops exactly at the `)` after `v`: an inner balanced group
/// is taken into the value whole.
pub proof fn lemma_close_of_balanced(s: Seq<char>, i: int, v: Seq<char>, rest: Seq<char>)
    requires
        0 <= i <= s.len(),
        s.subrange(i, s.len() as int) == v + seq![')'] + rest,
        balanced(v),
    ensures
        close_index(s, i, 1) == i + v.len(),
{
    assert(v.subrange(0, 0) =~= Seq::<char>::empty());
    lemma_close_scan_balanced(s, i, v, rest, 0);
}

/// Law: a `key(value)` group whose value is balanced is consumed whole,
/// wherever it stands: the top-level scan folds the value in for the key
/// and resumes right after the matching `)`, so what follows is parsed
/// undisturbed.
pub proof fn lemma_nested_group(
    s: Seq<char>,
    i: int,
    key: Seq<char>,
    v: Seq<char>,
    rest: Seq<char>,
    d: DocSpec,
)
    requires
        0 <= i <= s.len(),
        s.subrange(i, s.len() as int) == key + seq!['('] + v + seq![')'] + rest,
        key.len() > 0,
        forall|k: int| 0 <= k < key.len() ==> is_key_char(key[k]),
        balanced(v),
    ensures
        scan_top(s, i, d) == scan_top(s, i + key.len() + v.len() + 2, apply_key(d, key, v)),
{
    let tail = s.subrange(i, s.len() as int);
    let w = v + seq![')'] + rest;
    let j = i + key.len();
    assert(tail.len() == key.len() + 1 + v.len() + 1 + rest.len());
    assert(j + 1 + w.len() == s.len());
    assert forall|t: int| 0 <= t < tail.len() implies s[i + t] == tail[t] by {}
    assert forall|k: int| i <= k < j implies key_char_p()(s[k]) by {
        assert(s[k] == tail[k - i]);
        assert(tail[k - i] == key[k - i]);
        assert(key_char_p()(s[k]) == is_key_char(s[k]));
    }
    assert(s[j] == tail[key.len() as int]);
    assert(s[j] == '(');
    assert(!key_char_p()(s[j])) by {
        assert(key_char_p()(s[j]) == is_key_char(s[j]));
    }
    crate::text::lemma_run_end_of_run(s, i, j, key_char_p());
    assert forall|t: int| 0 <= t < w.len() implies s.subrange(j + 1, s.len() as int)[t] == w[t] by {
        assert(s.subrange(j + 1, s.len() as int)[t] == s[j + 1 + t]);
        assert(s[j + 1 + t] == tail[key.len() + 1 + t]);
        if t < v.len() {
            assert(tail[key.len() + 1 + t] == v[t]);
            assert(w[t] == v[t]);
        } else if t == v.len() {
            assert(tail[key.len() + 1 + t] == ')');
            assert(w[t] == ')');
        } else {
            assert(tail[key.len() + 1 + t] == rest[t - v.len() - 1]);
            assert(w[t] == rest[t - v.len() - 1]);
        }
    }
    assert(s.subrange(j + 1, s.len() as int) =~= w);
    lemma_close_of_balanced(s, j + 1, v, rest);
    let close = j + 1 + v.len();
    assert(s[close] == tail[close - i]);
    assert(s[close] == ')');
    assert(close < s.len());
    assert(s.subrange(i, j) =~= key);
    assert(s.subrange(j + 1, close) =~= v);
    assert(is_key_char(s[i]));
    assert(scan_top(s, i, d) == scan_top(s, close + 1, apply_key(d, key, v)));
}

proof fn lemma_scan_top_raw(s: Seq<char>, i: int, d: DocSpec)
    requires
        0 <= i <= s.len(),
    ensures
        scan_top(s, i, d).raw == d.raw,
    decreases s.len() - i,
{
    if i < s.len() {
        if is_key_char(s[i]) {
            assert(key_char_p()(s[i]) == is_key_char(s[i]));
            lemma_run_end(s, i + 1, key_char_p());
            let j = run_end(s, i, key_char_p());
            if j < s.len() && s[j] == '(' {
                lemma_close_index(s, j + 1, 1);
                let c = close_index(s, j + 1, 1);
                let d2 = apply_key(d, s.subrange(i, j), s.subrange(j + 1, c));
                assert(d2.raw == d.raw);
                lemma_scan_top_raw(
                    s,
                    if c < s.len() {
                        c + 1
                    } else {
                        c
                    },
                    d2,
                );
            } else {
                lemma_scan_top_raw(s, j, d);
            }
        } else {
            lemma_scan_top_raw(s, i + 1, d);
        }
    }
}

/// Law: the parsed document retains the original input unmodified,
/// whatever the input holds.
pub proof fn lemma_parse_retains_raw(raw: Seq<char>)
    ensures
        parse_spec(raw).raw == raw,
{
    lemma_scan_top_raw(content_of(raw), 0, empty_doc(raw));
}

/// The scan never reads the retained input: replacing `raw` in the
/// starting document replaces it in the result and changes nothing else.
proof fn lemma_scan_top_set_raw(s: Seq<char>, i: int, d: DocSpec, r: Seq<char>)
    requires
        0 <= i <= s.len(),
    ensures
        scan_top(s, i, (DocSpec { raw: r, ..d })) == (DocSpec { raw: r, ..scan_top(s, i, d) }),
    decreases s.len() - i,
{
    if i < s.len() {
        if is_key_char(s[i]) {
            assert(key_char_p()(s[i]) == is_key_char(s[i]));
            lemma_run_end(s, i + 1, key_char_p());
            let j = run_end(s, i, key_char_p());
            if j < s.len() && s[j] == '(' {
                lemma_close_index(s, j + 1, 1);
                let c = close_index(s, j + 1, 1);
                let key = s.subrange(i, j);
                let value = s.subrange(j + 1, c);
                assert(apply_key(DocSpec { raw: r, ..d }, key, value) == DocSpec {
                    raw: r,
                    ..apply_key(d, key, value)
                });
                lemma_scan_top_set_raw(
                    s,
                    if c < s.len() {
                        c + 1
                    } else {
                        c
                    },
                    apply_key(d, key, value),
                    r,
                );
            } else {
                lemma_scan_top_set_raw(s, j, d, r);
            }
        } else {
            lemma_scan_top_set_raw(s, i + 1, d, r);
        }
    }
}

/// Law: one enclosing parenthesis pair is insignificant. For a body with
/// no surrounding whitespace that is not already wrapped, parsing the
/// wrapped input yields the same document as parsing the body, with only
/// `raw` holding the wrapped input itself.
pub proof fn lemma_outer_wrapper_insignificant(s: Seq<char>)
    requires
        trimmed(s) == s,
        !(s.len() >= 2 && s[0] == '(' && s.last() == ')'),
    ensures
        parse_spec(seq!['('] + s + seq![')']) == (DocSpec {
            raw: seq!['('] + s + seq![')'],
            ..parse_spec(s)
        }),
{
    let w = seq!['('] + s + seq![')'];
    assert(w.len() == s.len() + 2);
    assert(w[0] == '(');
    assert(w.last() == ')');
    assert(!is_space('('));
    assert(!is_space(')'));
    assert(trim_last(w) == w.len());
    let t = w.subrange(0, trim_last(w));
    assert(t =~= w);
    assert(run_end(t, 0, space_p()) == 0) by {
        assert(space_p()(t[0]) == is_space(t[0]));
    }
    assert(trimmed(w) =~= w);
    assert(content_of(w) =~= w.subrange(1, w.len() - 1));
    assert(w.subrange(1, w.len() - 1) =~= s);
    assert(content_of(s) == s);
    assert(parse_spec(w) == scan_top(s, 0, empty_doc(w)));
    assert(empty_doc(w) == DocSpec { raw: w, ..empty_doc(s) });
    lemma_scan_top_set_raw(s, 0, empty_doc(s), w);
}

/// The end of the maximal run of key characters starting at `from`.
fn key_run_end(s: &str, from: usize) -> (j: usize)
    requires
        from <= s@.len(),
    ensures
        from <= j <= s@.len(),
        j == run_end(s@, from as int, key_char_p()),
{
    let n = s.unicode_len();
    let mut j = from;
    while j < n
        invariant
            from <= j <= n == s@.len(),
            run_end(s@, from as int, key_char_p()) == run_end(s@, j as int, key_char_p()),
        decreases n - j,
    {
        let is_key = key_char(s.get_char(j));
        proof {
            assert(key_char_p()(s@[j as int]) == is_key_char(s@[j as int]));
        }
        if !is_key {
            return j;
        }
        j += 1;
    }
    j
}

/// The end of the maximal run of hexadecimal digits starting at `from`.
fn hex_run_end(s: &str, from: usize) -> (j: usize)
    requires
        from <= s@.len(),
    ensures
        from <= j <= s@.len(),
        j == run_end(s@, from as int, hex_digit_p()),
        forall|k: int| from <= k < j ==> is_hex_digit(s@[k]),
{
    let n = s.unicode_len();
    let mut j = from;
    while j < n
        invariant
            from <= j <= n == s@.len(),
            run_end(s@, from as int, hex_digit_p()) == run_end(s@, j as int, hex_digit_p()),
            forall|k: int| from <= k < j ==> is_hex_digit(s@[k]),
        decreases n - j,
    {
        let is_hex = hex_digit_char(s.get_char(j));
        proof {
            assert(hex_digit_p()(s@[j as int]) == is_hex_digit(s@[j as int]));
        }
        if !is_hex {
            return j;
        }
        j += 1;
    }
    j
}

/// The end of the maximal run of whitespace starting at `from`.
fn space_run_end(s: &str, from: usize) -> (j: usize)
    requires
        from <= s@.len(),
    ensures
        from <= j <= s@.len(),
        j == run_end(s@, from as int, space_p()),
{
    let n = s.unicode_len();
    let mut j = from;
    while j < n
        invariant
            from <= j <= n == s@.len(),
            run_end(s@, from as int, space_p()) == run_end(s@, j as int, space_p()),
        decreases n - j,
    {
        let is_sp = space_char(s.get_char(j));
        proof {
            assert(space_p()(s@[j as int]) == is_space(s@[j as int]));
        }
        if !is_sp {
            return j;
        }
        j += 1;
    }
    j
}

/// Scan for the closing parenthesis of the group a cursor at `from` is
/// inside of, at nesting depth one.
fn find_close(s: &str, from: usize) -> (c: usize)
    requires
        1 <= from <= s@.len(),
    ensures
        from <= c <= s@.len(),
        c == close_index(s@, from as int, 1),
        c < s@.len() ==> s@[c as int] == ')',
{
    let n = s.unicode_len();
    let mut i = from;
    let mut depth: usize = 1;
    while i < n
        invariant
            1 <= from <= i <= n == s@.len(),
            1 <= depth <= i - from + 1,
            close_index(s@, from as int, 1) == close_index(s@, i as int, depth as int),
        decreases n - i,
    {
        let ch = s.get_char(i);
        if ch == ')' {
            if depth == 1 {
                return i;
            }
            depth -= 1;
        } else if ch == '(' {
            depth += 1;
        }
        i += 1;
    }
    n
}

/// The index one past the last non-whitespace character.
fn trim_end_index(s: &str) -> (e: usize)
    ensures
        e <= s@.len(),
        e == trim_last(s@),
{
    let mut e = s.unicode_len();
    proof {
        assert(s@.subrange(0, s@.len() as int) =~= s@);
    }
    loop
        invariant_except_break
            0 <= e <= s@.len(),
            trim_last(s@) == trim_last(s@.subrange(0, e as int)),
        ensures
            0 <= e <= s@.len(),
            e == trim_last(s@),
        decreases e,
    {
        if e == 0 {
            proof {
                assert(s@.subrange(0, 0) =~= Seq::<char>::empty());
            }
            break;
        }
        let is_sp = space_char(s.get_char(e - 1));
        proof {
            assert(s@.subrange(0, e as int).last() == s@[e - 1]);
        }
        if !is_sp {
            break;
        }
        proof {
            assert(s@.subrange(0, e as int).drop_last() =~= s@.subrange(0, e - 1));
        }
        e = e - 1;
    }
    e
}

/// The 16-bit values the tokens of a value list yield, failures dropped.
fn hex_values_of_tokens(toks: &Vec<String>) -> (vals: Vec<u16>)
    ensures
        vals@ == hex_u16_list(toks.deep_view()),
{
    let ghost tv = toks.deep_view();
    let mut vals: Vec<u16> = Vec::new();
    let mut k: usize = 0;
    proof {
        assert(Seq::<u16>::empty() + hex_u16_list(tv) =~= hex_u16_list(tv));
        assert(tv.subrange(0, tv.len() as int) =~= tv);
    }
    while k < toks.len()
        invariant
            0 <= k <= toks.len(),
            tv == toks.deep_view(),
            vals@ + hex_u16_list(tv.subrange(k as int, tv.len() as int)) == hex_u16_list(tv),
        decreases toks.len() - k,
    {
        let ghost rest = tv.subrange(k as int, tv.len() as int);
        proof {
            assert(rest.first() == tv[k as int]);
            assert(tv[k as int] == toks@[k as int]@);
            assert(rest.drop_first() =~= tv.subrange(k + 1, tv.len() as int));
        }
        match hex_u16_of_token(toks[k].as_str()) {
            Some(v) => {
                let ghost vals0 = vals@;
                vals.push(v);
                proof {
                    assert(vals@ + hex_u16_list(tv.subrange(k + 1, tv.len() as int)) =~= vals0 + (
                    seq![v] + hex_u16_list(tv.subrange(k + 1, tv.len() as int))));
                }
            },
            None => {},
        }
        k += 1;
    }
    proof {
        assert(tv.subrange(tv.len() as int, tv.len() as int) =~= Seq::<Seq<char>>::empty());
        assert(vals@ + Seq::<u16>::empty() =~= vals@);
    }
    vals
}

/// Read the value of a `vcp` key into the feature table.
fn parse_vcp_table(s: &str) -> (m: HashMap<u8, Vec<u16>>)
    ensures
        vcp_table_view(m) == vcp_map(s@),
{
    let mut m: HashMap<u8, Vec<u16>> = HashMap::new();
    proof {
        assert(vcp_table_view(m) =~= Map::<u8, Seq<u16>>::empty());
    }
    let n = s.unicode_len();
    let mut i: usize = 0;
    while i < n
        invariant
            0 <= i <= n == s@.len(),
            vcp_scan(s@, i as int, vcp_table_view(m)) == vcp_map(s@),
        decreases n - i,
    {
        let c = s.get_char(i);
        if hex_digit_char(c) {
            let j = hex_run_end(s, i);
            proof {
                assert(hex_digit_p()(s@[i as int]) == is_hex_digit(s@[i as int]));
                lemma_run_end(s@, i + 1, hex_digit_p());
            }
            match hex_u8_of_span(s, i, j) {
                Some(code) => {
                    let k = space_run_end(s, j);
                    let has_group = k < n && s.get_char(k) == '(';
                    if has_group {
                        let close = find_close(s, k + 1);
                        let toks = split_whitespace_span(s, k + 1, close);
                        let vals = hex_values_of_tokens(&toks);
                        let ghost m0 = vcp_table_view(m);
                        let ghost m_pre = m@;
                        let ghost vals_g = vals;
                        m.insert(code, vals);
                        proof {
                            lemma_vcp_table_view_insert(m_pre, code, vals_g);
                            assert(vcp_table_view(m) =~= m0.insert(code, vals_g@));
                        }
                        i = if close < n {
                            close + 1
                        } else {
                            close
                        };
                    } else {
                        let ghost m0 = vcp_table_view(m);
                        let empty_vals: Vec<u16> = Vec::new();
                        m.insert(code, empty_vals);
                        proof {
                            assert(vcp_table_view(m) =~= m0.insert(code, Seq::<u16>::empty()));
                        }
                        i = k;
                    }
                },
                None => {
                    i = j;
                },
            }
        } else {
            i += 1;
        }
    }
    m
}

impl Capabilities {
    /// Parse a raw capabilities string. Never fails: unparseable input
    /// degrades to a document with fewer fields populated, and the result
    /// is exactly what the grammar's specification yields.
    pub fn parse(raw: &str) -> (caps: Capabilities)
        ensures
            caps@ == parse_spec(raw@),
    {
        let e = trim_end_index(raw);
        let t1 = raw.substring_char(0, e);
        let b = space_run_end(t1, 0);
        let t1n = t1.unicode_len();
        let t = t1.substring_char(b, t1n);
        proof {
            assert(t@ =~= trimmed(raw@));
        }
        let tn = t.unicode_len();
        let content: &str = if tn >= 2 && t.get_char(0) == '(' && t.get_char(tn - 1) == ')' {
            t.substring_char(1, tn - 1)
        } else {
            t
        };
        proof {
            assert(content@ =~= content_of(raw@));
        }
        let mut caps = Capabilities {
            protocol: None,
            display_type: None,
            model: None,
            commands: Vec::new(),
            vcp_features: HashMap::new(),
            mccs_version: None,
            raw: String::from_str(raw),
        };
        proof {
            assert(caps.commands.deep_view() =~= Seq::<Seq<char>>::empty());
            assert(vcp_table_view(caps.vcp_features) =~= Map::<u8, Seq<u16>>::empty());
            assert(caps@ == empty_doc(raw@));
        }
        let n = content.unicode_len();
        let mut i: usize = 0;
        while i < n
            invariant
                0 <= i <= n == content@.len(),
                content@ == content_of(raw@),
                scan_top(content@, i as int, caps@) == parse_spec(raw@),
            decreases n - i,
        {
            let c = content.get_char(i);
            if key_char(c) {
                proof {
                    assert(key_char_p()(content@[i as int]) == is_key_char(content@[i as int]));
                    lemma_run_end(content@, i + 1, key_char_p());
                }
                let j = key_run_end(content, i);
                let has_group = j < n && content.get_char(j) == '(';
                if has_group {
                    let close = find_close(content, j + 1);
                    let ghost key = content@.subrange(i as int, j as int);
                    let ghost value = content@.subrange(j + 1, close as int);
                    let ghost d0 = caps@;
                    let key_s = content.substring_char(i, j);
                    if str_chars_eq(key_s, "prot") {
                        caps.protocol = Some(String::from_str(content.substring_char(j + 1, close)));
                    } else if str_chars_eq(key_s, "type") {
                        caps.display_type = Some(
                            String::from_str(content.substring_char(j + 1, close)),
                        );
                    } else if str_chars_eq(key_s, "model") {
                        caps.model = Some(String::from_str(content.substring_char(j + 1, close)));
                    } else if str_chars_eq(key_s, "mccs_ver") {
                        caps.mccs_version = Some(
                            String::from_str(content.substring_char(j + 1, close)),
                        );
                    } else if str_chars_eq(key_s, "cmds") {
                        caps.commands = split_whitespace_span(content, j + 1, close);
                    } else if str_chars_eq(key_s, "vcp") {
                        let vs = content.substring_char(j + 1, close);
                        caps.vcp_features = parse_vcp_table(vs);
                    }
                    proof {
                        assert(caps@ == apply_key(d0, key, value));
                    }
                    i = if close < n {
                        close + 1
                    } else {
                        close
                    };
                } else {
                    i = j;
                }
            } else {
                i += 1;
            }
        }
        caps
    }
}

} // verus!
