//! A small JSON tree, its text form, and a reader for it.
//!
//! The runtime stores each container's state record as a JSON document and
//! reads the bundle configuration from one, so the document grammar is part
//! of the runtime's own logic.  The writer produces compact documents; the
//! reader accepts any whitespace between tokens, the escapes the writer
//! produces, and the common named escapes.  Reading an emitted document gives
//! the tree back (`lemma_parse_emit_document`).

use vstd::prelude::*;

use crate::numfmt::{
    all_digits, dec_rep, dec_rep_signed, dec_val, digit_char, digit_val, is_digit,
    lemma_char_codes_differ, lemma_dec_rep_digits, lemma_dec_val_lower, lemma_dec_val_of_rep,
    lemma_dec_val_strip_zero, lemma_dec_val_upper, lemma_digit_val_of_spec_digit,
    lemma_pow10_19_large, lemma_pow10_mono, pow10, push_dec_i64, spec_digit,
};

verus! {

/// A JSON document tree.  Strings are kept as their character sequences.
pub enum JsonValue {
    Null,
    Bool(bool),
    Int(i64),
    Str(Vec<char>),
    Arr(Vec<JsonValue>),
    Obj(Vec<(Vec<char>, JsonValue)>),
}

/// The mathematical shape of a JSON tree.
pub enum JsonView {
    Null,
    Bool(bool),
    Int(int),
    Str(Seq<char>),
    Arr(Seq<JsonView>),
    Obj(Seq<(Seq<char>, JsonView)>),
}

/// The shape of a JSON tree.
pub open spec fn jview(v: JsonValue) -> JsonView
    decreases v, 0int,
{
    match v {
        JsonValue::Null => JsonView::Null,
        JsonValue::Bool(b) => JsonView::Bool(b),
        JsonValue::Int(n) => JsonView::Int(n as int),
        JsonValue::Str(cs) => JsonView::Str(cs@),
        JsonValue::Arr(items) => JsonView::Arr(jview_seq(items@)),
        JsonValue::Obj(members) => JsonView::Obj(jview_members(members@)),
    }
}

/// The shapes of a sequence of JSON trees.
pub open spec fn jview_seq(items: Seq<JsonValue>) -> Seq<JsonView>
    decreases items, 1int,
{
    if items.len() == 0 {
        Seq::empty()
    } else {
        proof {
            vstd::seq::axiom_seq_subrange_decreases(items, 1, items.len() as int);
        }
        seq![jview(items[0])].add(jview_seq(items.drop_first()))
    }
}

/// The shapes of a sequence of object members.
pub open spec fn jview_members(members: Seq<(Vec<char>, JsonValue)>) -> Seq<(Seq<char>, JsonView)>
    decreases members, 1int,
{
    if members.len() == 0 {
        Seq::empty()
    } else {
        proof {
            vstd::seq::axiom_seq_subrange_decreases(members, 1, members.len() as int);
        }
        seq![(members[0].0@, jview(members[0].1))].add(jview_members(members.drop_first()))
    }
}

impl View for JsonValue {
    type V = JsonView;

    open spec fn view(&self) -> JsonView {
        jview(*self)
    }
}

/// A shape whose integers all fit the machine representation.
pub open spec fn wf_json(v: JsonView) -> bool
    decreases v, 0int,
{
    match v {
        JsonView::Null => true,
        JsonView::Bool(_) => true,
        JsonView::Int(n) => i64::MIN <= n <= i64::MAX,
        JsonView::Str(_) => true,
        JsonView::Arr(items) => wf_json_seq(items),
        JsonView::Obj(members) => wf_json_members(members),
    }
}

pub open spec fn wf_json_seq(items: Seq<JsonView>) -> bool
    decreases items, 1int,
{
    if items.len() == 0 {
        true
    } else {
        proof {
            vstd::seq::axiom_seq_subrange_decreases(items, 1, items.len() as int);
        }
        wf_json(items[0]) && wf_json_seq(items.drop_first())
    }
}

pub open spec fn wf_json_members(members: Seq<(Seq<char>, JsonView)>) -> bool
    decreases members, 1int,
{
    if members.len() == 0 {
        true
    } else {
        proof {
            vstd::seq::axiom_seq_subrange_decreases(members, 1, members.len() as int);
        }
        wf_json(members[0].1) && wf_json_members(members.drop_first())
    }
}

/// The shape of every tree held in a `JsonValue` is well formed.
pub proof fn lemma_jview_wf(v: JsonValue)
    ensures
        wf_json(jview(v)),
    decreases v, 0int,
{
    match v {
        JsonValue::Arr(items) => {
            lemma_jview_seq_wf(items@);
        },
        JsonValue::Obj(members) => {
            lemma_jview_members_wf(members@);
        },
        _ => {},
    }
}

proof fn lemma_jview_seq_wf(items: Seq<JsonValue>)
    ensures
        wf_json_seq(jview_seq(items)),
    decreases items, 1int,
{
    if items.len() != 0 {
        lemma_jview_wf(items[0]);
        vstd::seq::axiom_seq_subrange_decreases(items, 1, items.len() as int);
        lemma_jview_seq_wf(items.drop_first());
        assert(jview_seq(items).drop_first() =~= jview_seq(items.drop_first()));
    }
}

proof fn lemma_jview_members_wf(members: Seq<(Vec<char>, JsonValue)>)
    ensures
        wf_json_members(jview_members(members)),
    decreases members, 1int,
{
    if members.len() != 0 {
        lemma_jview_wf(members[0].1);
        vstd::seq::axiom_seq_subrange_decreases(members, 1, members.len() as int);
        lemma_jview_members_wf(members.drop_first());
        assert(jview_members(members).drop_first() =~= jview_members(members.drop_first()));
    }
}

// ---------------------------------------------------------------------------
// The text form
// ---------------------------------------------------------------------------
/// The character for a hexadecimal digit value.
pub open spec fn spec_hex(d: int) -> char {
    if d < 10 {
        spec_digit(d)
    } else if d == 10 {
        'a'
    } else if d == 11 {
        'b'
    } else if d == 12 {
        'c'
    } else if d == 13 {
        'd'
    } else if d == 14 {
        'e'
    } else {
        'f'
    }
}

/// How one character appears inside a quoted JSON string: quote, backslash
/// and the common control characters get a short escape, other control
/// characters a `\u00XX` escape, and everything else stands for itself.
pub open spec fn escape_char(c: char) -> Seq<char> {
    if c == '"' {
        seq!['\\', '"']
    } else if c == '\\' {
        seq!['\\', '\\']
    } else if c == '\n' {
        seq!['\\', 'n']
    } else if c == '\r' {
        seq!['\\', 'r']
    } else if c == '\t' {
        seq!['\\', 't']
    } else if (c as u32) < 32 {
        seq!['\\', 'u', '0', '0', spec_hex(c as u32 as int / 16), spec_hex(c as u32 as int % 16)]
    } else {
        seq![c]
    }
}

/// The body of a quoted JSON string.
pub open spec fn escape_seq(cs: Seq<char>) -> Seq<char>
    decreases cs.len(),
{
    if cs.len() == 0 {
        Seq::empty()
    } else {
        escape_char(cs[0]).add(escape_seq(cs.drop_first()))
    }
}

/// A quoted JSON string.
pub open spec fn emit_string(cs: Seq<char>) -> Seq<char> {
    seq!['"'].add(escape_seq(cs)).add(seq!['"'])
}

/// The compact text of a JSON tree.
pub open spec fn emit_value(v: JsonView) -> Seq<char>
    decreases v, 0int,
{
    match v {
        JsonView::Null => seq!['n', 'u', 'l', 'l'],
        JsonView::Bool(b) => if b {
            seq!['t', 'r', 'u', 'e']
        } else {
            seq!['f', 'a', 'l', 's', 'e']
        },
        JsonView::Int(n) => dec_rep_signed(n),
        JsonView::Str(cs) => emit_string(cs),
        JsonView::Arr(items) => seq!['['].add(emit_items(items)).add(seq![']']),
        JsonView::Obj(members) => seq!['{'].add(emit_members(members)).add(seq!['}']),
    }
}

/// The comma-separated texts of a sequence of JSON trees.
pub open spec fn emit_items(items: Seq<JsonView>) -> Seq<char>
    decreases items, 1int,
{
    if items.len() == 0 {
        Seq::empty()
    } else if items.len() == 1 {
        emit_value(items[0])
    } else {
        proof {
            vstd::seq::axiom_seq_subrange_decreases(items, 1, items.len() as int);
        }
        emit_value(items[0]).add(seq![',']).add(emit_items(items.drop_first()))
    }
}

/// The text of one object member.
pub open spec fn emit_member(m: (Seq<char>, JsonView)) -> Seq<char>
    decreases m, 0int,
{
    emit_string(m.0).add(seq![':']).add(emit_value(m.1))
}

/// The comma-separated texts of a sequence of object members.
pub open spec fn emit_members(members: Seq<(Seq<char>, JsonView)>) -> Seq<char>
    decreases members, 1int,
{
    if members.len() == 0 {
        Seq::empty()
    } else if members.len() == 1 {
        emit_member(members[0])
    } else {
        proof {
            vstd::seq::axiom_seq_subrange_decreases(members, 1, members.len() as int);
        }
        emit_member(members[0]).add(seq![',']).add(emit_members(members.drop_first()))
    }
}

// ---------------------------------------------------------------------------
// The reader, as a mathematical function over the text
// ---------------------------------------------------------------------------
/// JSON inter-token whitespace.
pub open spec fn is_ws(c: char) -> bool {
    c == ' ' || c == '\n' || c == '\r' || c == '\t'
}

/// The first position at or after `i` holding no whitespace.
pub open spec fn skip_ws(s: Seq<char>, i: int) -> int
    decreases s.len() - i,
{
    if 0 <= i < s.len() && is_ws(s[i]) {
        skip_ws(s, i + 1)
    } else {
        i
    }
}

pub proof fn lemma_skip_ws_bounds(s: Seq<char>, i: int)
    ensures
        skip_ws(s, i) >= i,
        i <= s.len() ==> skip_ws(s, i) <= s.len(),
    decreases s.len() - i,
{
    if 0 <= i < s.len() && is_ws(s[i]) {
        lemma_skip_ws_bounds(s, i + 1);
    }
}

/// The first position at or after `i` holding no decimal digit.
pub open spec fn digit_run(s: Seq<char>, i: int) -> int
    decreases s.len() - i,
{
    if 0 <= i < s.len() && is_digit(s[i]) {
        digit_run(s, i + 1)
    } else {
        i
    }
}

pub proof fn lemma_digit_run_bounds(s: Seq<char>, i: int)
    ensures
        digit_run(s, i) >= i,
        i <= s.len() ==> digit_run(s, i) <= s.len(),
    decreases s.len() - i,
{
    if 0 <= i < s.len() && is_digit(s[i]) {
        lemma_digit_run_bounds(s, i + 1);
    }
}

/// The value of a hexadecimal digit character, or a negative number for any
/// other character.
pub open spec fn hex_val(c: char) -> int {
    if is_digit(c) {
        digit_val(c)
    } else if c == 'a' || c == 'A' {
        10
    } else if c == 'b' || c == 'B' {
        11
    } else if c == 'c' || c == 'C' {
        12
    } else if c == 'd' || c == 'D' {
        13
    } else if c == 'e' || c == 'E' {
        14
    } else if c == 'f' || c == 'F' {
        15
    } else {
        -1
    }
}

pub open spec fn is_hex(c: char) -> bool {
    hex_val(c) >= 0
}

/// The character a short escape stands for.
pub open spec fn unescape(e: char) -> Option<char> {
    if e == '"' {
        Some('"')
    } else if e == '\\' {
        Some('\\')
    } else if e == '/' {
        Some('/')
    } else if e == 'n' {
        Some('\n')
    } else if e == 'r' {
        Some('\r')
    } else if e == 't' {
        Some('\t')
    } else if e == 'b' {
        Some('\u{0008}')
    } else if e == 'f' {
        Some('\u{000c}')
    } else {
        None
    }
}

/// The character with a given code below 256.
pub open spec fn code_char(n: int) -> char {
    (n as u8) as char
}

/// Reads the body of a quoted string starting just after the opening quote;
/// yields the decoded characters and the position just after the closing
/// quote.
pub open spec fn parse_string_body(s: Seq<char>, i: int) -> Option<(Seq<char>, int)>
    decreases s.len() - i,
{
    if !(0 <= i < s.len()) {
        None
    } else {
        let c = s[i];
        if c == '"' {
            Some((Seq::empty(), i + 1))
        } else if c == '\\' {
            if i + 1 < s.len() {
                let e = s[i + 1];
                if e == 'u' {
                    if i + 5 < s.len() && s[i + 2] == '0' && s[i + 3] == '0' && is_hex(s[i + 4])
                        && is_hex(s[i + 5]) && hex_val(s[i + 4]) < 8 {
                        match parse_string_body(s, i + 6) {
                            None => None,
                            Some((cs, j)) => Some(
                                (seq![code_char(hex_val(s[i + 4]) * 16 + hex_val(s[i + 5]))].add(cs), j),
                            ),
                        }
                    } else {
                        None
                    }
                } else {
                    match unescape(e) {
                        None => None,
                        Some(dc) => match parse_string_body(s, i + 2) {
                            None => None,
                            Some((cs, j)) => Some((seq![dc].add(cs), j)),
                        },
                    }
                }
            } else {
                None
            }
        } else {
            match parse_string_body(s, i + 1) {
                None => None,
                Some((cs, j)) => Some((seq![c].add(cs), j)),
            }
        }
    }
}

pub proof fn lemma_parse_string_body_bounds(s: Seq<char>, i: int)
    ensures
        parse_string_body(s, i) matches Some(r) ==> i < r.1 <= s.len(),
    decreases s.len() - i,
{
    if 0 <= i < s.len() {
        lemma_parse_string_body_bounds(s, i + 1);
        if i + 2 <= s.len() {
            lemma_parse_string_body_bounds(s, i + 2);
        }
        if i + 6 <= s.len() {
            lemma_parse_string_body_bounds(s, i + 6);
        }
    }
}

/// Reads a decimal integer at `i`, with an optional leading minus sign;
/// rejects a number outside the machine range.
pub open spec fn parse_number(s: Seq<char>, i: int) -> Option<(JsonView, int)> {
    if !(0 <= i < s.len()) {
        None
    } else {
        let neg = s[i] == '-';
        let d0 = if neg {
            i + 1
        } else {
            i
        };
        let j = digit_run(s, d0);
        if j == d0 {
            None
        } else {
            let m = dec_val(s.subrange(d0, j));
            let n: int = if neg {
                -m
            } else {
                m
            };
            if i64::MIN <= n <= i64::MAX {
                Some((JsonView::Int(n), j))
            } else {
                None
            }
        }
    }
}

/// Reads one JSON value starting at or after `i`, skipping leading
/// whitespace; yields its shape and the position just after its text.
pub open spec fn parse_value(s: Seq<char>, i: int) -> Option<(JsonView, int)>
    decreases s.len() - i, 0int,
{
    let i1 = skip_ws(s, i);
    proof {
        lemma_skip_ws_bounds(s, i);
    }
    if !(i <= s.len() && i1 < s.len()) {
        None
    } else {
        let c = s[i1];
        if c == 'n' {
            if i1 + 4 <= s.len() && s.subrange(i1, i1 + 4) == seq!['n', 'u', 'l', 'l'] {
                Some((JsonView::Null, i1 + 4))
            } else {
                None
            }
        } else if c == 't' {
            if i1 + 4 <= s.len() && s.subrange(i1, i1 + 4) == seq!['t', 'r', 'u', 'e'] {
                Some((JsonView::Bool(true), i1 + 4))
            } else {
                None
            }
        } else if c == 'f' {
            if i1 + 5 <= s.len() && s.subrange(i1, i1 + 5) == seq!['f', 'a', 'l', 's', 'e'] {
                Some((JsonView::Bool(false), i1 + 5))
            } else {
                None
            }
        } else if c == '"' {
            match parse_string_body(s, i1 + 1) {
                None => None,
                Some((cs, j)) => Some((JsonView::Str(cs), j)),
            }
        } else if c == '-' || is_digit(c) {
            parse_number(s, i1)
        } else if c == '[' {
            let j = skip_ws(s, i1 + 1);
            proof {
                lemma_skip_ws_bounds(s, i1 + 1);
            }
            if j < s.len() && s[j] == ']' {
                Some((JsonView::Arr(Seq::empty()), j + 1))
            } else {
                match parse_items(s, i1 + 1) {
                    None => None,
                    Some((items, j2)) => Some((JsonView::Arr(items), j2)),
                }
            }
        } else if c == '{' {
            let j = skip_ws(s, i1 + 1);
            proof {
                lemma_skip_ws_bounds(s, i1 + 1);
            }
            if j < s.len() && s[j] == '}' {
                Some((JsonView::Obj(Seq::empty()), j + 1))
            } else {
                match parse_members(s, i1 + 1) {
                    None => None,
                    Some((members, j2)) => Some((JsonView::Obj(members), j2)),
                }
            }
        } else {
            None
        }
    }
}

/// Reads the items of a non-empty array, up to and including the closing
/// bracket.
pub open spec fn parse_items(s: Seq<char>, i: int) -> Option<(Seq<JsonView>, int)>
    decreases s.len() - i, 1int,
{
    if !(0 <= i <= s.len()) {
        None
    } else {
        match parse_value(s, i) {
            None => None,
            Some((v, j)) => if j <= i || j > s.len() {
                None
            } else {
                let k = skip_ws(s, j);
                proof {
                    lemma_skip_ws_bounds(s, j);
                }
                if !(k < s.len()) {
                    None
                } else if s[k] == ']' {
                    Some((seq![v], k + 1))
                } else if s[k] == ',' {
                    match parse_items(s, k + 1) {
                        None => None,
                        Some((rest, j2)) => Some((seq![v].add(rest), j2)),
                    }
                } else {
                    None
                }
            },
        }
    }
}

/// Reads the members of a non-empty object, up to and including the closing
/// brace.
pub open spec fn parse_members(s: Seq<char>, i: int) -> Option<(Seq<(Seq<char>, JsonView)>, int)>
    decreases s.len() - i, 1int,
{
    if !(0 <= i <= s.len()) {
        None
    } else {
        let i1 = skip_ws(s, i);
        proof {
            lemma_skip_ws_bounds(s, i);
        }
        if !(i1 < s.len() && s[i1] == '"') {
            None
        } else {
            match parse_string_body(s, i1 + 1) {
                None => None,
                Some((key, j)) => {
                    if j <= i1 || j > s.len() {
                        None
                    } else {
                        let k = skip_ws(s, j);
                        proof {
                            lemma_skip_ws_bounds(s, j);
                        }
                        if !(k < s.len() && s[k] == ':') {
                            None
                        } else {
                            match parse_value(s, k + 1) {
                                None => None,
                                Some((v, j2)) => {
                                    if j2 <= k || j2 > s.len() {
                                        None
                                    } else {
                                        let k2 = skip_ws(s, j2);
                                        proof {
                                            lemma_skip_ws_bounds(s, j2);
                                        }
                                        if !(k2 < s.len()) {
                                            None
                                        } else if s[k2] == '}' {
                                            Some((seq![(key, v)], k2 + 1))
                                        } else if s[k2] == ',' {
                                            match parse_members(s, k2 + 1) {
                                                None => None,
                                                Some((rest, j3)) => Some(
                                                    (seq![(key, v)].add(rest), j3),
                                                ),
                                            }
                                        } else {
                                            None
                                        }
                                    }
                                },
                            }
                        }
                    }
                },
            }
        }
    }
}

// ---------------------------------------------------------------------------
// The writer
// ---------------------------------------------------------------------------
/// The shapes of a sequence of trees are the trees' shapes, in order.
pub proof fn lemma_jview_seq_props(items: Seq<JsonValue>)
    ensures
        jview_seq(items).len() == items.len(),
        forall|i: int| 0 <= i < items.len() ==> jview_seq(items)[i] == jview(items[i]),
    decreases items.len(),
{
    if items.len() != 0 {
        lemma_jview_seq_props(items.drop_first());
    }
}

/// The shapes of a member sequence are the members' shapes, in order.
pub proof fn lemma_jview_members_props(members: Seq<(Vec<char>, JsonValue)>)
    ensures
        jview_members(members).len() == members.len(),
        forall|i: int|
            0 <= i < members.len() ==> jview_members(members)[i] == (
            members[i].0@,
            jview(members[i].1),
            ),
    decreases members.len(),
{
    if members.len() != 0 {
        lemma_jview_members_props(members.drop_first());
    }
}

/// Escaping distributes over concatenation.
pub proof fn lemma_escape_seq_append(a: Seq<char>, b: Seq<char>)
    ensures
        escape_seq(a.add(b)) == escape_seq(a).add(escape_seq(b)),
    decreases a.len(),
{
    if a.len() == 0 {
        assert(a.add(b) =~= b);
        assert(escape_seq(a).add(escape_seq(b)) =~= escape_seq(b));
    } else {
        lemma_escape_seq_append(a.drop_first(), b);
        assert(a.add(b).drop_first() =~= a.drop_first().add(b));
        assert(a.add(b)[0] == a[0]);
        assert(escape_char(a[0]).add(escape_seq(a.drop_first()).add(escape_seq(b))) =~= escape_char(
            a[0],
        ).add(escape_seq(a.drop_first())).add(escape_seq(b)));
    }
}

/// The character for a hexadecimal digit value.
pub fn hex_char(d: u8) -> (c: char)
    requires
        d < 16,
    ensures
        c == spec_hex(d as int),
{
    if d < 10 {
        digit_char(d)
    } else if d == 10 {
        'a'
    } else if d == 11 {
        'b'
    } else if d == 12 {
        'c'
    } else if d == 13 {
        'd'
    } else if d == 14 {
        'e'
    } else {
        'f'
    }
}

/// Appends the escaped form of one string character.
pub fn push_escape_char(out: &mut Vec<char>, c: char)
    ensures
        final(out)@ == old(out)@ + escape_char(c),
{
    if c == '"' {
        out.push('\\');
        out.push('"');
    } else if c == '\\' {
        out.push('\\');
        out.push('\\');
    } else if c == '\n' {
        out.push('\\');
        out.push('n');
    } else if c == '\r' {
        out.push('\\');
        out.push('r');
    } else if c == '\t' {
        out.push('\\');
        out.push('t');
    } else {
        let u = c as u32;
        if u < 32 {
            out.push('\\');
            out.push('u');
            out.push('0');
            out.push('0');
            out.push(hex_char((u / 16) as u8));
            out.push(hex_char((u % 16) as u8));
        } else {
            out.push(c);
        }
    }
    assert(final(out)@ =~= old(out)@ + escape_char(c));
}

/// Appends the escaped body of a string.
pub fn push_escaped(out: &mut Vec<char>, cs: &Vec<char>)
    ensures
        final(out)@ == old(out)@ + escape_seq(cs@),
{
    let n = cs.len();
    let mut k: usize = 0;
    while k < n
        invariant
            n == cs@.len(),
            k <= n,
            out@ == old(out)@ + escape_seq(cs@.subrange(0, k as int)),
        decreases n - k,
    {
        push_escape_char(out, cs[k]);
        proof {
            let c = cs@[k as int];
            lemma_escape_seq_append(cs@.subrange(0, k as int), seq![c]);
            assert(cs@.subrange(0, k as int).add(seq![c]) =~= cs@.subrange(0, k as int + 1));
            assert(seq![c].drop_first() =~= Seq::<char>::empty());
            assert(escape_seq(seq![c]) == escape_char(c).add(escape_seq(seq![c].drop_first())));
            assert(escape_char(c).add(Seq::<char>::empty()) =~= escape_char(c));
            assert(out@ =~= old(out)@ + escape_seq(cs@.subrange(0, k as int + 1)));
        }
        k = k + 1;
    }
    proof {
        assert(cs@.subrange(0, n as int) =~= cs@);
    }
}

/// Appends a quoted, escaped string.
pub fn push_quoted(out: &mut Vec<char>, cs: &Vec<char>)
    ensures
        final(out)@ == old(out)@ + emit_string(cs@),
{
    out.push('"');
    push_escaped(out, cs);
    out.push('"');
    assert(final(out)@ =~= old(out)@ + emit_string(cs@));
}

/// Appends the compact text of a JSON tree.
pub fn push_value(out: &mut Vec<char>, v: &JsonValue)
    ensures
        final(out)@ == old(out)@ + emit_value(jview(*v)),
    decreases v, 0int, 0int,
{
    match v {
        JsonValue::Null => {
            out.push('n');
            out.push('u');
            out.push('l');
            out.push('l');
            assert(final(out)@ =~= old(out)@ + emit_value(jview(*v)));
        },
        JsonValue::Bool(b) => {
            if *b {
                out.push('t');
                out.push('r');
                out.push('u');
                out.push('e');
            } else {
                out.push('f');
                out.push('a');
                out.push('l');
                out.push('s');
                out.push('e');
            }
            assert(final(out)@ =~= old(out)@ + emit_value(jview(*v)));
        },
        JsonValue::Int(n) => {
            push_dec_i64(out, *n);
        },
        JsonValue::Str(cs) => {
            push_quoted(out, cs);
        },
        JsonValue::Arr(items) => {
            out.push('[');
            push_items_from(out, items, 0);
            out.push(']');
            proof {
                assert(items@.subrange(0, items@.len() as int) =~= items@);
                assert(final(out)@ =~= old(out)@ + emit_value(jview(*v)));
            }
        },
        JsonValue::Obj(members) => {
            out.push('{');
            push_members_from(out, members, 0);
            out.push('}');
            proof {
                assert(members@.subrange(0, members@.len() as int) =~= members@);
                assert(final(out)@ =~= old(out)@ + emit_value(jview(*v)));
            }
        },
    }
}

/// Appends the comma-separated texts of the items from `from` on.
fn push_items_from(out: &mut Vec<char>, items: &Vec<JsonValue>, from: usize)
    requires
        from <= items@.len(),
    ensures
        final(out)@ == old(out)@ + emit_items(
            jview_seq(items@.subrange(from as int, items@.len() as int)),
        ),
    decreases items, 1int, items@.len() - from,
{
    let ghost tail = items@.subrange(from as int, items@.len() as int);
    proof {
        lemma_jview_seq_props(tail);
    }
    if from < items.len() {
        push_value(out, &items[from]);
        assert(jview_seq(tail)[0] == jview(items@[from as int]));
        if from + 1 < items.len() {
            out.push(',');
            push_items_from(out, items, from + 1);
            proof {
                let tail2 = items@.subrange(from as int + 1, items@.len() as int);
                lemma_jview_seq_props(tail2);
                assert(jview_seq(tail).drop_first() =~= jview_seq(tail2));
                assert(final(out)@ =~= old(out)@ + emit_items(jview_seq(tail)));
            }
        } else {
            proof {
                assert(jview_seq(tail).len() == 1);
                assert(final(out)@ =~= old(out)@ + emit_items(jview_seq(tail)));
            }
        }
    } else {
        assert(jview_seq(tail).len() == 0);
    }
}

/// Appends the comma-separated texts of the members from `from` on.
fn push_members_from(out: &mut Vec<char>, members: &Vec<(Vec<char>, JsonValue)>, from: usize)
    requires
        from <= members@.len(),
    ensures
        final(out)@ == old(out)@ + emit_members(
            jview_members(members@.subrange(from as int, members@.len() as int)),
        ),
    decreases members, 1int, members@.len() - from,
{
    let ghost tail = members@.subrange(from as int, members@.len() as int);
    proof {
        lemma_jview_members_props(tail);
    }
    if from < members.len() {
        let m = &members[from];
        push_quoted(out, &m.0);
        out.push(':');
        push_value(out, &m.1);
        proof {
            let p = jview_members(tail)[0];
            assert(p == (members@[from as int].0@, jview(members@[from as int].1)));
            assert(p.0 == members@[from as int].0@);
            assert(p.1 == jview(members@[from as int].1));
            assert(out@ =~= old(out)@ + emit_member(p));
        }
        if from + 1 < members.len() {
            out.push(',');
            push_members_from(out, members, from + 1);
            proof {
                let tail2 = members@.subrange(from as int + 1, members@.len() as int);
                lemma_jview_members_props(tail2);
                assert(jview_members(tail).drop_first() =~= jview_members(tail2));
                assert(final(out)@ =~= old(out)@ + emit_members(jview_members(tail)));
            }
        } else {
            proof {
                assert(jview_members(tail).len() == 1);
                assert(final(out)@ =~= old(out)@ + emit_members(jview_members(tail)));
            }
        }
    } else {
        assert(jview_members(tail).len() == 0);
    }
}

/// The compact text of a JSON tree.
pub fn emit_json(v: &JsonValue) -> (out: Vec<char>)
    ensures
        out@ == emit_value(jview(*v)),
{
    let mut out: Vec<char> = Vec::new();
    push_value(&mut out, v);
    proof {
        assert(out@ =~= emit_value(jview(*v)));
    }
    out
}

/// Every successful read moves forward and stays inside the text.
pub proof fn lemma_parse_value_bounds(s: Seq<char>, i: int)
    ensures
        parse_value(s, i) matches Some(r) ==> i < r.1 <= s.len(),
    decreases s.len() - i, 0int,
{
    lemma_skip_ws_bounds(s, i);
    let i1 = skip_ws(s, i);
    if i <= s.len() && i1 < s.len() {
        lemma_parse_string_body_bounds(s, i1 + 1);
        lemma_digit_run_bounds(s, i1);
        lemma_digit_run_bounds(s, i1 + 1);
        lemma_skip_ws_bounds(s, i1 + 1);
        if s[i1] == '[' || s[i1] == '{' {
            lemma_parse_items_bounds(s, i1 + 1);
            lemma_parse_members_bounds(s, i1 + 1);
        }
    }
}

pub proof fn lemma_parse_items_bounds(s: Seq<char>, i: int)
    ensures
        parse_items(s, i) matches Some(r) ==> i < r.1 <= s.len(),
    decreases s.len() - i, 1int,
{
    if 0 <= i <= s.len() {
        lemma_parse_value_bounds(s, i);
        match parse_value(s, i) {
            Some((v, j)) => {
                if i < j <= s.len() {
                    lemma_skip_ws_bounds(s, j);
                    let k = skip_ws(s, j);
                    if k < s.len() && s[k] == ',' {
                        lemma_parse_items_bounds(s, k + 1);
                    }
                }
            },
            None => {},
        }
    }
}

pub proof fn lemma_parse_members_bounds(s: Seq<char>, i: int)
    ensures
        parse_members(s, i) matches Some(r) ==> i < r.1 <= s.len(),
    decreases s.len() - i, 1int,
{
    if 0 <= i <= s.len() {
        let i1 = skip_ws(s, i);
        lemma_skip_ws_bounds(s, i);
        if i1 < s.len() && s[i1] == '"' {
            lemma_parse_string_body_bounds(s, i1 + 1);
            match parse_string_body(s, i1 + 1) {
                Some((key, j)) => {
                    if i1 < j <= s.len() {
                        let k = skip_ws(s, j);
                        lemma_skip_ws_bounds(s, j);
                        if k < s.len() && s[k] == ':' {
                            lemma_parse_value_bounds(s, k + 1);
                            match parse_value(s, k + 1) {
                                Some((v, j2)) => {
                                    if k < j2 <= s.len() {
                                        let k2 = skip_ws(s, j2);
                                        lemma_skip_ws_bounds(s, j2);
                                        if k2 < s.len() && s[k2] == ',' {
                                            lemma_parse_members_bounds(s, k2 + 1);
                                        }
                                    }
                                },
                                None => {},
                            }
                        }
                    }
                },
                None => {},
            }
        }
    }
}

// ---------------------------------------------------------------------------
// The reader, as executable code
// ---------------------------------------------------------------------------
/// How an executable read result must relate to the mathematical one.
pub open spec fn val_res_matches(r: Option<(JsonValue, usize)>, sp: Option<(JsonView, int)>) -> bool {
    match r {
        None => sp is None,
        Some((v, j)) => sp == Some((jview(v), j as int)),
    }
}

pub open spec fn str_res_matches(r: Option<(Vec<char>, usize)>, sp: Option<(Seq<char>, int)>) -> bool {
    match r {
        None => sp is None,
        Some((cs, j)) => sp == Some((cs@, j as int)),
    }
}

pub open spec fn items_res_matches(
    r: Option<(Vec<JsonValue>, usize)>,
    sp: Option<(Seq<JsonView>, int)>,
) -> bool {
    match r {
        None => sp is None,
        Some((items, j)) => sp == Some((jview_seq(items@), j as int)),
    }
}

pub open spec fn members_res_matches(
    r: Option<(Vec<(Vec<char>, JsonValue)>, usize)>,
    sp: Option<(Seq<(Seq<char>, JsonView)>, int)>,
) -> bool {
    match r {
        None => sp is None,
        Some((members, j)) => sp == Some((jview_members(members@), j as int)),
    }
}

fn is_ws_x(c: char) -> (r: bool)
    ensures
        r == is_ws(c),
{
    c == ' ' || c == '\n' || c == '\r' || c == '\t'
}

fn is_digit_x(c: char) -> (r: bool)
    ensures
        r == is_digit(c),
{
    let u = c as u32;
    48 <= u && u <= 57
}

fn skip_ws_x(s: &Vec<char>, i: usize) -> (r: usize)
    requires
        i <= s@.len(),
    ensures
        r as int == skip_ws(s@, i as int),
        i <= r <= s@.len(),
{
    let mut j = i;
    while j < s.len() && is_ws_x(s[j])
        invariant
            i <= j <= s@.len(),
            skip_ws(s@, i as int) == skip_ws(s@, j as int),
        decreases s@.len() - j,
    {
        j = j + 1;
    }
    j
}

fn digit_run_x(s: &Vec<char>, i: usize) -> (r: usize)
    requires
        i <= s@.len(),
    ensures
        r as int == digit_run(s@, i as int),
        i <= r <= s@.len(),
{
    let mut j = i;
    while j < s.len() && is_digit_x(s[j])
        invariant
            i <= j <= s@.len(),
            digit_run(s@, i as int) == digit_run(s@, j as int),
        decreases s@.len() - j,
    {
        j = j + 1;
    }
    j
}

/// The characters of a digit run are digits, and the run stops at the first
/// non-digit.
pub proof fn lemma_digit_run_props(s: Seq<char>, i: int)
    requires
        0 <= i <= s.len(),
    ensures
        all_digits(s.subrange(i, digit_run(s, i))),
        digit_run(s, i) < s.len() ==> !is_digit(s[digit_run(s, i)]),
    decreases s.len() - i,
{
    lemma_digit_run_bounds(s, i);
    if i < s.len() && is_digit(s[i]) {
        lemma_digit_run_props(s, i + 1);
        let j = digit_run(s, i);
        assert forall|k: int| 0 <= k < s.subrange(i, j).len() implies is_digit(
            #[trigger] s.subrange(i, j)[k],
        ) by {
            if k == 0 {
            } else {
                assert(s.subrange(i + 1, j)[k - 1] == s.subrange(i, j)[k]);
            }
        }
    }
}

fn hex_val_x(c: char) -> (r: i32)
    ensures
        r as int == hex_val(c),
{
    let u = c as u32;
    if 48 <= u && u <= 57 {
        (u - 48) as i32
    } else if c == 'a' || c == 'A' {
        10
    } else if c == 'b' || c == 'B' {
        11
    } else if c == 'c' || c == 'C' {
        12
    } else if c == 'd' || c == 'D' {
        13
    } else if c == 'e' || c == 'E' {
        14
    } else if c == 'f' || c == 'F' {
        15
    } else {
        -1
    }
}

fn unescape_x(e: char) -> (r: Option<char>)
    ensures
        r == unescape(e),
{
    if e == '"' {
        Some('"')
    } else if e == '\\' {
        Some('\\')
    } else if e == '/' {
        Some('/')
    } else if e == 'n' {
        Some('\n')
    } else if e == 'r' {
        Some('\r')
    } else if e == 't' {
        Some('\t')
    } else if e == 'b' {
        Some('\u{0008}')
    } else if e == 'f' {
        Some('\u{000c}')
    } else {
        None
    }
}

/// Whether the four given characters stand at `i`.
fn has_chars4(s: &Vec<char>, i: usize, c0: char, c1: char, c2: char, c3: char) -> (r: bool)
    requires
        i <= s@.len(),
    ensures
        r == (i + 4 <= s@.len() && s@.subrange(i as int, i as int + 4) == seq![c0, c1, c2, c3]),
{
    if s.len() - i < 4 {
        return false;
    }
    let r = s[i] == c0 && s[i + 1] == c1 && s[i + 2] == c2 && s[i + 3] == c3;
    proof {
        let seg = s@.subrange(i as int, i as int + 4);
        if r {
            assert(seg =~= seq![c0, c1, c2, c3]);
        } else {
            if seg == seq![c0, c1, c2, c3] {
                assert(s@[i as int] == seg[0]);
                assert(s@[i as int + 1] == seg[1]);
                assert(s@[i as int + 2] == seg[2]);
                assert(s@[i as int + 3] == seg[3]);
            }
        }
    }
    r
}

/// Whether the five given characters stand at `i`.
fn has_chars5(s: &Vec<char>, i: usize, c0: char, c1: char, c2: char, c3: char, c4: char) -> (r:
    bool)
    requires
        i <= s@.len(),
    ensures
        r == (i + 5 <= s@.len() && s@.subrange(i as int, i as int + 5) == seq![c0, c1, c2, c3, c4]),
{
    if s.len() - i < 5 {
        return false;
    }
    let r = s[i] == c0 && s[i + 1] == c1 && s[i + 2] == c2 && s[i + 3] == c3 && s[i + 4] == c4;
    proof {
        let seg = s@.subrange(i as int, i as int + 5);
        if r {
            assert(seg =~= seq![c0, c1, c2, c3, c4]);
        } else {
            if seg == seq![c0, c1, c2, c3, c4] {
                assert(s@[i as int] == seg[0]);
                assert(s@[i as int + 1] == seg[1]);
                assert(s@[i as int + 2] == seg[2]);
                assert(s@[i as int + 3] == seg[3]);
                assert(s@[i as int + 4] == seg[4]);
            }
        }
    }
    r
}

/// Reads the body of a quoted string, decoding escapes.
fn parse_string_body_x(s: &Vec<char>, i: usize) -> (r: Option<(Vec<char>, usize)>)
    requires
        i <= s@.len(),
    ensures
        str_res_matches(r, parse_string_body(s@, i as int)),
    decreases s@.len() - i,
{
    if i >= s.len() {
        return None;
    }
    let c = s[i];
    if c == '"' {
        let empty: Vec<char> = Vec::new();
        proof {
            assert(empty@ =~= Seq::<char>::empty());
        }
        Some((empty, i + 1))
    } else if c == '\\' {
        if i + 1 < s.len() {
            let e = s[i + 1];
            if e == 'u' {
                if s.len() - i > 5 && s[i + 2] == '0' && s[i + 3] == '0' {
                    let h = hex_val_x(s[i + 4]);
                    let l = hex_val_x(s[i + 5]);
                    if h >= 0 && l >= 0 && h < 8 {
                        match parse_string_body_x(s, i + 6) {
                            None => None,
                            Some((mut cs, j)) => {
                                let code = (h * 16 + l) as u8;
                                let dc = code as char;
                                let ghost cs0 = cs@;
                                cs.insert(0, dc);
                                proof {
                                    assert(dc == code_char(
                                        hex_val(s@[i as int + 4]) * 16 + hex_val(s@[i as int + 5]),
                                    ));
                                    assert(cs@ =~= seq![dc].add(cs0));
                                }
                                Some((cs, j))
                            },
                        }
                    } else {
                        None
                    }
                } else {
                    None
                }
            } else {
                match unescape_x(e) {
                    None => None,
                    Some(dc) => match parse_string_body_x(s, i + 2) {
                        None => None,
                        Some((mut cs, j)) => {
                            let ghost cs0 = cs@;
                            cs.insert(0, dc);
                            proof {
                                assert(cs@ =~= seq![dc].add(cs0));
                            }
                            Some((cs, j))
                        },
                    },
                }
            }
        } else {
            None
        }
    } else {
        match parse_string_body_x(s, i + 1) {
            None => None,
            Some((mut cs, j)) => {
                let ghost cs0 = cs@;
                cs.insert(0, c);
                proof {
                    assert(cs@ =~= seq![c].add(cs0));
                }
                Some((cs, j))
            },
        }
    }
}

/// Reads a decimal integer, rejecting one outside the machine range.
fn parse_number_x(s: &Vec<char>, i: usize) -> (r: Option<(JsonValue, usize)>)
    requires
        i <= s@.len(),
    ensures
        val_res_matches(r, parse_number(s@, i as int)),
{
    if i >= s.len() {
        return None;
    }
    let neg = s[i] == '-';
    let d0: usize = if neg {
        i + 1
    } else {
        i
    };
    let j = digit_run_x(s, d0);
    if j == d0 {
        return None;
    }
    proof {
        lemma_digit_run_props(s@, d0 as int);
    }
    // Skip any leading zeros; they do not change the value.
    let mut z: usize = d0;
    while z < j && s[z] == '0'
        invariant
            d0 <= z <= j <= s@.len(),
            all_digits(s@.subrange(d0 as int, j as int)),
            dec_val(s@.subrange(z as int, j as int)) == dec_val(
                s@.subrange(d0 as int, j as int),
            ),
        decreases j - z,
    {
        proof {
            let t = s@.subrange(z as int, j as int);
            lemma_dec_val_strip_zero(t);
            assert(t.drop_first() =~= s@.subrange(z as int + 1, j as int));
        }
        z = z + 1;
    }
    let ghost t = s@.subrange(z as int, j as int);
    proof {
        assert forall|k: int| 0 <= k < t.len() implies is_digit(#[trigger] t[k]) by {
            assert(t[k] == s@.subrange(d0 as int, j as int)[k + z - d0]);
        }
    }
    if j - z > 19 {
        // At least twenty digits with no leading zero: the value exceeds the
        // machine range either way.
        proof {
            lemma_dec_val_lower(t);
            lemma_pow10_19_large();
            lemma_pow10_mono(19, (t.len() - 1) as nat);
            assert(dec_val(t) > 0x8000_0000_0000_0000);
        }
        return None;
    }
    let mut m: u64 = 0;
    let mut idx: usize = z;
    proof {
        assert(s@.subrange(z as int, z as int) =~= Seq::<char>::empty());
        lemma_pow10_19_large();
    }
    while idx < j
        invariant
            z <= idx <= j <= s@.len(),
            j - z <= 19,
            all_digits(s@.subrange(z as int, j as int)),
            m == dec_val(s@.subrange(z as int, idx as int)),
            m < pow10((idx - z) as nat),
            pow10(18) == 0x0DE0_B6B3_A764_0000,
            pow10(19) == 10 * pow10(18),
        decreases j - idx,
    {
        let c = s[idx];
        proof {
            assert(s@.subrange(z as int, j as int)[idx - z] == c);
            assert(is_digit(c));
            lemma_pow10_mono((idx - z) as nat, 18);
        }
        let d = (c as u32 - 48) as u64;
        m = m * 10 + d;
        proof {
            let p = s@.subrange(z as int, idx as int);
            let p2 = s@.subrange(z as int, idx as int + 1);
            assert(p2 =~= p.push(c));
            assert(p2.drop_last() =~= p);
            assert(p2.last() == c);
            assert(dec_val(p2) == dec_val(p) * 10 + digit_val(c));
            assert forall|k: int| 0 <= k < p2.len() implies is_digit(#[trigger] p2[k]) by {
                assert(p2[k] == s@.subrange(z as int, j as int)[k]);
            }
            lemma_dec_val_upper(p2);
        }
        idx = idx + 1;
    }
    proof {
        assert(m == dec_val(t));
        lemma_pow10_mono((j - z) as nat, 19);
        assert(m < pow10(19));
    }
    if neg {
        if m <= 0x8000_0000_0000_0000u64 {
            let n: i64 = if m == 0x8000_0000_0000_0000u64 {
                i64::MIN
            } else {
                -(m as i64)
            };
            Some((JsonValue::Int(n), j))
        } else {
            None
        }
    } else {
        if m <= 0x7FFF_FFFF_FFFF_FFFFu64 {
            Some((JsonValue::Int(m as i64), j))
        } else {
            None
        }
    }
}

/// Reads one JSON value, skipping leading whitespace.
pub fn parse_value_x(s: &Vec<char>, i: usize) -> (r: Option<(JsonValue, usize)>)
    requires
        i <= s@.len(),
    ensures
        val_res_matches(r, parse_value(s@, i as int)),
    decreases s@.len() - i, 0int,
{
    let i1 = skip_ws_x(s, i);
    if i1 >= s.len() {
        return None;
    }
    let c = s[i1];
    if c == 'n' {
        if has_chars4(s, i1, 'n', 'u', 'l', 'l') {
            Some((JsonValue::Null, i1 + 4))
        } else {
            None
        }
    } else if c == 't' {
        if has_chars4(s, i1, 't', 'r', 'u', 'e') {
            Some((JsonValue::Bool(true), i1 + 4))
        } else {
            None
        }
    } else if c == 'f' {
        if has_chars5(s, i1, 'f', 'a', 'l', 's', 'e') {
            Some((JsonValue::Bool(false), i1 + 5))
        } else {
            None
        }
    } else if c == '"' {
        match parse_string_body_x(s, i1 + 1) {
            None => None,
            Some((cs, j)) => Some((JsonValue::Str(cs), j)),
        }
    } else if c == '-' || is_digit_x(c) {
        parse_number_x(s, i1)
    } else if c == '[' {
        let j = skip_ws_x(s, i1 + 1);
        if j < s.len() && s[j] == ']' {
            let empty: Vec<JsonValue> = Vec::new();
            proof {
                assert(jview_seq(empty@) =~= Seq::<JsonView>::empty());
            }
            Some((JsonValue::Arr(empty), j + 1))
        } else {
            match parse_items_x(s, i1 + 1) {
                None => None,
                Some((items, j2)) => Some((JsonValue::Arr(items), j2)),
            }
        }
    } else if c == '{' {
        let j = skip_ws_x(s, i1 + 1);
        if j < s.len() && s[j] == '}' {
            let empty: Vec<(Vec<char>, JsonValue)> = Vec::new();
            proof {
                assert(jview_members(empty@) =~= Seq::<(Seq<char>, JsonView)>::empty());
            }
            Some((JsonValue::Obj(empty), j + 1))
        } else {
            match parse_members_x(s, i1 + 1) {
                None => None,
                Some((members, j2)) => Some((JsonValue::Obj(members), j2)),
            }
        }
    } else {
        None
    }
}

/// Reads the items of a non-empty array, including the closing bracket.
fn parse_items_x(s: &Vec<char>, i: usize) -> (r: Option<(Vec<JsonValue>, usize)>)
    requires
        i <= s@.len(),
    ensures
        items_res_matches(r, parse_items(s@, i as int)),
    decreases s@.len() - i, 1int,
{
    match parse_value_x(s, i) {
        None => None,
        Some((v, j)) => {
            proof {
                lemma_parse_value_bounds(s@, i as int);
            }
            let k = skip_ws_x(s, j);
            if k >= s.len() {
                None
            } else if s[k] == ']' {
                let mut items: Vec<JsonValue> = Vec::new();
                items.push(v);
                proof {
                    assert(items@.drop_first() =~= Seq::<JsonValue>::empty());
                    assert(jview_seq(Seq::<JsonValue>::empty()) =~= Seq::<JsonView>::empty());
                    assert(jview_seq(items@) =~= seq![jview(items@[0])]);
                }
                Some((items, k + 1))
            } else if s[k] == ',' {
                match parse_items_x(s, k + 1) {
                    None => None,
                    Some((mut rest, j2)) => {
                        proof {
                            lemma_jview_seq_props(rest@);
                            lemma_jview_seq_props(rest@.insert(0, v));
                            assert(jview_seq(rest@.insert(0, v)) =~= seq![jview(v)].add(
                                jview_seq(rest@),
                            ));
                        }
                        rest.insert(0, v);
                        Some((rest, j2))
                    },
                }
            } else {
                None
            }
        },
    }
}

/// Reads the members of a non-empty object, including the closing brace.
fn parse_members_x(s: &Vec<char>, i: usize) -> (r: Option<(Vec<(Vec<char>, JsonValue)>, usize)>)
    requires
        i <= s@.len(),
    ensures
        members_res_matches(r, parse_members(s@, i as int)),
    decreases s@.len() - i, 1int,
{
    let i1 = skip_ws_x(s, i);
    if i1 >= s.len() {
        return None;
    }
    if s[i1] != '"' {
        return None;
    }
    match parse_string_body_x(s, i1 + 1) {
        None => None,
        Some((key, j)) => {
            proof {
                lemma_parse_string_body_bounds(s@, i1 as int + 1);
            }
            let k = skip_ws_x(s, j);
            if !(k < s.len()) {
                return None;
            }
            if s[k] != ':' {
                return None;
            }
            match parse_value_x(s, k + 1) {
                None => None,
                Some((v, j2)) => {
                    proof {
                        lemma_parse_value_bounds(s@, k as int + 1);
                    }
                    let k2 = skip_ws_x(s, j2);
                    if !(k2 < s.len()) {
                        None
                    } else if s[k2] == '}' {
                        let mut members: Vec<(Vec<char>, JsonValue)> = Vec::new();
                        members.push((key, v));
                        proof {
                            assert(members@.drop_first() =~= Seq::<(Vec<char>, JsonValue)>::empty());
                            assert(jview_members(Seq::<(Vec<char>, JsonValue)>::empty()) =~= Seq::<
                                (Seq<char>, JsonView),
                            >::empty());
                            assert(jview_members(members@) =~= seq![
                                (members@[0].0@, jview(members@[0].1)),
                            ]);
                        }
                        Some((members, k2 + 1))
                    } else if s[k2] == ',' {
                        match parse_members_x(s, k2 + 1) {
                            None => None,
                            Some((mut rest, j3)) => {
                                proof {
                                    lemma_jview_members_props(rest@);
                                    lemma_jview_members_props(rest@.insert(0, (key, v)));
                                    assert(jview_members(rest@.insert(0, (key, v))) =~= seq![
                                        (key@, jview(v)),
                                    ].add(jview_members(rest@)));
                                }
                                rest.insert(0, (key, v));
                                Some((rest, j3))
                            },
                        }
                    } else {
                        None
                    }
                },
            }
        },
    }
}

/// A whole JSON document: one value with nothing but whitespace after it.
pub open spec fn parse_document(s: Seq<char>) -> Option<JsonView> {
    match parse_value(s, 0) {
        None => None,
        Some((v, j)) => if 0 <= j <= s.len() && skip_ws(s, j) == s.len() {
            Some(v)
        } else {
            None
        },
    }
}

/// Reads a whole JSON document.
pub fn parse_json(s: &Vec<char>) -> (r: Option<JsonValue>)
    ensures
        match r {
            None => parse_document(s@) is None,
            Some(v) => parse_document(s@) == Some(jview(v)),
        },
{
    match parse_value_x(s, 0) {
        None => None,
        Some((v, j)) => {
            proof {
                lemma_parse_value_bounds(s@, 0);
            }
            let k = skip_ws_x(s, j);
            if k == s.len() {
                Some(v)
            } else {
                None
            }
        },
    }
}

// ---------------------------------------------------------------------------
// Reading an emitted document gives the tree back
// ---------------------------------------------------------------------------
/// The characters `seg` stand in `s` at position `i`.
pub open spec fn at_seg(s: Seq<char>, i: int, seg: Seq<char>) -> bool {
    0 <= i && i + seg.len() <= s.len() && s.subrange(i, i + seg.len()) == seg
}

pub proof fn lemma_at_seg_index(s: Seq<char>, i: int, seg: Seq<char>, k: int)
    requires
        at_seg(s, i, seg),
        0 <= k < seg.len(),
    ensures
        s[i + k] == seg[k],
{
    assert(s.subrange(i, i + seg.len())[k] == s[i + k]);
}

pub proof fn lemma_at_seg_split(s: Seq<char>, i: int, a: Seq<char>, b: Seq<char>)
    requires
        at_seg(s, i, a.add(b)),
    ensures
        at_seg(s, i, a),
        at_seg(s, i + a.len(), b),
{
    let ab = a.add(b);
    assert forall|k: int| 0 <= k < a.len() implies s.subrange(i, i + a.len())[k] == a[k] by {
        lemma_at_seg_index(s, i, ab, k);
        assert(ab[k] == a[k]);
    }
    assert(s.subrange(i, i + a.len()) =~= a);
    assert forall|k: int|
        0 <= k < b.len() implies s.subrange(i + a.len(), i + a.len() + b.len())[k] == b[k] by {
        lemma_at_seg_index(s, i, ab, a.len() + k);
        assert(ab[a.len() + k] == b[k]);
    }
    assert(s.subrange(i + a.len(), i + a.len() + b.len()) =~= b);
}

/// A hexadecimal digit character reads back as its value.
pub proof fn lemma_hex_round(d: int)
    requires
        0 <= d < 16,
    ensures
        hex_val(spec_hex(d)) == d,
        is_hex(spec_hex(d)),
{
    if d < 10 {
        lemma_digit_val_of_spec_digit(d);
    }
}

/// The delimiters and whitespace of the document grammar are not digits.
proof fn lemma_char_classes()
    ensures
        !is_digit(','),
        !is_digit(']'),
        !is_digit('}'),
        !is_digit(':'),
        !is_digit('"'),
        !is_ws(','),
        !is_ws(']'),
        !is_ws('}'),
        !is_ws(':'),
        !is_ws('"'),
{
    assert(',' as u32 == 44);
    assert(']' as u32 == 93);
    assert('}' as u32 == 125);
    assert(':' as u32 == 58);
    assert('"' as u32 == 34);
}

/// The text of a value is never empty, and its first character is neither
/// whitespace nor a separator.
pub proof fn lemma_emit_value_first(v: JsonView)
    ensures
        emit_value(v).len() >= 1,
        !is_ws(emit_value(v)[0]),
        emit_value(v)[0] != ']',
        emit_value(v)[0] != '}',
        emit_value(v)[0] != ',',
{
    let e = emit_value(v);
    match v {
        JsonView::Int(n) => {
            if n < 0 {
                assert(e[0] == '-');
                assert('-' as u32 == 45);
            } else {
                lemma_dec_rep_digits(n);
                assert(is_digit(e[0]));
                assert(' ' as u32 == 32);
                assert('\n' as u32 == 10);
                assert('\r' as u32 == 13);
                assert('\t' as u32 == 9);
                if is_ws(e[0]) {
                    lemma_char_codes_differ(e[0], ' ');
                }
                assert(']' as u32 == 93);
                assert('}' as u32 == 125);
                assert(',' as u32 == 44);
                if e[0] == ']' || e[0] == '}' || e[0] == ',' {
                    assert((e[0] as u32) > 57);
                }
            }
        },
        JsonView::Str(cs) => {
            assert(e[0] == '"');
        },
        _ => {},
    }
}

/// Reading the escaped body of a string, up to its closing quote, yields the
/// original characters.
pub proof fn lemma_parse_string_body_emit(s: Seq<char>, i: int, cs: Seq<char>)
    requires
        at_seg(s, i, escape_seq(cs).add(seq!['"'])),
    ensures
        parse_string_body(s, i) == Some((cs, i + escape_seq(cs).len() + 1)),
    decreases cs.len(),
{
    if cs.len() == 0 {
        assert(escape_seq(cs).add(seq!['"']) =~= seq!['"']);
        lemma_at_seg_index(s, i, seq!['"'], 0);
        assert(s[i] == '"');
        assert(parse_string_body(s, i) == Some((Seq::<char>::empty(), i + 1)));
        assert(cs =~= Seq::<char>::empty());
    } else {
        let c = cs[0];
        let rest = cs.drop_first();
        let ec = escape_char(c);
        assert(escape_seq(cs) == ec.add(escape_seq(rest)));
        assert(escape_seq(cs).add(seq!['"']) =~= ec.add(escape_seq(rest).add(seq!['"'])));
        lemma_at_seg_split(s, i, ec, escape_seq(rest).add(seq!['"']));
        let i2 = i + ec.len();
        assert(seq![c].add(rest) =~= cs);
        if c == '"' {
            lemma_at_seg_index(s, i, ec, 0);
            lemma_at_seg_index(s, i, ec, 1);
            assert(s[i] == '\\' && s[i + 1] == '"');
            lemma_parse_string_body_emit(s, i2, rest);
            assert(unescape('"') == Some('"'));
        } else if c == '\\' {
            lemma_at_seg_index(s, i, ec, 0);
            lemma_at_seg_index(s, i, ec, 1);
            assert(s[i] == '\\' && s[i + 1] == '\\');
            lemma_parse_string_body_emit(s, i2, rest);
            assert(unescape('\\') == Some('\\'));
        } else if c == '\n' {
            lemma_at_seg_index(s, i, ec, 0);
            lemma_at_seg_index(s, i, ec, 1);
            assert(s[i] == '\\' && s[i + 1] == 'n');
            lemma_parse_string_body_emit(s, i2, rest);
            assert(unescape('n') == Some('\n'));
        } else if c == '\r' {
            lemma_at_seg_index(s, i, ec, 0);
            lemma_at_seg_index(s, i, ec, 1);
            assert(s[i] == '\\' && s[i + 1] == 'r');
            lemma_parse_string_body_emit(s, i2, rest);
            assert(unescape('r') == Some('\r'));
        } else if c == '\t' {
            lemma_at_seg_index(s, i, ec, 0);
            lemma_at_seg_index(s, i, ec, 1);
            assert(s[i] == '\\' && s[i + 1] == 't');
            lemma_parse_string_body_emit(s, i2, rest);
            assert(unescape('t') == Some('\t'));
        } else if (c as u32) < 32 {
            let u = c as u32 as int;
            lemma_at_seg_index(s, i, ec, 0);
            lemma_at_seg_index(s, i, ec, 1);
            lemma_at_seg_index(s, i, ec, 2);
            lemma_at_seg_index(s, i, ec, 3);
            lemma_at_seg_index(s, i, ec, 4);
            lemma_at_seg_index(s, i, ec, 5);
            assert(s[i] == '\\' && s[i + 1] == 'u' && s[i + 2] == '0' && s[i + 3] == '0');
            assert(s[i + 4] == spec_hex(u / 16));
            assert(s[i + 5] == spec_hex(u % 16));
            lemma_hex_round(u / 16);
            lemma_hex_round(u % 16);
            assert(hex_val(s[i + 4]) == u / 16 && hex_val(s[i + 5]) == u % 16);
            assert(u / 16 < 8);
            lemma_parse_string_body_emit(s, i2, rest);
            assert(hex_val(s[i + 4]) * 16 + hex_val(s[i + 5]) == u);
            vstd::utf8::char_u32_cast(c, c as u32);
            assert(code_char(u) == c);
        } else {
            assert(ec =~= seq![c]);
            lemma_at_seg_index(s, i, ec, 0);
            assert(s[i] == c);
            lemma_parse_string_body_emit(s, i + 1, rest);
        }
    }
}

/// A run of digits standing at `i`, followed by a non-digit, is exactly what
/// the digit scan finds.
pub proof fn lemma_digit_run_at(s: Seq<char>, i: int, t: Seq<char>)
    requires
        at_seg(s, i, t),
        all_digits(t),
        i + t.len() == s.len() || !is_digit(s[i + t.len()]),
    ensures
        digit_run(s, i) == i + t.len(),
    decreases t.len(),
{
    if t.len() == 0 {
    } else {
        lemma_at_seg_index(s, i, t, 0);
        assert(is_digit(s[i]));
        assert(t =~= seq![t[0]].add(t.drop_first()));
        lemma_at_seg_split(s, i, seq![t[0]], t.drop_first());
        assert(all_digits(t.drop_first()));
        lemma_digit_run_at(s, i + 1, t.drop_first());
    }
}

/// Reading an emitted integer yields the integer.
pub proof fn lemma_parse_number_emit(s: Seq<char>, i: int, n: int)
    requires
        i64::MIN <= n <= i64::MAX,
        at_seg(s, i, dec_rep_signed(n)),
        i + dec_rep_signed(n).len() == s.len() || !is_digit(s[i + dec_rep_signed(n).len()]),
    ensures
        parse_number(s, i) == Some((JsonView::Int(n), i + dec_rep_signed(n).len())),
{
    let e = dec_rep_signed(n);
    if n < 0 {
        assert(e == seq!['-'].add(dec_rep(-n)));
        lemma_at_seg_index(s, i, e, 0);
        assert(s[i] == '-');
        lemma_at_seg_split(s, i, seq!['-'], dec_rep(-n));
        lemma_dec_rep_digits(-n);
        assert(all_digits(dec_rep(-n)));
        lemma_digit_run_at(s, i + 1, dec_rep(-n));
        let j = digit_run(s, i + 1);
        assert(j == i + e.len());
        assert(s.subrange(i + 1, j) == dec_rep(-n));
        lemma_dec_val_of_rep(-n);
        assert(dec_val(s.subrange(i + 1, j)) == -n);
        assert(dec_rep(-n).len() >= 1);
        assert(j != i + 1 || dec_rep(-n).len() == 0);
    } else {
        assert(e == dec_rep(n));
        lemma_dec_rep_digits(n);
        lemma_at_seg_index(s, i, e, 0);
        assert(is_digit(s[i]));
        assert('-' as u32 == 45);
        if s[i] == '-' {
            assert(is_digit('-'));
            assert(false);
        }
        lemma_digit_run_at(s, i, dec_rep(n));
        let j = digit_run(s, i);
        assert(j == i + e.len());
        assert(s.subrange(i, j) == dec_rep(n));
        lemma_dec_val_of_rep(n);
        assert(dec_val(s.subrange(i, j)) == n);
    }
}

/// Reading the emitted text of a well-formed tree yields the tree, ending
/// just after the text.
pub proof fn lemma_parse_emit_value(s: Seq<char>, i: int, v: JsonView)
    requires
        wf_json(v),
        at_seg(s, i, emit_value(v)),
        i + emit_value(v).len() == s.len() || !is_digit(s[i + emit_value(v).len()]),
    ensures
        parse_value(s, i) == Some((v, i + emit_value(v).len())),
    decreases v, 0int,
{
    let e = emit_value(v);
    lemma_emit_value_first(v);
    lemma_at_seg_index(s, i, e, 0);
    assert(s[i] == e[0]);
    assert(!is_ws(s[i]));
    assert(skip_ws(s, i) == i);
    lemma_char_classes();
    match v {
        JsonView::Null => {
            assert(e =~= seq!['n', 'u', 'l', 'l']);
            assert(s.subrange(i, i + 4) == e);
        },
        JsonView::Bool(b) => {
            if b {
                assert(e =~= seq!['t', 'r', 'u', 'e']);
                assert(s.subrange(i, i + 4) == e);
                assert(s[i] == 't' && s[i] != 'n');
            } else {
                assert(e =~= seq!['f', 'a', 'l', 's', 'e']);
                assert(s.subrange(i, i + 5) == e);
                assert(s[i] == 'f' && s[i] != 'n' && s[i] != 't');
            }
        },
        JsonView::Int(n) => {
            assert(e == dec_rep_signed(n));
            if n < 0 {
                assert(s[i] == '-');
                assert('-' as u32 == 45);
                assert(s[i] != 'n' && s[i] != 't' && s[i] != 'f' && s[i] != '"');
            } else {
                lemma_dec_rep_digits(n);
                assert(is_digit(s[i]));
                assert('n' as u32 == 110);
                assert('t' as u32 == 116);
                assert('f' as u32 == 102);
                assert('"' as u32 == 34);
                if s[i] == 'n' || s[i] == 't' || s[i] == 'f' || s[i] == '"' {
                    assert((s[i] as u32) > 57 || (s[i] as u32) < 48);
                }
            }
            lemma_parse_number_emit(s, i, n);
        },
        JsonView::Str(cs) => {
            assert(s[i] == '"');
            assert('"' as u32 == 34);
            assert(s[i] != 'n' && s[i] != 't' && s[i] != 'f');
            assert(!is_digit(s[i]) && s[i] != '-');
            assert(e =~= seq!['"'].add(escape_seq(cs).add(seq!['"'])));
            lemma_at_seg_split(s, i, seq!['"'], escape_seq(cs).add(seq!['"']));
            lemma_parse_string_body_emit(s, i + 1, cs);
        },
        JsonView::Arr(items) => {
            assert(s[i] == '[');
            assert('[' as u32 == 91);
            assert(s[i] != 'n' && s[i] != 't' && s[i] != 'f' && s[i] != '"');
            assert(!is_digit(s[i]) && s[i] != '-');
            assert(e == seq!['['].add(emit_items(items)).add(seq![']']));
            assert(e =~= seq!['['].add(emit_items(items).add(seq![']'])));
            lemma_at_seg_split(s, i, seq!['['], emit_items(items).add(seq![']']));
            if items.len() == 0 {
                assert(emit_items(items).add(seq![']']) =~= seq![']']);
                lemma_at_seg_index(s, i + 1, seq![']'], 0);
                assert(s[i + 1] == ']');
                assert(!is_ws(s[i + 1]));
                assert(skip_ws(s, i + 1) == i + 1);
                assert(parse_value(s, i) == Some((JsonView::Arr(Seq::empty()), i + 2)));
                assert(items =~= Seq::<JsonView>::empty());
                assert(v == JsonView::Arr(Seq::<JsonView>::empty()));
                assert(e.len() == 2);
            } else {
                vstd::seq::axiom_seq_index_decreases(items, 0);
                lemma_parse_emit_items(s, i + 1, items);
                let j = skip_ws(s, i + 1);
                assert(emit_items(items).len() >= 1) by {
                    lemma_emit_items_first(items);
                }
                lemma_at_seg_split(s, i + 1, emit_items(items), seq![']']);
                lemma_at_seg_index(s, i + 1, emit_items(items), 0);
                lemma_emit_items_first(items);
                assert(!is_ws(s[i + 1]));
                assert(skip_ws(s, i + 1) == i + 1);
                assert(s[i + 1] != ']');
            }
        },
        JsonView::Obj(members) => {
            assert(s[i] == '{');
            assert('{' as u32 == 123);
            assert(s[i] != 'n' && s[i] != 't' && s[i] != 'f' && s[i] != '"');
            assert(!is_digit(s[i]) && s[i] != '-' && s[i] != '[');
            assert(e == seq!['{'].add(emit_members(members)).add(seq!['}']));
            assert(e =~= seq!['{'].add(emit_members(members).add(seq!['}'])));
            lemma_at_seg_split(s, i, seq!['{'], emit_members(members).add(seq!['}']));
            if members.len() == 0 {
                assert(emit_members(members).add(seq!['}']) =~= seq!['}']);
                lemma_at_seg_index(s, i + 1, seq!['}'], 0);
                assert(s[i + 1] == '}');
                assert(!is_ws(s[i + 1]));
                assert(skip_ws(s, i + 1) == i + 1);
                assert(parse_value(s, i) == Some((JsonView::Obj(Seq::empty()), i + 2)));
                assert(members =~= Seq::<(Seq<char>, JsonView)>::empty());
                assert(v == JsonView::Obj(Seq::<(Seq<char>, JsonView)>::empty()));
                assert(e.len() == 2);
            } else {
                lemma_parse_emit_members(s, i + 1, members);
                lemma_emit_members_first(members);
                lemma_at_seg_split(s, i + 1, emit_members(members), seq!['}']);
                lemma_at_seg_index(s, i + 1, emit_members(members), 0);
                assert(s[i + 1] == '"');
                assert(!is_ws(s[i + 1]));
                assert(skip_ws(s, i + 1) == i + 1);
                assert(s[i + 1] != '}');
            }
        },
    }
}

/// The text of a non-empty item list starts like its first item's text.
proof fn lemma_emit_items_first(items: Seq<JsonView>)
    requires
        items.len() >= 1,
    ensures
        emit_items(items).len() >= 1,
        emit_items(items)[0] == emit_value(items[0])[0],
        !is_ws(emit_items(items)[0]),
        emit_items(items)[0] != ']',
{
    lemma_emit_value_first(items[0]);
    if items.len() == 1 {
    } else {
        assert(emit_items(items)[0] == emit_value(items[0]).add(seq![',']).add(
            emit_items(items.drop_first()),
        )[0]);
    }
}

/// The text of a non-empty member list starts with a quote.
proof fn lemma_emit_members_first(members: Seq<(Seq<char>, JsonView)>)
    requires
        members.len() >= 1,
    ensures
        emit_members(members).len() >= 1,
        emit_members(members)[0] == '"',
        !is_ws(emit_members(members)[0]),
        emit_members(members)[0] != '}',
{
    lemma_char_classes();
    assert(emit_member(members[0])[0] == '"');
    if members.len() == 1 {
    } else {
        assert(emit_members(members)[0] == emit_member(members[0]).add(seq![',']).add(
            emit_members(members.drop_first()),
        )[0]);
    }
}

/// Reading emitted items, with the closing bracket after them, yields the
/// items.
proof fn lemma_parse_emit_items(s: Seq<char>, i: int, items: Seq<JsonView>)
    requires
        items.len() >= 1,
        wf_json_seq(items),
        at_seg(s, i, emit_items(items).add(seq![']'])),
    ensures
        parse_items(s, i) == Some((items, i + emit_items(items).len() + 1)),
    decreases items, 1int,
{
    lemma_char_classes();
    let e0 = emit_value(items[0]);
    lemma_emit_value_first(items[0]);
    vstd::seq::axiom_seq_index_decreases(items, 0);
    if items.len() == 1 {
        assert(emit_items(items) == e0);
        assert(emit_items(items).add(seq![']']) =~= e0.add(seq![']']));
        lemma_at_seg_split(s, i, e0, seq![']']);
        lemma_at_seg_index(s, i + e0.len(), seq![']'], 0);
        assert(s[i + e0.len()] == ']');
        assert(wf_json(items[0]));
        lemma_parse_emit_value(s, i, items[0]);
        let j = i + e0.len();
        assert(parse_value(s, i) == Some((items[0], j)));
        assert(!is_ws(s[j]));
        assert(skip_ws(s, j) == j);
        assert(seq![items[0]] =~= items);
    } else {
        vstd::seq::axiom_seq_subrange_decreases(items, 1, items.len() as int);
        let rest = items.drop_first();
        assert(emit_items(items) == e0.add(seq![',']).add(emit_items(rest)));
        assert(emit_items(items).add(seq![']']) =~= e0.add(
            seq![','].add(emit_items(rest).add(seq![']'])),
        ));
        lemma_at_seg_split(s, i, e0, seq![','].add(emit_items(rest).add(seq![']'])));
        let j = i + e0.len();
        lemma_at_seg_split(s, j, seq![','], emit_items(rest).add(seq![']']));
        lemma_at_seg_index(s, j, seq![','], 0);
        assert(s[j] == ',');
        assert(wf_json(items[0]));
        lemma_parse_emit_value(s, i, items[0]);
        assert(parse_value(s, i) == Some((items[0], j)));
        assert(!is_ws(s[j]));
        assert(skip_ws(s, j) == j);
        assert(s[j] != ']');
        assert(wf_json_seq(rest));
        lemma_parse_emit_items(s, j + 1, rest);
        assert(parse_items(s, j + 1) == Some((rest, j + 1 + emit_items(rest).len() + 1)));
        assert(seq![items[0]].add(rest) =~= items);
        assert(emit_items(items).len() == e0.len() + 1 + emit_items(rest).len());
    }
}

/// Reading emitted members, with the closing brace after them, yields the
/// members.
proof fn lemma_parse_emit_members(s: Seq<char>, i: int, members: Seq<(Seq<char>, JsonView)>)
    requires
        members.len() >= 1,
        wf_json_members(members),
        at_seg(s, i, emit_members(members).add(seq!['}'])),
    ensures
        parse_members(s, i) == Some((members, i + emit_members(members).len() + 1)),
    decreases members, 1int,
{
    lemma_char_classes();
    let m = members[0];
    let em = emit_member(m);
    let ev = emit_value(m.1);
    lemma_emit_value_first(m.1);
    vstd::seq::axiom_seq_index_decreases(members, 0);
    // The member text: "key":value
    assert(em == emit_string(m.0).add(seq![':']).add(ev));
    if members.len() > 1 {
        vstd::seq::axiom_seq_subrange_decreases(members, 1, members.len() as int);
    }
    let tail: Seq<char> = if members.len() == 1 {
        seq!['}']
    } else {
        seq![','].add(emit_members(members.drop_first()).add(seq!['}']))
    };
    assert(emit_members(members).add(seq!['}']) =~= em.add(tail)) by {
        if members.len() == 1 {
            assert(emit_members(members) == em);
        } else {
            assert(emit_members(members) == em.add(seq![',']).add(
                emit_members(members.drop_first()),
            ));
        }
    }
    lemma_at_seg_split(s, i, em, tail);
    // Split the member text itself.
    assert(em =~= seq!['"'].add(escape_seq(m.0).add(seq!['"'])).add(seq![':'].add(ev)));
    lemma_at_seg_split(s, i, seq!['"'].add(escape_seq(m.0).add(seq!['"'])), seq![':'].add(ev));
    lemma_at_seg_split(s, i, seq!['"'], escape_seq(m.0).add(seq!['"']));
    lemma_at_seg_index(s, i, seq!['"'], 0);
    assert(s[i] == '"');
    assert(!is_ws(s[i]));
    assert(skip_ws(s, i) == i);
    lemma_parse_string_body_emit(s, i + 1, m.0);
    let j = i + 1 + escape_seq(m.0).len() + 1;
    assert(parse_string_body(s, i + 1) == Some((m.0, j)));
    let colon_pos = i + (seq!['"'].add(escape_seq(m.0).add(seq!['"']))).len();
    assert(colon_pos == j);
    lemma_at_seg_split(s, j, seq![':'], ev);
    lemma_at_seg_index(s, j, seq![':'], 0);
    assert(s[j] == ':');
    assert(!is_ws(s[j]));
    assert(skip_ws(s, j) == j);
    let vpos = j + 1;
    let j2 = vpos + ev.len();
    // The character after the value is the first of `tail`.
    lemma_at_seg_index(s, i, em.add(tail), em.len() as int);
    assert(s[j2] == tail[0]);
    assert(tail[0] == '}' || tail[0] == ',') by {
        if members.len() != 1 {
            assert(tail[0] == seq![','][0]);
        }
    }
    assert(wf_json(m.1));
    assert(em.add(tail) =~= seq!['"'].add(escape_seq(m.0).add(seq!['"'])).add(seq![':']).add(
        ev,
    ).add(tail));
    lemma_at_seg_split(
        s,
        i,
        seq!['"'].add(escape_seq(m.0).add(seq!['"'])).add(seq![':']).add(ev),
        tail,
    );
    lemma_at_seg_split(s, i, seq!['"'].add(escape_seq(m.0).add(seq!['"'])).add(seq![':']), ev);
    assert(!is_digit(s[j2]));
    lemma_parse_emit_value(s, vpos, m.1);
    assert(parse_value(s, vpos) == Some((m.1, j2)));
    assert(!is_ws(s[j2]));
    assert(skip_ws(s, j2) == j2);
    if members.len() == 1 {
        assert(s[j2] == '}');
        assert(parse_members(s, i) == Some((seq![(m.0, m.1)], j2 + 1)));
        assert(seq![(m.0, m.1)] =~= members);
        assert(emit_members(members).len() == em.len());
        assert(j2 + 1 == i + emit_members(members).len() + 1);
    } else {
        let rest = members.drop_first();
        assert(s[j2] == ',');
        assert(s[j2] != '}');
        assert(wf_json_members(rest));
        lemma_at_seg_split(s, j2, seq![','], emit_members(rest).add(seq!['}']));
        lemma_parse_emit_members(s, j2 + 1, rest);
        assert(seq![(m.0, m.1)].add(rest) =~= members);
        assert(emit_members(members).len() == em.len() + 1 + emit_members(rest).len());
    }
}

/// Reading the emitted text of a well-formed tree as a whole document yields
/// the tree: the writer and the reader are inverses.
pub proof fn lemma_parse_emit_document(v: JsonView)
    requires
        wf_json(v),
    ensures
        parse_document(emit_value(v)) == Some(v),
{
    let s = emit_value(v);
    assert(s.subrange(0, s.len() as int) =~= s);
    assert(at_seg(s, 0, s));
    lemma_parse_emit_value(s, 0, v);
    assert(skip_ws(s, s.len() as int) == s.len());
}

} // verus!
