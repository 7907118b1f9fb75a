//! The JSON subset the debt service speaks, as a specification-level grammar
//! and a verified parser and escaper over it.
//!
//! Both endpoints answer with a single flat object whose member values are
//! scalars: strings (with the standard escapes, including `\uXXXX` and
//! surrogate pairs), integer numbers, `true`, `false` and `null`. The parser
//! accepts exactly that shape — whitespace anywhere the grammar allows it,
//! members in any order, unknown members ignored by the lookups — and
//! rejects everything else.

use vstd::prelude::*;
use crate::decimal::{digit_char, digit_val, is_digit};

verus! {

/// A scalar member value, at the specification level.
pub ghost enum ScalarV {
    Int(int),
    Str(Seq<char>),
    Bool(bool),
    Null,
}

/// JSON insignificant whitespace.
pub open spec fn is_ws(c: char) -> bool {
    c == ' ' || c == '\t' || c == '\n' || c == '\r'
}

/// The first index at or after `i` that does not hold whitespace.
pub open spec fn skip_ws(s: Seq<char>, i: int) -> int
    decreases s.len() - i,
{
    if 0 <= i < s.len() && is_ws(s[i]) {
        skip_ws(s, i + 1)
    } else {
        i
    }
}

/// The value of a hexadecimal digit character, if it is one.
pub open spec fn hex_val(c: char) -> Option<int> {
    if is_digit(c) {
        Some(digit_val(c))
    } else if c == 'a' || c == 'A' {
        Some(10)
    } else if c == 'b' || c == 'B' {
        Some(11)
    } else if c == 'c' || c == 'C' {
        Some(12)
    } else if c == 'd' || c == 'D' {
        Some(13)
    } else if c == 'e' || c == 'E' {
        Some(14)
    } else if c == 'f' || c == 'F' {
        Some(15)
    } else {
        None
    }
}

/// The value of the four hexadecimal digits at `i`, if they are there.
pub open spec fn parse_hex4(s: Seq<char>, i: int) -> Option<int> {
    if 0 <= i && i + 4 <= s.len() {
        match hex_val(s[i]) {
            None => None,
            Some(a) => match hex_val(s[i + 1]) {
                None => None,
                Some(b) => match hex_val(s[i + 2]) {
                    None => None,
                    Some(c) => match hex_val(s[i + 3]) {
                        None => None,
                        Some(d) => Some(a * 4096 + b * 256 + c * 16 + d),
                    },
                },
            },
        }
    } else {
        None
    }
}

/// The character a single-letter escape stands for, if the letter is one.
pub open spec fn simple_escape(c: char) -> Option<char> {
    if c == '"' {
        Some('"')
    } else if c == '\\' {
        Some('\\')
    } else if c == '/' {
        Some('/')
    } else if c == 'b' {
        Some('\u{0008}')
    } else if c == 'f' {
        Some('\u{000C}')
    } else if c == 'n' {
        Some('\n')
    } else if c == 'r' {
        Some('\r')
    } else if c == 't' {
        Some('\t')
    } else {
        None
    }
}

/// Whether a `\uXXXX` value is the first half of a surrogate pair.
pub open spec fn is_high_surrogate(v: int) -> bool {
    0xD800 <= v < 0xDC00
}

/// Whether a `\uXXXX` value is the second half of a surrogate pair.
pub open spec fn is_low_surrogate(v: int) -> bool {
    0xDC00 <= v < 0xE000
}

/// Scans the inside of a string literal from `i` (past the opening quote),
/// `acc` holding the characters decoded so far. On the closing quote it
/// yields the decoded characters and the index just past the quote.
pub open spec fn parse_string_body(s: Seq<char>, i: int, acc: Seq<char>) -> Option<(Seq<char>, int)>
    decreases s.len() - i,
{
    if !(0 <= i < s.len()) {
        None
    } else {
        let c = s[i];
        if c == '"' {
            Some((acc, i + 1))
        } else if c == '\\' {
            if i + 1 < s.len() {
                let e = s[i + 1];
                if e == 'u' {
                    match parse_hex4(s, i + 2) {
                        None => None,
                        Some(v) => if is_high_surrogate(v) {
                            if i + 7 < s.len() && s[i + 6] == '\\' && s[i + 7] == 'u' {
                                match parse_hex4(s, i + 8) {
                                    None => None,
                                    Some(lo) => if is_low_surrogate(lo) {
                                        let cp = 0x10000 + (v - 0xD800) * 0x400 + (lo - 0xDC00);
                                        parse_string_body(s, i + 12, acc.push((cp as u32) as char))
                                    } else {
                                        None
                                    },
                                }
                            } else {
                                None
                            }
                        } else if is_low_surrogate(v) {
                            None
                        } else {
                            parse_string_body(s, i + 6, acc.push((v as u32) as char))
                        },
                    }
                } else {
                    match simple_escape(e) {
                        None => None,
                        Some(d) => parse_string_body(s, i + 2, acc.push(d)),
                    }
                }
            } else {
                None
            }
        } else if (c as u32) < 0x20 {
            None
        } else {
            parse_string_body(s, i + 1, acc.push(c))
        }
    }
}

/// Parses a string literal starting with its opening quote at `i`.
pub open spec fn parse_string(s: Seq<char>, i: int) -> Option<(Seq<char>, int)> {
    if 0 <= i < s.len() && s[i] == '"' {
        parse_string_body(s, i + 1, Seq::empty())
    } else {
        None
    }
}

/// Folds the run of digits starting at `i` onto `acc`, yielding the value
/// and the index just past the run.
pub open spec fn scan_digits(s: Seq<char>, i: int, acc: int) -> (int, int)
    decreases s.len() - i,
{
    if 0 <= i < s.len() && is_digit(s[i]) {
        scan_digits(s, i + 1, acc * 10 + digit_val(s[i]))
    } else {
        (acc, i)
    }
}

/// Parses an integer number at `i`: an optional minus sign and a digit run
/// with no leading zero. Yields the mathematical value, unbounded.
pub open spec fn parse_number(s: Seq<char>, i: int) -> Option<(int, int)> {
    let neg = 0 <= i < s.len() && s[i] == '-';
    let j = if neg {
        i + 1
    } else {
        i
    };
    if 0 <= j < s.len() && is_digit(s[j]) {
        if s[j] == '0' && j + 1 < s.len() && is_digit(s[j + 1]) {
            None
        } else {
            let (v, k) = scan_digits(s, j, 0);
            Some(
                (
                    if neg {
                        -v
                    } else {
                        v
                    },
                    k,
                ),
            )
        }
    } else {
        None
    }
}

/// `parse_number`, narrowed to values a 64-bit signed integer can hold;
/// a number outside that range is a parse failure.
pub open spec fn parse_number_i64(s: Seq<char>, i: int) -> Option<(int, int)> {
    match parse_number(s, i) {
        None => None,
        Some((v, k)) => if i64::MIN <= v <= i64::MAX {
            Some((v, k))
        } else {
            None
        },
    }
}

/// Parses a scalar member value at `i`.
pub open spec fn parse_value(s: Seq<char>, i: int) -> Option<(ScalarV, int)> {
    if !(0 <= i < s.len()) {
        None
    } else {
        let c = s[i];
        if c == '"' {
            match parse_string(s, i) {
                None => None,
                Some((t, j)) => Some((ScalarV::Str(t), j)),
            }
        } else if c == '-' || is_digit(c) {
            match parse_number_i64(s, i) {
                None => None,
                Some((v, j)) => Some((ScalarV::Int(v), j)),
            }
        } else if c == 't' {
            if i + 4 <= s.len() && s[i + 1] == 'r' && s[i + 2] == 'u' && s[i + 3] == 'e' {
                Some((ScalarV::Bool(true), i + 4))
            } else {
                None
            }
        } else if c == 'f' {
            if i + 5 <= s.len() && s[i + 1] == 'a' && s[i + 2] == 'l' && s[i + 3] == 's' && s[i + 4]
                == 'e' {
                Some((ScalarV::Bool(false), i + 5))
            } else {
                None
            }
        } else if c == 'n' {
            if i + 4 <= s.len() && s[i + 1] == 'u' && s[i + 2] == 'l' && s[i + 3] == 'l' {
                Some((ScalarV::Null, i + 4))
            } else {
                None
            }
        } else {
            None
        }
    }
}

/// Parses a comma-separated member list starting at the first key's quote,
/// `acc` holding the members already read. Yields the members and the index
/// of the first character after the list (whitespace skipped), which the
/// caller requires to be the closing brace. `fuel` only bounds the
/// recursion; every member consumes characters, so the fuel the object
/// parser passes never runs out before the list ends.
pub open spec fn parse_members(
    s: Seq<char>,
    i: int,
    acc: Seq<(Seq<char>, ScalarV)>,
    fuel: nat,
) -> Option<(Seq<(Seq<char>, ScalarV)>, int)>
    decreases fuel,
{
    if fuel == 0 {
        None
    } else {
        match parse_string(s, i) {
            None => None,
            Some((key, j)) => {
                let j2 = skip_ws(s, j);
                if j2 < s.len() && s[j2] == ':' {
                    let j3 = skip_ws(s, j2 + 1);
                    match parse_value(s, j3) {
                        None => None,
                        Some((v, k)) => {
                            let k2 = skip_ws(s, k);
                            let acc2 = acc.push((key, v));
                            if k2 < s.len() && s[k2] == ',' {
                                parse_members(s, skip_ws(s, k2 + 1), acc2, (fuel - 1) as nat)
                            } else {
                                Some((acc2, k2))
                            }
                        },
                    }
                } else {
                    None
                }
            },
        }
    }
}

/// Parses a complete body: one object of scalar members, with nothing but
/// whitespace around it. Yields the members in source order.
pub open spec fn parse_object(s: Seq<char>) -> Option<Seq<(Seq<char>, ScalarV)>> {
    let i = skip_ws(s, 0);
    if i < s.len() && s[i] == '{' {
        let j = skip_ws(s, i + 1);
        if j < s.len() && s[j] == '}' {
            if skip_ws(s, j + 1) == s.len() {
                Some(Seq::empty())
            } else {
                None
            }
        } else {
            match parse_members(s, j, Seq::empty(), s.len()) {
                None => None,
                Some((ms, k)) => if k < s.len() && s[k] == '}' {
                    if skip_ws(s, k + 1) == s.len() {
                        Some(ms)
                    } else {
                        None
                    }
                } else {
                    None
                },
            }
        }
    } else {
        None
    }
}

/// How many members from index `i` on carry `key`.
pub open spec fn key_count_from(ms: Seq<(Seq<char>, ScalarV)>, key: Seq<char>, i: int) -> nat
    decreases ms.len() - i,
{
    if 0 <= i < ms.len() {
        (if ms[i].0 == key {
            1nat
        } else {
            0nat
        }) + key_count_from(ms, key, i + 1)
    } else {
        0
    }
}

/// How many members carry `key`.
pub open spec fn key_count(ms: Seq<(Seq<char>, ScalarV)>, key: Seq<char>) -> nat {
    key_count_from(ms, key, 0)
}

/// The value of the first member from index `i` on that carries `key`.
pub open spec fn lookup_from(ms: Seq<(Seq<char>, ScalarV)>, key: Seq<char>, i: int) -> Option<
    ScalarV,
>
    decreases ms.len() - i,
{
    if 0 <= i < ms.len() {
        if ms[i].0 == key {
            Some(ms[i].1)
        } else {
            lookup_from(ms, key, i + 1)
        }
    } else {
        None
    }
}

/// The value of the first member that carries `key`.
pub open spec fn lookup(ms: Seq<(Seq<char>, ScalarV)>, key: Seq<char>) -> Option<ScalarV> {
    lookup_from(ms, key, 0)
}

/// How a character is written inside a JSON string literal: quote and
/// backslash escaped, the five named control characters by letter, any
/// other control character as `\u00` and two lowercase hex digits, and
/// everything else as itself.
pub open spec fn escape_char(c: char) -> Seq<char> {
    if c == '"' {
        seq!['\\', '"']
    } else if c == '\\' {
        seq!['\\', '\\']
    } else if c == '\u{0008}' {
        seq!['\\', 'b']
    } else if c == '\u{000C}' {
        seq!['\\', 'f']
    } else if c == '\n' {
        seq!['\\', 'n']
    } else if c == '\r' {
        seq!['\\', 'r']
    } else if c == '\t' {
        seq!['\\', 't']
    } else if (c as u32) < 0x20 {
        seq!['\\', 'u', '0', '0', hex_digit_char(((c as u32) / 16) as int), hex_digit_char(
            ((c as u32) % 16) as int,
        )]
    } else {
        seq![c]
    }
}

/// The lowercase hexadecimal digit character for a value in `0 ..= 15`.
pub open spec fn hex_digit_char(d: int) -> char {
    if d < 10 {
        digit_char(d)
    } else if d == 10 {
        'a'
    } else if d == 11 {
        'b'
    } else if d == 12 {
        'c'
    } else if d == 13 {
        'd'
    } else if d == 14 {
        'e'
    } else {
        'f'
    }
}

/// The body of a JSON string literal holding the characters of `s`.
pub open spec fn json_escaped(s: Seq<char>) -> Seq<char>
    decreases s.len(),
{
    if s.len() == 0 {
        Seq::empty()
    } else {
        escape_char(s[0]) + json_escaped(s.drop_first())
    }
}

/// Escaping renders every hexadecimal digit readably.
proof fn lemma_hex_digit_char_val(d: int)
    requires
        0 <= d < 16,
    ensures
        hex_val(hex_digit_char(d)) == Some(d),
{
}

/// Scanning a string body that holds the escaped form of `v` and then a
/// closing quote decodes exactly `v`.
proof fn lemma_escaped_body_parses(s: Seq<char>, i: int, v: Seq<char>, acc: Seq<char>)
    requires
        0 <= i,
        i + json_escaped(v).len() + 1 <= s.len(),
        forall|k: int| 0 <= k < json_escaped(v).len() ==> s[i + k] == json_escaped(v)[k],
        s[i + json_escaped(v).len()] == '"',
    ensures
        parse_string_body(s, i, acc) == Some((acc + v, i + json_escaped(v).len() + 1)),
    decreases v.len(),
{
    if v.len() == 0 {
        assert(json_escaped(v).len() == 0);
        assert(s[i] == '"');
        assert(acc + v =~= acc);
    } else {
        let c = v[0];
        let rest_v = v.drop_first();
        let e = escape_char(c);
        assert(json_escaped(v) == e + json_escaped(rest_v));
        assert forall|k: int| 0 <= k < json_escaped(rest_v).len() implies s[i + e.len() + k]
            == json_escaped(rest_v)[k] by {
            assert(json_escaped(v)[e.len() + k] == json_escaped(rest_v)[k]);
            assert(s[i + (e.len() + k)] == json_escaped(v)[e.len() + k]);
        }
        assert(s[i + e.len() + json_escaped(rest_v).len()] == '"');
        assert forall|k: int| 0 <= k < e.len() implies s[i + k] == e[k] by {
            assert(s[i + k] == json_escaped(v)[k]);
            assert(json_escaped(v)[k] == e[k]);
        }
        if c == '"' || c == '\\' || c == '\u{0008}' || c == '\u{000C}' || c == '\n' || c == '\r'
            || c == '\t' {
            assert(e.len() == 2);
            assert(s[i] == s[i + 0] && s[i + 0] == e[0]);
            assert(s[i + 1] == e[1]);
            assert(simple_escape(s[i + 1]) == Some(c));
            lemma_escaped_body_parses(s, i + 2, rest_v, acc.push(c));
            assert(acc.push(c) + rest_v =~= acc + v);
        } else if (c as u32) < 0x20 {
            let hi = ((c as u32) / 16) as int;
            let lo = ((c as u32) % 16) as int;
            assert(e.len() == 6);
            assert(s[i] == s[i + 0] && s[i + 0] == e[0]);
            assert(s[i] == '\\');
            assert(s[i + 1] == 'u');
            assert(s[i + 2] == '0');
            assert(s[i + 3] == '0');
            assert(s[i + 4] == hex_digit_char(hi));
            assert(s[i + 5] == hex_digit_char(lo));
            lemma_hex_digit_char_val(hi);
            lemma_hex_digit_char_val(lo);
            assert(parse_hex4(s, i + 2) == Some(hi * 16 + lo));
            let w = hi * 16 + lo;
            assert(w == c as u32);
            assert(!is_high_surrogate(w) && !is_low_surrogate(w));
            vstd::utf8::char_u32_cast(c, c as u32);
            assert((w as u32) as char == c);
            lemma_escaped_body_parses(s, i + 6, rest_v, acc.push(c));
            assert(acc.push(c) + rest_v =~= acc + v);
        } else {
            assert(e =~= seq![c]);
            assert(s[i] == s[i + 0] && s[i + 0] == e[0]);
            assert(s[i] == c);
            lemma_escaped_body_parses(s, i + 1, rest_v, acc.push(c));
            assert(acc.push(c) + rest_v =~= acc + v);
        }
    }
}

/// Whether a character is written as itself inside a string literal.
pub open spec fn is_plain_char(c: char) -> bool {
    c != '"' && c != '\\' && (c as u32) >= 0x20
}

/// Escaping changes nothing in a text of plain characters.
pub proof fn lemma_json_escaped_plain(s: Seq<char>)
    requires
        forall|k: int| 0 <= k < s.len() ==> is_plain_char(#[trigger] s[k]),
    ensures
        json_escaped(s) == s,
    decreases s.len(),
{
    if s.len() == 0 {
        assert(json_escaped(s) =~= s);
    } else {
        assert(is_plain_char(s[0]));
        assert(escape_char(s[0]) =~= seq![s[0]]);
        assert(forall|k: int|
            0 <= k < s.drop_first().len() ==> is_plain_char(#[trigger] s.drop_first()[k]));
        lemma_json_escaped_plain(s.drop_first());
        assert(json_escaped(s) =~= s);
    }
}

/// The text of one member: an escaped key and an escaped string value.
pub open spec fn member_text(key: Seq<char>, val: Seq<char>) -> Seq<char> {
    seq!['"'] + json_escaped(key) + seq!['"', ':', '"'] + json_escaped(val) + seq!['"']
}

/// The text of a comma-separated list of string members, without whitespace.
pub open spec fn members_text(ms: Seq<(Seq<char>, Seq<char>)>) -> Seq<char>
    decreases ms.len(),
{
    if ms.len() == 0 {
        Seq::empty()
    } else if ms.len() == 1 {
        member_text(ms[0].0, ms[0].1)
    } else {
        member_text(ms[0].0, ms[0].1) + seq![','] + members_text(ms.drop_first())
    }
}

/// The text of a flat object of string members, without whitespace.
pub open spec fn object_text(ms: Seq<(Seq<char>, Seq<char>)>) -> Seq<char> {
    seq!['{'] + members_text(ms) + seq!['}']
}

/// The members as the parser reports them: each value a string scalar.
pub open spec fn str_members(ms: Seq<(Seq<char>, Seq<char>)>) -> Seq<(Seq<char>, ScalarV)> {
    ms.map_values(|p: (Seq<char>, Seq<char>)| (p.0, ScalarV::Str(p.1)))
}

/// Writing any text as a JSON string literal and reading the literal back
/// yields the text unchanged, whatever follows the literal: the escaper and
/// the parser agree on every string.
pub proof fn lemma_string_round_trip(v: Seq<char>, rest: Seq<char>)
    ensures
        parse_string(seq!['"'] + json_escaped(v) + seq!['"'] + rest, 0) == Some(
            (v, json_escaped(v).len() as int + 2),
        ),
{
    let s = seq!['"'] + json_escaped(v) + seq!['"'] + rest;
    assert(s[0] == '"');
    assert(s[1 + json_escaped(v).len() as int] == '"');
    assert forall|k: int| 0 <= k < json_escaped(v).len() implies s[1 + k] == json_escaped(v)[k]
        by {}
    lemma_escaped_body_parses(s, 1, v, Seq::empty());
    assert(Seq::<char>::empty() + v =~= v);
}

/// Parsing a string literal that stands at `i` as a quote, escaped text,
/// and a closing quote.
proof fn lemma_string_at(s: Seq<char>, i: int, v: Seq<char>)
    requires
        0 <= i,
        i + json_escaped(v).len() + 2 <= s.len(),
        s[i] == '"',
        forall|k: int| 0 <= k < json_escaped(v).len() ==> s[i + 1 + k] == json_escaped(v)[k],
        s[i + 1 + json_escaped(v).len()] == '"',
    ensures
        parse_string(s, i) == Some((v, i + json_escaped(v).len() + 2)),
{
    assert forall|k: int| 0 <= k < json_escaped(v).len() implies s[(i + 1) + k] == json_escaped(
        v,
    )[k] by {
        assert(s[i + 1 + k] == json_escaped(v)[k]);
    }
    assert(s[(i + 1) + json_escaped(v).len()] == '"');
    lemma_escaped_body_parses(s, i + 1, v, Seq::empty());
    assert(Seq::<char>::empty() + v =~= v);
}

/// A member list never outgrows its text.
proof fn lemma_members_text_len(ms: Seq<(Seq<char>, Seq<char>)>)
    requires
        1 <= ms.len(),
    ensures
        members_text(ms).len() >= ms.len(),
        members_text(ms)[0] == '"',
    decreases ms.len(),
{
    if ms.len() > 1 {
        lemma_members_text_len(ms.drop_first());
    }
}

/// A member list parses from its text, and the parse stops at the closing
/// brace that follows it.
proof fn lemma_members_text_parses(
    s: Seq<char>,
    i: int,
    ms: Seq<(Seq<char>, Seq<char>)>,
    acc: Seq<(Seq<char>, ScalarV)>,
    fuel: nat,
)
    requires
        1 <= ms.len() <= fuel,
        0 <= i,
        i + members_text(ms).len() < s.len(),
        forall|k: int| 0 <= k < members_text(ms).len() ==> s[i + k] == members_text(ms)[k],
        s[i + members_text(ms).len()] == '}',
    ensures
        parse_members(s, i, acc, fuel) == Some(
            (acc + str_members(ms), i + members_text(ms).len()),
        ),
    decreases ms.len(),
{
    let key = ms[0].0;
    let val = ms[0].1;
    let m0 = member_text(key, val);
    let ek = json_escaped(key);
    let ev = json_escaped(val);
    assert(m0.len() == ek.len() + ev.len() + 5);
    assert forall|k: int| 0 <= k < m0.len() implies s[i + k] == m0[k] by {
        assert(s[i + k] == members_text(ms)[k]);
        assert(members_text(ms)[k] == m0[k]);
    }
    assert(m0[0] == '"');
    assert forall|k: int| 0 <= k < ek.len() implies s[i + 1 + k] == ek[k] by {
        assert(m0[1 + k] == ek[k]);
        assert(s[i + (1 + k)] == m0[1 + k]);
    }
    assert(s[i + 1 + ek.len()] == '"') by {
        let p: int = 1 + ek.len() as int;
        assert(m0[p] == '"');
        assert(s[i + p] == m0[p]);
    }
    assert(s[i + 2 + ek.len()] == ':') by {
        let p: int = 2 + ek.len() as int;
        assert(m0[p] == ':');
        assert(s[i + p] == m0[p]);
    }
    assert(s[i + 3 + ek.len()] == '"') by {
        let p: int = 3 + ek.len() as int;
        assert(m0[p] == '"');
        assert(s[i + p] == m0[p]);
    }
    let j3 = i + ek.len() + 3;
    assert forall|k: int| 0 <= k < ev.len() implies s[j3 + 1 + k] == ev[k] by {
        assert(m0[ek.len() + 4 + k] == ev[k]);
        assert(s[i + (ek.len() + 4 + k)] == m0[ek.len() + 4 + k]);
    }
    assert(s[j3 + 1 + ev.len()] == '"') by {
        let p: int = ek.len() as int + 4 + ev.len() as int;
        assert(m0[p] == '"');
        assert(s[i + p] == m0[p]);
    }
    assert(s[i] == s[i + 0] && s[i + 0] == m0[0]);
    lemma_string_at(s, i, key);
    let j = i + ek.len() + 2;
    assert(!is_ws(s[j]));
    assert(skip_ws(s, j) == j);
    assert(s[j + 1] == '"');
    assert(!is_ws(s[j + 1]));
    assert(skip_ws(s, j + 1) == j + 1);
    lemma_string_at(s, j3, val);
    let k_end = j3 + ev.len() + 2;
    assert(k_end == i + m0.len());
    assert(parse_value(s, j3) == Some((ScalarV::Str(val), k_end)));
    if ms.len() == 1 {
        assert(s[k_end] == '}');
        assert(!is_ws(s[k_end]));
        assert(skip_ws(s, k_end) == k_end);
        assert(acc.push((key, ScalarV::Str(val))) =~= acc + str_members(ms));
    } else {
        let rest = ms.drop_first();
        assert(members_text(ms) == m0 + seq![','] + members_text(rest));
        assert(members_text(ms)[m0.len() as int] == ',');
        assert(s[i + m0.len()] == ',');
        assert(!is_ws(s[k_end]));
        assert(skip_ws(s, k_end) == k_end);
        lemma_members_text_len(rest);
        assert forall|k: int| 0 <= k < members_text(rest).len() implies s[(k_end + 1) + k]
            == members_text(rest)[k] by {
            assert(members_text(ms)[m0.len() + 1 + k] == members_text(rest)[k]);
            assert(s[i + (m0.len() + 1 + k)] == members_text(ms)[m0.len() + 1 + k]);
        }
        assert(s[k_end + 1] == s[(k_end + 1) + 0]);
        assert(s[k_end + 1] == members_text(rest)[0]);
        assert(s[k_end + 1] == '"');
        assert(!is_ws(s[k_end + 1]));
        assert(skip_ws(s, k_end + 1) == k_end + 1);
        assert(s[(k_end + 1) + members_text(rest).len()] == '}');
        lemma_members_text_parses(s, k_end + 1, rest, acc.push((key, ScalarV::Str(val))), (fuel
            - 1) as nat);
        assert(acc.push((key, ScalarV::Str(val))) + str_members(rest) =~= acc + str_members(ms));
        assert((k_end + 1) + members_text(rest).len() == i + members_text(ms).len());
    }
}

/// A flat object of string members parses from its text to exactly those
/// members, in order: the object writer and the parser agree on every
/// member list.
pub proof fn lemma_object_round_trip(ms: Seq<(Seq<char>, Seq<char>)>)
    ensures
        parse_object(object_text(ms)) == Some(str_members(ms)),
{
    let s = object_text(ms);
    assert(s[0] == '{');
    assert(!is_ws(s[0]));
    assert(skip_ws(s, 0) == 0);
    if ms.len() == 0 {
        assert(members_text(ms).len() == 0);
        assert(s.len() == 2);
        assert(s[1] == '}');
        assert(!is_ws(s[1]));
        assert(skip_ws(s, 1) == 1);
        assert(skip_ws(s, 2) == 2);
        assert(str_members(ms) =~= Seq::<(Seq<char>, ScalarV)>::empty());
    } else {
        lemma_members_text_len(ms);
        assert forall|k: int| 0 <= k < members_text(ms).len() implies s[1 + k] == members_text(
            ms,
        )[k] by {}
        assert(s[1] == s[1int + 0]);
        assert(s[1] == members_text(ms)[0]);
        assert(s[1] == '"');
        assert(s[1] != '}');
        assert(!is_ws(s[1]));
        assert(skip_ws(s, 1) == 1);
        assert(s[1 + members_text(ms).len() as int] == '}');
        assert(ms.len() <= s.len());
        lemma_members_text_parses(s, 1, ms, Seq::empty(), s.len());
        assert(Seq::<(Seq<char>, ScalarV)>::empty() + str_members(ms) =~= str_members(ms));
        let k = 1 + members_text(ms).len() as int;
        assert(k + 1 == s.len());
        assert(skip_ws(s, k + 1) == s.len());
    }
}

} // verus!
