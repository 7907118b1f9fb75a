//! The executable parser for the service's JSON bodies, proved equivalent
//! to the grammar in [`crate::json`].

use vstd::prelude::*;
use crate::decimal::{digit_val, is_digit};
use crate::json::{
    hex_val, is_ws, key_count, key_count_from, lookup, lookup_from, parse_hex4, parse_members,
    parse_number_i64, parse_object, parse_string, parse_string_body, parse_value, scan_digits,
    simple_escape, skip_ws, ScalarV,
};
use crate::strconv::char_from_u32;

verus! {

/// A scalar member value, as the parser hands it out.
pub enum JsonScalarE {
    Int(i64),
    Str(Vec<char>),
    Bool(bool),
    Null,
}

impl View for JsonScalarE {
    type V = ScalarV;

    open spec fn view(&self) -> ScalarV {
        match self {
            JsonScalarE::Int(v) => ScalarV::Int(*v as int),
            JsonScalarE::Str(t) => ScalarV::Str(t@),
            JsonScalarE::Bool(b) => ScalarV::Bool(*b),
            JsonScalarE::Null => ScalarV::Null,
        }
    }
}

/// The members of a parsed object, at the specification level.
pub open spec fn members_view(v: Seq<(Vec<char>, JsonScalarE)>) -> Seq<(Seq<char>, ScalarV)> {
    Seq::new(v.len(), |k: int| (v[k].0@, v[k].1@))
}

/// Whether `c` is a decimal digit.
pub fn is_digit_exec(c: char) -> (b: bool)
    ensures
        b == is_digit(c),
{
    c == '0' || c == '1' || c == '2' || c == '3' || c == '4' || c == '5' || c == '6' || c == '7'
        || c == '8' || c == '9'
}

/// The value of a decimal digit.
pub fn digit_val_exec(c: char) -> (d: u32)
    requires
        is_digit(c),
    ensures
        d == digit_val(c),
        d <= 9,
{
    if c == '1' {
        1
    } else if c == '2' {
        2
    } else if c == '3' {
        3
    } else if c == '4' {
        4
    } else if c == '5' {
        5
    } else if c == '6' {
        6
    } else if c == '7' {
        7
    } else if c == '8' {
        8
    } else if c == '9' {
        9
    } else {
        0
    }
}

/// The value of a hexadecimal digit, if `c` is one.
pub fn hex_val_exec(c: char) -> (r: Option<u32>)
    ensures
        match r {
            Some(v) => hex_val(c) == Some(v as int) && v <= 15,
            None => hex_val(c) is None,
        },
{
    if is_digit_exec(c) {
        Some(digit_val_exec(c))
    } else if c == 'a' || c == 'A' {
        Some(10)
    } else if c == 'b' || c == 'B' {
        Some(11)
    } else if c == 'c' || c == 'C' {
        Some(12)
    } else if c == 'd' || c == 'D' {
        Some(13)
    } else if c == 'e' || c == 'E' {
        Some(14)
    } else if c == 'f' || c == 'F' {
        Some(15)
    } else {
        None
    }
}

/// Whether the character at `i` is whitespace.
fn ws_at(s: &Vec<char>, i: usize) -> (b: bool)
    requires
        i < s@.len(),
    ensures
        b == is_ws(s@[i as int]),
{
    let c = s[i];
    c == ' ' || c == '\t' || c == '\n' || c == '\r'
}

/// The first index at or after `i` that holds no whitespace.
#[verifier::loop_isolation(false)]
pub fn ws_end(s: &Vec<char>, i: usize) -> (r: usize)
    requires
        i <= s@.len(),
    ensures
        r as int == skip_ws(s@, i as int),
        i <= r <= s@.len(),
{
    let mut j = i;
    while j < s.len() && ws_at(s, j)
        invariant
            i <= j <= s@.len(),
            skip_ws(s@, i as int) == skip_ws(s@, j as int),
        decreases s@.len() - j,
    {
        j = j + 1;
    }
    j
}

/// The value of the four hexadecimal digits at `i`, if they are there.
pub fn hex4_at(s: &Vec<char>, i: usize) -> (r: Option<u32>)
    requires
        i <= s@.len(),
    ensures
        match r {
            Some(v) => parse_hex4(s@, i as int) == Some(v as int) && v < 0x10000 && i + 4
                <= s@.len(),
            None => parse_hex4(s@, i as int) is None,
        },
{
    if s.len() < 4 || i > s.len() - 4 {
        return None;
    }
    let a = match hex_val_exec(s[i]) {
        Some(a) => a,
        None => {
            return None;
        },
    };
    let b = match hex_val_exec(s[i + 1]) {
        Some(b) => b,
        None => {
            return None;
        },
    };
    let c = match hex_val_exec(s[i + 2]) {
        Some(c) => c,
        None => {
            return None;
        },
    };
    let d = match hex_val_exec(s[i + 3]) {
        Some(d) => d,
        None => {
            return None;
        },
    };
    Some(a * 4096 + b * 256 + c * 16 + d)
}

/// The character a single-letter escape stands for, if the letter is one.
pub fn simple_escape_exec(e: char) -> (r: Option<char>)
    ensures
        r == simple_escape(e),
{
    if e == '"' {
        Some('"')
    } else if e == '\\' {
        Some('\\')
    } else if e == '/' {
        Some('/')
    } else if e == 'b' {
        Some('\u{0008}')
    } else if e == 'f' {
        Some('\u{000C}')
    } else if e == 'n' {
        Some('\n')
    } else if e == 'r' {
        Some('\r')
    } else if e == 't' {
        Some('\t')
    } else {
        None
    }
}

/// Parses a string literal whose opening quote stands at `i`.
#[verifier::loop_isolation(false)]
pub fn parse_string_at(s: &Vec<char>, i: usize) -> (r: Option<(Vec<char>, usize)>)
    requires
        i <= s@.len(),
    ensures
        match r {
            Some(p) => parse_string(s@, i as int) == Some((p.0@, p.1 as int)) && i < p.1
                <= s@.len(),
            None => parse_string(s@, i as int) is None,
        },
{
    if i >= s.len() || s[i] != '"' {
        return None;
    }
    let mut j = i + 1;
    let mut acc: Vec<char> = Vec::new();
    loop
        invariant
            i + 1 <= j <= s@.len(),
            parse_string_body(s@, i as int + 1, Seq::empty()) == parse_string_body(
                s@,
                j as int,
                acc@,
            ),
        decreases s@.len() - j,
    {
        if j >= s.len() {
            return None;
        }
        let c = s[j];
        if c == '"' {
            return Some((acc, j + 1));
        } else if c == '\\' {
            if j + 1 >= s.len() {
                return None;
            }
            let e = s[j + 1];
            if e == 'u' {
                let v = match hex4_at(s, j + 2) {
                    Some(v) => v,
                    None => {
                        return None;
                    },
                };
                if 0xD800 <= v && v < 0xDC00 {
                    if s.len() - j > 7 && s[j + 6] == '\\' && s[j + 7] == 'u' {
                        let lo = match hex4_at(s, j + 8) {
                            Some(lo) => lo,
                            None => {
                                return None;
                            },
                        };
                        if 0xDC00 <= lo && lo < 0xE000 {
                            let cp: u32 = 0x10000 + (v - 0xD800) * 0x400 + (lo - 0xDC00);
                            match char_from_u32(cp) {
                                Some(ch) => {
                                    acc.push(ch);
                                    j = j + 12;
                                },
                                None => {
                                    proof {
                                        assert(false);
                                    }
                                    return None;
                                },
                            }
                        } else {
                            return None;
                        }
                    } else {
                        return None;
                    }
                } else if 0xDC00 <= v && v < 0xE000 {
                    return None;
                } else {
                    match char_from_u32(v) {
                        Some(ch) => {
                            acc.push(ch);
                            j = j + 6;
                        },
                        None => {
                            proof {
                                assert(false);
                            }
                            return None;
                        },
                    }
                }
            } else {
                match simple_escape_exec(e) {
                    Some(d) => {
                        acc.push(d);
                        j = j + 2;
                    },
                    None => {
                        return None;
                    },
                }
            }
        } else if (c as u32) < 0x20 {
            return None;
        } else {
            acc.push(c);
            j = j + 1;
        }
    }
}

/// The folded digit run never denotes less than its accumulator.
proof fn lemma_scan_digits_lower(s: Seq<char>, i: int, acc: int)
    requires
        0 <= acc,
    ensures
        scan_digits(s, i, acc).0 >= acc,
        scan_digits(s, i, acc).1 >= i,
    decreases s.len() - i,
{
    if 0 <= i < s.len() && is_digit(s[i]) {
        lemma_scan_digits_lower(s, i + 1, acc * 10 + digit_val(s[i]));
    }
}

/// Parses an integer number at `i`, failing on values outside `i64`.
#[verifier::loop_isolation(false)]
pub fn parse_number_at(s: &Vec<char>, i: usize) -> (r: Option<(i64, usize)>)
    requires
        i <= s@.len(),
    ensures
        match r {
            Some(p) => parse_number_i64(s@, i as int) == Some((p.0 as int, p.1 as int)) && i < p.1
                <= s@.len(),
            None => parse_number_i64(s@, i as int) is None,
        },
{
    let neg = i < s.len() && s[i] == '-';
    let j0 = if neg {
        i + 1
    } else {
        i
    };
    if j0 >= s.len() {
        return None;
    }
    let c0 = s[j0];
    if !is_digit_exec(c0) {
        return None;
    }
    if c0 == '0' && j0 + 1 < s.len() && is_digit_exec(s[j0 + 1]) {
        return None;
    }
    let bound: u128 = if neg {
        0x8000000000000000
    } else {
        0x7FFFFFFFFFFFFFFF
    };
    let mut mag: u128 = 0;
    let mut j = j0;
    loop
        invariant
            j0 <= j <= s@.len(),
            mag <= bound,
            bound <= 0x8000000000000000,
            neg ==> bound == 0x8000000000000000,
            !neg ==> bound == 0x7FFFFFFFFFFFFFFF,
            scan_digits(s@, j0 as int, 0) == scan_digits(s@, j as int, mag as int),
        decreases s@.len() - j,
    {
        if j < s.len() && is_digit_exec(s[j]) {
            let d = digit_val_exec(s[j]);
            let m2: u128 = mag * 10 + d as u128;
            if m2 > bound {
                proof {
                    lemma_scan_digits_lower(s@, j as int + 1, m2 as int);
                }
                return None;
            }
            mag = m2;
            j = j + 1;
        } else {
            break;
        }
    }
    let v: i64 = if neg {
        if mag == 0x8000000000000000 {
            i64::MIN
        } else {
            -(mag as i64)
        }
    } else {
        mag as i64
    };
    Some((v, j))
}

/// Parses a scalar member value at `i`.
pub fn parse_value_at(s: &Vec<char>, i: usize) -> (r: Option<(JsonScalarE, usize)>)
    requires
        i <= s@.len(),
    ensures
        match r {
            Some(p) => parse_value(s@, i as int) == Some((p.0@, p.1 as int)) && i < p.1
                <= s@.len(),
            None => parse_value(s@, i as int) is None,
        },
{
    if i >= s.len() {
        return None;
    }
    let c = s[i];
    if c == '"' {
        match parse_string_at(s, i) {
            Some(p) => Some((JsonScalarE::Str(p.0), p.1)),
            None => None,
        }
    } else if c == '-' || is_digit_exec(c) {
        match parse_number_at(s, i) {
            Some(p) => Some((JsonScalarE::Int(p.0), p.1)),
            None => None,
        }
    } else if c == 't' {
        if s.len() - i >= 4 && s[i + 1] == 'r' && s[i + 2] == 'u' && s[i + 3] == 'e' {
            Some((JsonScalarE::Bool(true), i + 4))
        } else {
            None
        }
    } else if c == 'f' {
        if s.len() - i >= 5 && s[i + 1] == 'a' && s[i + 2] == 'l' && s[i + 3] == 's' && s[i + 4]
            == 'e' {
            Some((JsonScalarE::Bool(false), i + 5))
        } else {
            None
        }
    } else if c == 'n' {
        if s.len() - i >= 4 && s[i + 1] == 'u' && s[i + 2] == 'l' && s[i + 3] == 'l' {
            Some((JsonScalarE::Null, i + 4))
        } else {
            None
        }
    } else {
        None
    }
}

/// Parses a member list starting at the first key's quote.
pub fn parse_members_at(
    s: &Vec<char>,
    i: usize,
    acc: Vec<(Vec<char>, JsonScalarE)>,
    fuel: usize,
) -> (r: Option<(Vec<(Vec<char>, JsonScalarE)>, usize)>)
    requires
        i <= s@.len(),
    ensures
        match r {
            Some(p) => parse_members(s@, i as int, members_view(acc@), fuel as nat) == Some(
                (members_view(p.0@), p.1 as int),
            ) && p.1 <= s@.len(),
            None => parse_members(s@, i as int, members_view(acc@), fuel as nat) is None,
        },
    decreases fuel,
{
    if fuel == 0 {
        return None;
    }
    let (key, j) = match parse_string_at(s, i) {
        Some(p) => p,
        None => {
            return None;
        },
    };
    let j2 = ws_end(s, j);
    if !(j2 < s.len() && s[j2] == ':') {
        return None;
    }
    let j3 = ws_end(s, j2 + 1);
    let (v, k) = match parse_value_at(s, j3) {
        Some(p) => p,
        None => {
            return None;
        },
    };
    let k2 = ws_end(s, k);
    let ghost old_acc = acc@;
    let mut acc2 = acc;
    acc2.push((key, v));
    proof {
        assert(members_view(acc2@) =~= members_view(old_acc).push(
            (acc2@.last().0@, acc2@.last().1@),
        ));
    }
    if k2 < s.len() && s[k2] == ',' {
        let k3 = ws_end(s, k2 + 1);
        parse_members_at(s, k3, acc2, fuel - 1)
    } else {
        Some((acc2, k2))
    }
}

/// Parses a complete body: one object of scalar members.
pub fn parse_object_chars(s: &Vec<char>) -> (r: Option<Vec<(Vec<char>, JsonScalarE)>>)
    ensures
        match r {
            Some(ms) => parse_object(s@) == Some(members_view(ms@)),
            None => parse_object(s@) is None,
        },
{
    let i = ws_end(s, 0);
    if !(i < s.len() && s[i] == '{') {
        return None;
    }
    let j = ws_end(s, i + 1);
    if j < s.len() && s[j] == '}' {
        if ws_end(s, j + 1) == s.len() {
            let ms: Vec<(Vec<char>, JsonScalarE)> = Vec::new();
            proof {
                assert(members_view(ms@) =~= Seq::<(Seq<char>, ScalarV)>::empty());
            }
            return Some(ms);
        } else {
            return None;
        }
    }
    let empty_acc: Vec<(Vec<char>, JsonScalarE)> = Vec::new();
    proof {
        assert(members_view(empty_acc@) =~= Seq::<(Seq<char>, ScalarV)>::empty());
    }
    let (ms, k) = match parse_members_at(s, j, empty_acc, s.len()) {
        Some(p) => p,
        None => {
            return None;
        },
    };
    if k < s.len() && s[k] == '}' {
        if ws_end(s, k + 1) == s.len() {
            Some(ms)
        } else {
            None
        }
    } else {
        None
    }
}

/// Whether the characters of `v` spell `t`.
#[verifier::loop_isolation(false)]
pub fn chars_eq_str(v: &Vec<char>, t: &str) -> (b: bool)
    ensures
        b == (v@ == t@),
{
    let n = t.unicode_len();
    if v.len() != n {
        proof {
            assert(v@.len() != t@.len());
        }
        return false;
    }
    let mut i: usize = 0;
    while i < n
        invariant
            i <= n,
            n == t@.len(),
            v@.len() == n,
            forall|k: int| 0 <= k < i ==> v@[k] == t@[k],
        decreases n - i,
    {
        if v[i] != t.get_char(i) {
            return false;
        }
        i = i + 1;
    }
    proof {
        assert(v@ =~= t@);
    }
    true
}

/// The index of the first member carrying `key`, if any.
#[verifier::loop_isolation(false)]
pub fn find_key(ms: &Vec<(Vec<char>, JsonScalarE)>, key: &str) -> (r: Option<usize>)
    ensures
        match r {
            Some(idx) => idx < ms@.len() && ms@[idx as int].0@ == key@ && lookup(
                members_view(ms@),
                key@,
            ) == Some(ms@[idx as int].1@),
            None => lookup(members_view(ms@), key@) is None,
        },
{
    let n = ms.len();
    let mut i: usize = 0;
    while i < n
        invariant
            i <= n,
            n == ms@.len(),
            lookup(members_view(ms@), key@) == lookup_from(members_view(ms@), key@, i as int),
        decreases n - i,
    {
        if chars_eq_str(&ms[i].0, key) {
            return Some(i);
        }
        i = i + 1;
    }
    None
}

/// How many members carry `key`.
#[verifier::loop_isolation(false)]
pub fn count_key(ms: &Vec<(Vec<char>, JsonScalarE)>, key: &str) -> (r: usize)
    ensures
        r as nat == key_count(members_view(ms@), key@),
{
    let n = ms.len();
    let mut i: usize = 0;
    let mut count: usize = 0;
    while i < n
        invariant
            i <= n,
            count <= i,
            n == ms@.len(),
            key_count(members_view(ms@), key@) == count + key_count_from(
                members_view(ms@),
                key@,
                i as int,
            ),
        decreases n - i,
    {
        if chars_eq_str(&ms[i].0, key) {
            count = count + 1;
        }
        i = i + 1;
    }
    count
}

} // verus!
