//! The wire protocol of the debt service: the JSON bodies of the check and
//! pay requests, the meaning of their responses, and the decisions the
//! workflow takes on each response.

use vstd::prelude::*;
use crate::decimal::{amount_chars, push_amount};
use crate::errors::AvtodorError;
use crate::json::{
    escape_char, hex_digit_char, json_escaped, key_count, key_count_from, lookup, lookup_from,
    lemma_object_round_trip, member_text, members_text, object_text, parse_object, str_members,
    ScalarV,
};
use crate::model::{PaymentDetails, PaymentLink, PendingDebt, SearchParams};
use crate::parser::{count_key, find_key, members_view, parse_object_chars, JsonScalarE};
use crate::strconv::{chars_to_string, str_to_chars};

verus! {

/// Whether an HTTP status code counts as success.
pub open spec fn is_success_status(status: u16) -> bool {
    200 <= status < 300
}

/// Writing a character to the end of a string literal body escapes just
/// that character.
pub proof fn lemma_json_escaped_push(t: Seq<char>, c: char)
    ensures
        json_escaped(t.push(c)) == json_escaped(t) + escape_char(c),
    decreases t.len(),
{
    if t.len() == 0 {
        assert(t.push(c)[0] == c);
        assert(t.push(c).drop_first() =~= Seq::<char>::empty());
        assert(json_escaped(Seq::<char>::empty()) =~= Seq::<char>::empty());
        assert(json_escaped(t.push(c)) =~= escape_char(c) + json_escaped(
            t.push(c).drop_first(),
        ));
        assert(json_escaped(t) =~= Seq::<char>::empty());
        assert(json_escaped(t.push(c)) =~= json_escaped(t) + escape_char(c));
    } else {
        assert(t.push(c)[0] == t[0]);
        assert(t.push(c).drop_first() =~= t.drop_first().push(c));
        lemma_json_escaped_push(t.drop_first(), c);
        assert(json_escaped(t.push(c)) =~= json_escaped(t) + escape_char(c));
    }
}

/// The lowercase hexadecimal digit for a value below sixteen.
fn hex_digit_char_of(d: u32) -> (c: char)
    requires
        d < 16,
    ensures
        c == hex_digit_char(d as int),
{
    if d < 10 {
        crate::decimal::digit_char_of(d as u64)
    } else if d == 10 {
        'a'
    } else if d == 11 {
        'b'
    } else if d == 12 {
        'c'
    } else if d == 13 {
        'd'
    } else if d == 14 {
        'e'
    } else {
        'f'
    }
}

/// Appends the escaped form of one character.
fn push_escaped_char(out: &mut Vec<char>, c: char)
    ensures
        final(out)@ == old(out)@ + escape_char(c),
{
    if c == '"' {
        out.push('\\');
        out.push('"');
    } else if c == '\\' {
        out.push('\\');
        out.push('\\');
    } else if c == '\u{0008}' {
        out.push('\\');
        out.push('b');
    } else if c == '\u{000C}' {
        out.push('\\');
        out.push('f');
    } else if c == '\n' {
        out.push('\\');
        out.push('n');
    } else if c == '\r' {
        out.push('\\');
        out.push('r');
    } else if c == '\t' {
        out.push('\\');
        out.push('t');
    } else if (c as u32) < 0x20 {
        out.push('\\');
        out.push('u');
        out.push('0');
        out.push('0');
        out.push(hex_digit_char_of((c as u32) / 16));
        out.push(hex_digit_char_of((c as u32) % 16));
    } else {
        out.push(c);
    }
    proof {
        assert(out@ =~= old(out)@ + escape_char(c));
    }
}

/// Appends the escaped form of every character of `s`.
#[verifier::loop_isolation(false)]
fn push_escaped(out: &mut Vec<char>, s: &str)
    ensures
        final(out)@ == old(out)@ + json_escaped(s@),
{
    let v = str_to_chars(s);
    let n = v.len();
    let mut i: usize = 0;
    while i < n
        invariant
            i <= n,
            n == v@.len(),
            v@ == s@,
            out@ == old(out)@ + json_escaped(s@.take(i as int)),
        decreases n - i,
    {
        push_escaped_char(out, v[i]);
        proof {
            lemma_json_escaped_push(s@.take(i as int), s@[i as int]);
            assert(s@.take(i as int).push(s@[i as int]) =~= s@.take(i as int + 1));
            assert(out@ =~= old(out)@ + json_escaped(s@.take(i as int + 1)));
        }
        i = i + 1;
    }
    proof {
        assert(s@.take(n as int) =~= s@);
    }
}

/// Appends every character of `t`.
#[verifier::loop_isolation(false)]
fn push_chars(out: &mut Vec<char>, t: &Vec<char>)
    ensures
        final(out)@ == old(out)@ + t@,
{
    let n = t.len();
    let mut i: usize = 0;
    while i < n
        invariant
            i <= n,
            n == t@.len(),
            out@ == old(out)@ + t@.take(i as int),
        decreases n - i,
    {
        out.push(t[i]);
        proof {
            assert(t@.take(i as int).push(t@[i as int]) =~= t@.take(i as int + 1));
            assert(out@ =~= old(out)@ + t@.take(i as int + 1));
        }
        i = i + 1;
    }
    proof {
        assert(t@.take(n as int) =~= t@);
    }
}

/// Appends every character of `t`.
fn push_literal(out: &mut Vec<char>, t: &str)
    ensures
        final(out)@ == old(out)@ + t@,
{
    let v = str_to_chars(t);
    push_chars(out, &v);
}

/// The members of the check request body: the search parameters as string
/// fields, in declaration order.
pub open spec fn spec_check_fields(p: SearchParams) -> Seq<(Seq<char>, Seq<char>)> {
    seq![
        ("number"@, p.number@),
        ("country"@, p.country@),
        ("phone"@, p.phone@),
        ("email"@, p.email@),
    ]
}

/// The body of the check request: the search parameters as one flat JSON
/// object of string members, without whitespace.
pub open spec fn spec_check_body(p: SearchParams) -> Seq<char> {
    object_text(spec_check_fields(p))
}

/// Appends one `"key":"value"` member, both parts escaped.
fn push_member(out: &mut Vec<char>, key: &str, val: &str)
    ensures
        final(out)@ == old(out)@ + member_text(key@, val@),
{
    out.push('"');
    push_escaped(out, key);
    out.push('"');
    out.push(':');
    out.push('"');
    push_escaped(out, val);
    out.push('"');
    proof {
        assert(out@ =~= old(out)@ + member_text(key@, val@));
    }
}

/// Builds the JSON body of the check request for these search parameters.
pub fn check_request_body(p: &SearchParams) -> (r: String)
    ensures
        r@ == spec_check_body(*p),
{
    let mut out: Vec<char> = Vec::new();
    out.push('{');
    push_member(&mut out, "number", p.number.as_str());
    out.push(',');
    push_member(&mut out, "country", p.country.as_str());
    out.push(',');
    push_member(&mut out, "phone", p.phone.as_str());
    out.push(',');
    push_member(&mut out, "email", p.email.as_str());
    out.push('}');
    proof {
        let ms = spec_check_fields(*p);
        let m1 = ms.drop_first();
        let m2 = m1.drop_first();
        let m3 = m2.drop_first();
        assert(m3.len() == 1 && m3[0] == ("email"@, p.email@));
        assert(m2.len() == 2 && m2[0] == ("phone"@, p.phone@));
        assert(m1.len() == 3 && m1[0] == ("country"@, p.country@));
        assert(members_text(m3) == member_text("email"@, p.email@));
        assert(members_text(m2) == member_text("phone"@, p.phone@) + seq![','] + members_text(
            m3,
        ));
        assert(members_text(m1) == member_text("country"@, p.country@) + seq![','] + members_text(
            m2,
        ));
        assert(members_text(ms) == member_text("number"@, p.number@) + seq![','] + members_text(
            m1,
        ));
        assert(out@ =~= object_text(ms));
    }
    chars_to_string(&out)
}

/// The check request body parses, under the library's own grammar, to
/// exactly the four search-parameter members, in order, with their values
/// unchanged: the request writer and the response parser agree on the
/// object format.
pub proof fn lemma_check_body_round_trip(p: SearchParams)
    ensures
        parse_object(spec_check_body(p)) == Some(
            seq![
                ("number"@, ScalarV::Str(p.number@)),
                ("country"@, ScalarV::Str(p.country@)),
                ("phone"@, ScalarV::Str(p.phone@)),
                ("email"@, ScalarV::Str(p.email@)),
            ],
        ),
{
    lemma_object_round_trip(spec_check_fields(p));
    assert(str_members(spec_check_fields(p)) =~= seq![
        ("number"@, ScalarV::Str(p.number@)),
        ("country"@, ScalarV::Str(p.country@)),
        ("phone"@, ScalarV::Str(p.phone@)),
        ("email"@, ScalarV::Str(p.email@)),
    ]);
}

/// The body of the pay request: the payment-type tag and the amount, the
/// amount written as the exact decimal for `amount_cents / 100` units.
pub open spec fn spec_pay_body(d: PaymentDetails) -> Seq<char> {
    "{\"paymentType\":\""@ + json_escaped(d.payment_type@) + "\",\"amount\":"@ + amount_chars(
        d.amount_cents as int,
    ) + "}"@
}

/// Builds the JSON body of the pay request for these payment details.
pub fn pay_request_body(d: &PaymentDetails) -> (r: String)
    requires
        0 <= d.amount_cents,
    ensures
        r@ == spec_pay_body(*d),
{
    let mut out: Vec<char> = Vec::new();
    push_literal(&mut out, "{\"paymentType\":\"");
    push_escaped(&mut out, d.payment_type.as_str());
    push_literal(&mut out, "\",\"amount\":");
    push_amount(&mut out, d.amount_cents);
    push_literal(&mut out, "}");
    proof {
        assert(out@ =~= spec_pay_body(*d));
    }
    chars_to_string(&out)
}

/// The debt total a check response body reports: present exactly when the
/// body is one flat object of scalars holding a single `total` member whose
/// value is an integer.
pub open spec fn spec_check_total(body: Seq<char>) -> Option<int> {
    match parse_object(body) {
        None => None,
        Some(ms) => if key_count(ms, "total"@) == 1 {
            match lookup(ms, "total"@) {
                Some(ScalarV::Int(v)) => Some(v),
                _ => None,
            }
        } else {
            None
        },
    }
}

/// What a pay response body reports, at the specification level.
pub ghost struct PayFieldsV {
    pub href: Option<Seq<char>>,
    pub result: Seq<char>,
}

/// The fields a pay response body reports: present exactly when the body is
/// one flat object of scalars with a single string `result` member and at
/// most one `href` member that is a string or `null`. An absent or `null`
/// `href` reads as no link.
pub open spec fn spec_pay_fields(body: Seq<char>) -> Option<PayFieldsV> {
    match parse_object(body) {
        None => None,
        Some(ms) => if key_count(ms, "result"@) == 1 && key_count(ms, "href"@) <= 1 {
            match lookup(ms, "result"@) {
                Some(ScalarV::Str(res)) => match lookup(ms, "href"@) {
                    None => Some(PayFieldsV { href: None, result: res }),
                    Some(ScalarV::Str(h)) => Some(PayFieldsV { href: Some(h), result: res }),
                    Some(ScalarV::Null) => Some(PayFieldsV { href: None, result: res }),
                    Some(_) => None,
                },
                _ => None,
            }
        } else {
            None
        },
    }
}

/// A key that no lookup finds occurs in no member.
proof fn lemma_lookup_none_count_zero(ms: Seq<(Seq<char>, ScalarV)>, key: Seq<char>, i: int)
    ensures
        lookup_from(ms, key, i) is None ==> key_count_from(ms, key, i) == 0,
    decreases ms.len() - i,
{
    if 0 <= i < ms.len() {
        lemma_lookup_none_count_zero(ms, key, i + 1);
    }
}

/// Reads a check response body as a pending debt.
pub fn parse_pending_debt(body: &str) -> (r: Option<PendingDebt>)
    ensures
        match r {
            Some(d) => spec_check_total(body@) == Some(d.total as int),
            None => spec_check_total(body@) is None,
        },
{
    let chars = str_to_chars(body);
    let ms = match parse_object_chars(&chars) {
        Some(ms) => ms,
        None => {
            return None;
        },
    };
    let c = count_key(&ms, "total");
    if c != 1 {
        return None;
    }
    match find_key(&ms, "total") {
        Some(idx) => match &ms[idx].1 {
            JsonScalarE::Int(v) => Some(PendingDebt { total: *v }),
            _ => None,
        },
        None => {
            proof {
                lemma_lookup_none_count_zero(members_view(ms@), "total"@, 0);
                assert(false);
            }
            None
        },
    }
}

/// Reads a pay response body as a payment-link reply.
pub fn parse_payment_link(body: &str) -> (r: Option<PaymentLink>)
    ensures
        match r {
            Some(pl) => spec_pay_fields(body@) == Some(
                PayFieldsV {
                    href: match pl.href {
                        Some(h) => Some(h@),
                        None => None,
                    },
                    result: pl.result@,
                },
            ),
            None => spec_pay_fields(body@) is None,
        },
{
    let chars = str_to_chars(body);
    let ms = match parse_object_chars(&chars) {
        Some(ms) => ms,
        None => {
            return None;
        },
    };
    let rc = count_key(&ms, "result");
    let hc = count_key(&ms, "href");
    if rc != 1 || hc > 1 {
        return None;
    }
    let result = match find_key(&ms, "result") {
        Some(idx) => match &ms[idx].1 {
            JsonScalarE::Str(v) => chars_to_string(v),
            _ => {
                return None;
            },
        },
        None => {
            proof {
                lemma_lookup_none_count_zero(members_view(ms@), "result"@, 0);
                assert(false);
            }
            return None;
        },
    };
    let href = match find_key(&ms, "href") {
        Some(idx) => match &ms[idx].1 {
            JsonScalarE::Str(v) => Some(chars_to_string(v)),
            JsonScalarE::Null => None,
            _ => {
                return None;
            },
        },
        None => None,
    };
    Some(PaymentLink { href, result })
}

/// Decides the outcome of the check step from the HTTP status and body of
/// the check response: a non-success status fails with the status and the
/// body text; a success status yields the reported debt, or a decode
/// failure when the body does not report one.
pub fn debt_from_check_response(status: u16, body: String) -> (r: Result<
    PendingDebt,
    AvtodorError,
>)
    ensures
        !is_success_status(status) ==> (r matches Err(
            AvtodorError::DebtCheckError { status: st, body: b },
        ) && st == status && b@ == body@),
        is_success_status(status) ==> match spec_check_total(body@) {
            Some(t) => r matches Ok(d) && d.total == t,
            None => r matches Err(e) && e is DecodeError,
        },
{
    if !(200 <= status && status < 300) {
        return Err(AvtodorError::DebtCheckError { status, body });
    }
    match parse_pending_debt(body.as_str()) {
        Some(d) => Ok(d),
        None => Err(AvtodorError::DecodeError),
    }
}

/// Decides the outcome of the pay step from the HTTP status and body of
/// the pay response: a non-success status fails with the status; a success
/// status with an undecodable body fails as a decode error; a reply whose
/// result is `error` is a rejection, even when a link is present; a reply
/// without a link fails carrying the raw result; otherwise the link is
/// returned exactly as sent.
pub fn link_from_pay_response(status: u16, body: &str) -> (r: Result<String, AvtodorError>)
    ensures
        !is_success_status(status) ==> (r matches Err(AvtodorError::PaymentLinkError { status: st })
            && st == status),
        is_success_status(status) ==> match spec_pay_fields(body@) {
            None => r matches Err(e) && e is DecodeError,
            Some(pf) => if pf.result == "error"@ {
                r matches Err(e) && e is PaymentLinkRejected
            } else {
                match pf.href {
                    Some(h) => r matches Ok(link) && link@ == h,
                    None => r matches Err(AvtodorError::MissingLinkError { result: res }) && res@
                        == pf.result,
                }
            },
        },
{
    if !(200 <= status && status < 300) {
        return Err(AvtodorError::PaymentLinkError { status });
    }
    let pl = match parse_payment_link(body) {
        Some(pl) => pl,
        None => {
            return Err(AvtodorError::DecodeError);
        },
    };
    let error_tag = String::from_str("error");
    if pl.result == error_tag {
        return Err(AvtodorError::PaymentLinkRejected);
    }
    match pl.href {
        Some(link) => Ok(link),
        None => Err(AvtodorError::MissingLinkError { result: pl.result }),
    }
}

/// Whether the driver should go on to request a payment link: only a
/// strictly positive debt is worth paying.
pub fn should_request_payment(debt: &PendingDebt) -> (b: bool)
    ensures
        b == (debt.total > 0),
{
    debt.total > 0
}

} // verus!
