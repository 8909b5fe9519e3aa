//! The wire grammar: one serialized document per frame. Serialization
//! and parsing are exact inverses on well-formed values, and field
//! extraction from event parameters is specified character by
//! character.
//!
//! The grammar covers the plain-text subset of the wire: method names,
//! session ids and error messages without escape sequences (no quote,
//! no backslash inside a string). A frame whose string fields use
//! escapes does not parse and is dropped by the caller, which the
//! protocol tolerates for inbound frames; the serializers only emit
//! plain text.

use vstd::prelude::*;
use crate::types::{CallId, CdpEvent, Error, Message, MethodCall, Response};
use crate::strutil::{
    dec_digits, digits_end, digits_value, find_char_from, find_digits_end, find_from, find_sub,
    find_sub_from, lemma_dec_digits_len, lemma_digits_end_located, lemma_digits_end_props,
    lemma_digits_value_of_dec_digits, lemma_find_from_located, lemma_find_from_props,
    lemma_find_sub_props, parse_digits_range, str_match_at, substring, usize_to_string,
};
use vstd::string::StrSliceExecFns;
use vstd::string::StringExecFns;

verus! {

/// The characters announcing a string-valued field: `"key":"`.
pub open spec fn str_field_pat(key: Seq<char>) -> Seq<char> {
    seq!['"'] + key + seq!['"', ':', '"']
}

/// The string value of the first `"key":"..."` occurrence in `s`, up to
/// the next quote; nothing when the key is absent or unterminated.
pub open spec fn json_str_field(s: Seq<char>, key: Seq<char>) -> Option<Seq<char>> {
    let p = str_field_pat(key);
    let i = find_sub(s, p, 0);
    if i == -1 {
        None
    } else {
        let start = i + p.len() as int;
        let e = find_from(s, start, '"');
        if e == s.len() {
            None
        } else {
            Some(s.subrange(start, e))
        }
    }
}

/// The characters announcing any field: `"key":`.
pub open spec fn num_field_pat(key: Seq<char>) -> Seq<char> {
    seq!['"'] + key + seq!['"', ':']
}

/// The numeric value of the first `"key":` occurrence in `s` that is
/// followed by digits.
pub open spec fn json_num_field(s: Seq<char>, key: Seq<char>) -> Option<nat> {
    let p = num_field_pat(key);
    let i = find_sub(s, p, 0);
    if i == -1 {
        None
    } else {
        let start = i + p.len() as int;
        let e = digits_end(s, start);
        if e == start {
            None
        } else {
            Some(digits_value(s, start, e))
        }
    }
}

/// Build the `"key":"` pattern for a key.
fn build_str_pat(key: &str) -> (r: String)
    ensures
        r@ == str_field_pat(key@),
{
    let mut p = "\"".to_owned();
    p.append(key);
    p.append("\":\"");
    proof {
        reveal_strlit("\"");
        reveal_strlit("\":\"");
        assert(p@ =~= str_field_pat(key@));
    }
    p
}

/// Build the `"key":` pattern for a key.
fn build_num_pat(key: &str) -> (r: String)
    ensures
        r@ == num_field_pat(key@),
{
    let mut p = "\"".to_owned();
    p.append(key);
    p.append("\":");
    proof {
        reveal_strlit("\"");
        reveal_strlit("\":");
        assert(p@ =~= num_field_pat(key@));
    }
    p
}

/// Extract the string value of `key` from a serialized object.
pub fn get_str_field(s: &str, key: &str) -> (r: Option<String>)
    ensures
        match r {
            Some(v) => json_str_field(s@, key@) == Some(v@),
            None => json_str_field(s@, key@) is None,
        },
{
    let pat = build_str_pat(key);
    match find_sub_from(s, pat.as_str(), 0) {
        None => None,
        Some(i) => {
            proof {
                lemma_find_sub_props(s@, pat@, 0);
            }
            let slen = s.unicode_len();
            let start = i + pat.as_str().unicode_len();
            let e = find_char_from(s, start, '"');
            proof {
                lemma_find_from_props(s@, start as int, '"');
            }
            if e == slen {
                None
            } else {
                Some(substring(s, start, e))
            }
        },
    }
}

/// Extract the numeric value of `key` from a serialized object;
/// nothing when the key is absent, not numeric, or out of range.
pub fn get_num_field(s: &str, key: &str) -> (r: Option<u64>)
    ensures
        match r {
            Some(v) => json_num_field(s@, key@) == Some(v as nat),
            None => json_num_field(s@, key@) is None || (json_num_field(s@, key@) matches Some(
                n,
            ) && n > u64::MAX),
        },
{
    let pat = build_num_pat(key);
    match find_sub_from(s, pat.as_str(), 0) {
        None => None,
        Some(i) => {
            proof {
                lemma_find_sub_props(s@, pat@, 0);
            }
            let slen = s.unicode_len();
            let start = i + pat.as_str().unicode_len();
            let e = find_digits_end(s, start);
            proof {
                lemma_digits_end_props(s@, start as int);
            }
            if e == start {
                None
            } else {
                parse_digits_range(s, start, e)
            }
        },
    }
}

/// Text that can stand inside a serialized string without escaping:
/// no quote and no backslash. Method names, session ids and error
/// messages on the wire are of this shape.
pub open spec fn plain_text(s: Seq<char>) -> bool {
    forall|k: int| 0 <= k < s.len() ==> s[k] != '"' && s[k] != '\\'
}

/// Does `p` stand in `s` at position `i`?
pub open spec fn begins(s: Seq<char>, i: int, p: Seq<char>) -> bool {
    0 <= i && i + p.len() <= s.len() && s.subrange(i, i + p.len() as int) == p
}

/// The wire form of a method call: the id, the method, an optional
/// session envelope, and the raw parameter text, in that order.
pub open spec fn ser_method_call(
    id: nat,
    method: Seq<char>,
    session: Option<Seq<char>>,
    params: Seq<char>,
) -> Seq<char> {
    "{\"id\":"@ + dec_digits(id) + ",\"method\":\""@ + method + (match session {
        Some(sess) => "\",\"sessionId\":\""@ + sess + "\",\"params\":"@,
        None => "\",\"params\":"@,
    }) + params + "}"@
}

/// Read a serialized method call back: the exact inverse of
/// `ser_method_call` on plain (escape-free) method and session text.
pub open spec fn parse_method_call_s(s: Seq<char>) -> Option<
    (nat, Seq<char>, Option<Seq<char>>, Seq<char>),
> {
    if !begins(s, 0, "{\"id\":"@) {
        None
    } else {
        let i = "{\"id\":"@.len() as int;
        let j = digits_end(s, i);
        if j == i {
            None
        } else {
            let id = digits_value(s, i, j);
            if !begins(s, j, ",\"method\":\""@) {
                None
            } else {
                let k = j + ",\"method\":\""@.len();
                let q = find_from(s, k, '"');
                if q == s.len() {
                    None
                } else {
                    let method = s.subrange(k, q);
                    if begins(s, q, "\",\"sessionId\":\""@) {
                        let b = q + "\",\"sessionId\":\""@.len();
                        let q2 = find_from(s, b, '"');
                        if q2 == s.len() {
                            None
                        } else {
                            let sess = s.subrange(b, q2);
                            if !begins(s, q2, "\",\"params\":"@) {
                                None
                            } else {
                                let a = q2 + "\",\"params\":"@.len();
                                if a < s.len() && s[s.len() - 1] == '}' {
                                    Some((id, method, Some(sess), s.subrange(a, s.len() - 1)))
                                } else {
                                    None
                                }
                            }
                        }
                    } else if begins(s, q, "\",\"params\":"@) {
                        let a = q + "\",\"params\":"@.len();
                        if a < s.len() && s[s.len() - 1] == '}' {
                            Some((id, method, None, s.subrange(a, s.len() - 1)))
                        } else {
                            None
                        }
                    } else {
                        None
                    }
                }
            }
        }
    }
}

/// Law: serializing a method call and reading it back yields the same
/// id, method, session and parameters.
pub proof fn lemma_method_call_round_trip(
    id: nat,
    method: Seq<char>,
    session: Option<Seq<char>>,
    params: Seq<char>,
)
    requires
        plain_text(method),
        match session {
            Some(sess) => plain_text(sess),
            None => true,
        },
        params.len() > 0,
    ensures
        parse_method_call_s(ser_method_call(id, method, session, params)) == Some(
            (id, method, session, params),
        ),
{
    reveal_strlit("{\"id\":");
    reveal_strlit(",\"method\":\"");
    reveal_strlit("\",\"sessionId\":\"");
    reveal_strlit("\",\"params\":");
    reveal_strlit("}");
    let s = ser_method_call(id, method, session, params);
    let p0 = "{\"id\":"@;
    let p1 = ",\"method\":\""@;
    let ps = "\",\"sessionId\":\""@;
    let pp = "\",\"params\":"@;
    lemma_dec_digits_len(id);
    let dl = dec_digits(id).len() as int;
    let i = p0.len() as int;
    let j = i + dl;
    assert(begins(s, 0, p0)) by {
        assert(s.subrange(0, p0.len() as int) =~= p0);
    }
    assert(s.subrange(i, j) =~= dec_digits(id));
    lemma_digits_value_of_dec_digits(s, i, id);
    assert(s[j] == ',');
    lemma_digits_end_located(s, i, j);
    assert(digits_end(s, i) == j);
    assert(j != i);
    assert(begins(s, j, p1)) by {
        assert(s.subrange(j, j + p1.len() as int) =~= p1);
    }
    let k = j + p1.len() as int;
    let q = k + method.len() as int;
    assert(s[q] == '"');
    assert(forall|t: int| k <= t < q ==> s[t] == method[t - k] && s[t] != '"');
    lemma_find_from_located(s, k, '"', q);
    assert(s.subrange(k, q) =~= method);
    match session {
        Some(sess) => {
            assert(begins(s, q, ps)) by {
                assert(s.subrange(q, q + ps.len() as int) =~= ps);
            }
            assert(!begins(s, q, pp)) by {
                assert(s[q + 3] == 's');
                assert(pp[3] == 'p');
                assert(s.subrange(q, q + pp.len() as int)[3] == s[q + 3]);
            }
            let b = q + ps.len() as int;
            let q2 = b + sess.len() as int;
            assert(s[q2] == '"');
            assert(forall|t: int| b <= t < q2 ==> s[t] == sess[t - b] && s[t] != '"');
            lemma_find_from_located(s, b, '"', q2);
            assert(s.subrange(b, q2) =~= sess);
            assert(begins(s, q2, pp)) by {
                assert(s.subrange(q2, q2 + pp.len() as int) =~= pp);
            }
            let a = q2 + pp.len() as int;
            assert(s[s.len() - 1] == '}');
            assert(a < s.len());
            assert(s.subrange(a, s.len() - 1) =~= params);
        },
        None => {
            assert(!begins(s, q, ps)) by {
                if q + ps.len() <= s.len() {
                    assert(s[q + 3] == 'p');
                    assert(ps[3] == 's');
                    assert(s.subrange(q, q + ps.len() as int)[3] == s[q + 3]);
                }
            }
            assert(begins(s, q, pp)) by {
                assert(s.subrange(q, q + pp.len() as int) =~= pp);
            }
            let a = q + pp.len() as int;
            assert(s[s.len() - 1] == '}');
            assert(a < s.len());
            assert(s.subrange(a, s.len() - 1) =~= params);
        },
    }
}

/// Frame a method call for the wire, with its session envelope.
pub fn serialize_method_call(mc: &MethodCall, session: Option<&str>) -> (r: String)
    ensures
        r@ == ser_method_call(
            mc.id.0 as nat,
            mc.method@,
            match session {
                Some(sess) => Some(sess@),
                None => None,
            },
            mc.params@,
        ),
{
    let mut out = "{\"id\":".to_owned();
    out.append(usize_to_string(mc.id.0).as_str());
    out.append(",\"method\":\"");
    out.append(mc.method.as_str());
    match session {
        Some(sess) => {
            out.append("\",\"sessionId\":\"");
            out.append(sess);
            out.append("\",\"params\":");
        },
        None => {
            out.append("\",\"params\":");
        },
    }
    out.append(mc.params.as_str());
    out.append("}");
    proof {
        assert(out@ =~= ser_method_call(
            mc.id.0 as nat,
            mc.method@,
            match session {
                Some(sess) => Some(sess@),
                None => None,
            },
            mc.params@,
        ));
    }
    out
}

/// Read a framed method call back into its parts.
pub fn parse_method_call(s: &str) -> (r: Option<(MethodCall, Option<String>)>)
    ensures
        match r {
            Some((mc, sess)) => parse_method_call_s(s@) matches Some(parts) && mc.id.0 as nat
                == parts.0 && mc.method@ == parts.1 && mc.params@ == parts.3 && (match (
                sess,
                parts.2,
            ) {
                (Some(sv), Some(pv)) => sv@ == pv,
                (None, None) => true,
                _ => false,
            }),
            None => parse_method_call_s(s@) is None || (parse_method_call_s(s@) matches Some(
                parts,
            ) && parts.0 > usize::MAX),
        },
{
    let slen = s.unicode_len();
    if !str_match_at(s, "{\"id\":", 0) {
        return None;
    }
    let i = "{\"id\":".unicode_len();
    let j = find_digits_end(s, i);
    if j == i {
        return None;
    }
    proof {
        lemma_digits_end_props(s@, i as int);
    }
    let id_v = match parse_digits_range(s, i, j) {
        Some(v) => v,
        None => {
            return None;
        },
    };
    if id_v > usize::MAX as u64 {
        return None;
    }
    if !str_match_at(s, ",\"method\":\"", j) {
        return None;
    }
    let k = j + ",\"method\":\"".unicode_len();
    let q = find_char_from(s, k, '"');
    if q == slen {
        proof {
            lemma_find_from_props(s@, k as int, '"');
        }
        return None;
    }
    proof {
        lemma_find_from_props(s@, k as int, '"');
    }
    let method = substring(s, k, q);
    if str_match_at(s, "\",\"sessionId\":\"", q) {
        let b = q + "\",\"sessionId\":\"".unicode_len();
        let q2 = find_char_from(s, b, '"');
        proof {
            lemma_find_from_props(s@, b as int, '"');
        }
        if q2 == slen {
            return None;
        }
        let sess = substring(s, b, q2);
        if !str_match_at(s, "\",\"params\":", q2) {
            return None;
        }
        let a = q2 + "\",\"params\":".unicode_len();
        if a < slen && s.get_char(slen - 1) == '}' {
            let params = substring(s, a, slen - 1);
            Some(
                (
                    MethodCall { id: CallId::new(id_v as usize), method, params },
                    Some(sess),
                ),
            )
        } else {
            None
        }
    } else if str_match_at(s, "\",\"params\":", q) {
        let a = q + "\",\"params\":".unicode_len();
        if a < slen && s.get_char(slen - 1) == '}' {
            let params = substring(s, a, slen - 1);
            Some((MethodCall { id: CallId::new(id_v as usize), method, params }, None))
        } else {
            None
        }
    } else {
        None
    }
}

/// The wire form of a response carrying a result payload.
pub open spec fn ser_response_ok(id: nat, result: Seq<char>) -> Seq<char> {
    "{\"id\":"@ + dec_digits(id) + ",\"result\":"@ + result + "}"@
}

/// The wire form of a response carrying the browser's error.
pub open spec fn ser_response_err(id: nat, code: nat, message: Seq<char>) -> Seq<char> {
    "{\"id\":"@ + dec_digits(id) + ",\"error\":{\"code\":"@ + dec_digits(code)
        + ",\"message\":\""@ + message + "\"}}"@
}

/// Read a serialized response back: the id, then either the result
/// payload or the error's code and message. The message is read up to
/// the next quote: escape sequences are outside the covered grammar.
pub open spec fn parse_response_s(s: Seq<char>) -> Option<
    (nat, Option<Seq<char>>, Option<(nat, Seq<char>)>),
> {
    if !begins(s, 0, "{\"id\":"@) {
        None
    } else {
        let i = "{\"id\":"@.len() as int;
        let j = digits_end(s, i);
        if j == i {
            None
        } else {
            let id = digits_value(s, i, j);
            if begins(s, j, ",\"result\":"@) {
                let a = j + ",\"result\":"@.len();
                if a < s.len() && s[s.len() - 1] == '}' {
                    Some((id, Some(s.subrange(a, s.len() - 1)), None))
                } else {
                    None
                }
            } else if begins(s, j, ",\"error\":{\"code\":"@) {
                let a2 = j + ",\"error\":{\"code\":"@.len();
                let j2 = digits_end(s, a2);
                if j2 == a2 {
                    None
                } else {
                    let code = digits_value(s, a2, j2);
                    if !begins(s, j2, ",\"message\":\""@) {
                        None
                    } else {
                        let m0 = j2 + ",\"message\":\""@.len();
                        let q = find_from(s, m0, '"');
                        if q == s.len() {
                            None
                        } else {
                            let msg = s.subrange(m0, q);
                            if q + 3 == s.len() && begins(s, q, "\"}}"@) {
                                Some((id, None, Some((code, msg))))
                            } else {
                                None
                            }
                        }
                    }
                }
            } else {
                None
            }
        }
    }
}

/// Law: a response carrying a result survives the wire unchanged.
pub proof fn lemma_response_ok_round_trip(id: nat, result: Seq<char>)
    requires
        result.len() > 0,
    ensures
        parse_response_s(ser_response_ok(id, result)) == Some((id, Some(result), None::<(nat, Seq<char>)>)),
{
    reveal_strlit("{\"id\":");
    reveal_strlit(",\"result\":");
    reveal_strlit(",\"error\":{\"code\":");
    reveal_strlit("}");
    let s = ser_response_ok(id, result);
    let p0 = "{\"id\":"@;
    let pr = ",\"result\":"@;
    lemma_dec_digits_len(id);
    let dl = dec_digits(id).len() as int;
    let i = p0.len() as int;
    let j = i + dl;
    assert(begins(s, 0, p0)) by {
        assert(s.subrange(0, p0.len() as int) =~= p0);
    }
    assert(s.subrange(i, j) =~= dec_digits(id));
    lemma_digits_value_of_dec_digits(s, i, id);
    assert(s[j] == ',');
    lemma_digits_end_located(s, i, j);
    assert(begins(s, j, pr)) by {
        assert(s.subrange(j, j + pr.len() as int) =~= pr);
    }
    let a = j + pr.len() as int;
    assert(s[s.len() - 1] == '}');
    assert(a < s.len());
    assert(s.subrange(a, s.len() - 1) =~= result);
}

/// Law: a response carrying an error survives the wire unchanged.
pub proof fn lemma_response_err_round_trip(id: nat, code: nat, message: Seq<char>)
    requires
        plain_text(message),
    ensures
        parse_response_s(ser_response_err(id, code, message)) == Some(
            (id, None::<Seq<char>>, Some((code, message))),
        ),
{
    reveal_strlit("{\"id\":");
    reveal_strlit(",\"result\":");
    reveal_strlit(",\"error\":{\"code\":");
    reveal_strlit(",\"message\":\"");
    reveal_strlit("\"}}");
    let s = ser_response_err(id, code, message);
    let p0 = "{\"id\":"@;
    let pr = ",\"result\":"@;
    let pe = ",\"error\":{\"code\":"@;
    let pm = ",\"message\":\""@;
    let pt = "\"}}"@;
    lemma_dec_digits_len(id);
    lemma_dec_digits_len(code);
    let dl = dec_digits(id).len() as int;
    let cl = dec_digits(code).len() as int;
    let i = p0.len() as int;
    let j = i + dl;
    assert(begins(s, 0, p0)) by {
        assert(s.subrange(0, p0.len() as int) =~= p0);
    }
    assert(s.subrange(i, j) =~= dec_digits(id));
    lemma_digits_value_of_dec_digits(s, i, id);
    assert(s[j] == ',');
    lemma_digits_end_located(s, i, j);
    assert(!begins(s, j, pr)) by {
        assert(s[j + 2] == 'e');
        assert(pr[2] == 'r');
        assert(s.subrange(j, j + pr.len() as int)[2] == s[j + 2]);
    }
    assert(begins(s, j, pe)) by {
        assert(s.subrange(j, j + pe.len() as int) =~= pe);
    }
    let a2 = j + pe.len() as int;
    let j2 = a2 + cl;
    assert(s.subrange(a2, j2) =~= dec_digits(code));
    lemma_digits_value_of_dec_digits(s, a2, code);
    assert(s[j2] == ',');
    lemma_digits_end_located(s, a2, j2);
    assert(begins(s, j2, pm)) by {
        assert(s.subrange(j2, j2 + pm.len() as int) =~= pm);
    }
    let m0 = j2 + pm.len() as int;
    let q = m0 + message.len() as int;
    assert(s[q] == '"');
    assert(forall|t: int| m0 <= t < q ==> s[t] == message[t - m0] && s[t] != '"');
    lemma_find_from_located(s, m0, '"', q);
    assert(s.subrange(m0, q) =~= message);
    assert(q + 3 == s.len());
    assert(begins(s, q, pt)) by {
        assert(s.subrange(q, q + pt.len() as int) =~= pt);
    }
}

/// Frame a response for the wire. A well-formed response carries
/// exactly one of result and error.
pub fn serialize_response(resp: &Response) -> (r: String)
    requires
        crate::types::response_wf(*resp),
    ensures
        (match resp.result {
            Some(res) => r@ == ser_response_ok(resp.id.0 as nat, res@),
            None => true,
        }),
        (match resp.error {
            Some(err) => r@ == ser_response_err(resp.id.0 as nat, err.code as nat, err.message@),
            None => true,
        }),
{
    let mut out = "{\"id\":".to_owned();
    out.append(usize_to_string(resp.id.0).as_str());
    match &resp.result {
        Some(res) => {
            out.append(",\"result\":");
            out.append(res.as_str());
            out.append("}");
            proof {
                assert(out@ =~= ser_response_ok(resp.id.0 as nat, resp.result->0@));
            }
        },
        None => {
            match &resp.error {
                Some(err) => {
                    out.append(",\"error\":{\"code\":");
                    out.append(usize_to_string(err.code).as_str());
                    out.append(",\"message\":\"");
                    out.append(err.message.as_str());
                    out.append("\"}}");
                    proof {
                        assert(out@ =~= ser_response_err(
                            resp.id.0 as nat,
                            resp.error->0.code as nat,
                            resp.error->0.message@,
                        ));
                    }
                },
                None => {},
            }
        },
    }
    out
}

/// Read a framed response back.
pub fn parse_response(s: &str) -> (r: Option<Response>)
    ensures
        match r {
            Some(resp) => parse_response_s(s@) matches Some(parts) && resp.id.0 as nat == parts.0
                && (match (resp.result, parts.1) {
                (Some(rv), Some(pv)) => rv@ == pv,
                (None, None) => true,
                _ => false,
            }) && (match (resp.error, parts.2) {
                (Some(ev), Some(pv)) => ev.code as nat == pv.0 && ev.message@ == pv.1,
                (None, None) => true,
                _ => false,
            }) && crate::types::response_wf(resp),
            None => parse_response_s(s@) is None || (parse_response_s(s@) matches Some(parts) && (
            parts.0 > usize::MAX || (parts.2 matches Some(e2) && e2.0 > usize::MAX))),
        },
{
    let slen = s.unicode_len();
    if !str_match_at(s, "{\"id\":", 0) {
        return None;
    }
    let i = "{\"id\":".unicode_len();
    let j = find_digits_end(s, i);
    if j == i {
        return None;
    }
    proof {
        lemma_digits_end_props(s@, i as int);
    }
    let id_v = match parse_digits_range(s, i, j) {
        Some(v) => v,
        None => {
            return None;
        },
    };
    if id_v > usize::MAX as u64 {
        return None;
    }
    if str_match_at(s, ",\"result\":", j) {
        let a = j + ",\"result\":".unicode_len();
        if a < slen && s.get_char(slen - 1) == '}' {
            let result = substring(s, a, slen - 1);
            Some(Response { id: CallId::new(id_v as usize), result: Some(result), error: None })
        } else {
            None
        }
    } else if str_match_at(s, ",\"error\":{\"code\":", j) {
        let a2 = j + ",\"error\":{\"code\":".unicode_len();
        let j2 = find_digits_end(s, a2);
        if j2 == a2 {
            return None;
        }
        proof {
            lemma_digits_end_props(s@, a2 as int);
        }
        let code_v = match parse_digits_range(s, a2, j2) {
            Some(v) => v,
            None => {
                return None;
            },
        };
        if code_v > usize::MAX as u64 {
            return None;
        }
        if !str_match_at(s, ",\"message\":\"", j2) {
            return None;
        }
        let m0 = j2 + ",\"message\":\"".unicode_len();
        let q = find_char_from(s, m0, '"');
        proof {
            lemma_find_from_props(s@, m0 as int, '"');
        }
        if q == slen {
            return None;
        }
        let msg = substring(s, m0, q);
        if slen >= 3 && q == slen - 3 && str_match_at(s, "\"}}", q) {
            Some(
                Response {
                    id: CallId::new(id_v as usize),
                    result: None,
                    error: Some(Error { code: code_v as usize, message: msg }),
                },
            )
        } else {
            None
        }
    } else {
        None
    }
}

/// An inbound frame is a response exactly when it opens with an id;
/// anything else is an event.
pub open spec fn frame_is_response(s: Seq<char>) -> bool {
    begins(s, 0, "{\"id\":"@)
}

/// Read one inbound frame: a response when it carries an id, an event
/// otherwise. Malformed frames are dropped, not fatal.
pub fn parse_message(s: &str) -> (r: Option<Message>)
    ensures
        r matches Some(m) ==> (match m {
            Message::Response(_) => frame_is_response(s@),
            Message::Event(_) => !frame_is_response(s@),
        }),
{
    if str_match_at(s, "{\"id\":", 0) {
        match parse_response(s) {
            Some(resp) => Some(Message::Response(resp)),
            None => None,
        }
    } else {
        match parse_event(s) {
            Some(ev) => Some(Message::Event(ev)),
            None => None,
        }
    }
}

/// The wire form of an event: method, optional session, raw parameters.
pub open spec fn ser_event(
    method: Seq<char>,
    session: Option<Seq<char>>,
    params: Seq<char>,
) -> Seq<char> {
    "{\"method\":\""@ + method + (match session {
        Some(sess) => "\",\"sessionId\":\""@ + sess + "\",\"params\":"@,
        None => "\",\"params\":"@,
    }) + params + "}"@
}

/// Read a serialized event back.
pub open spec fn parse_event_s(s: Seq<char>) -> Option<
    (Seq<char>, Option<Seq<char>>, Seq<char>),
> {
    if !begins(s, 0, "{\"method\":\""@) {
        None
    } else {
        let k = "{\"method\":\""@.len() as int;
        let q = find_from(s, k, '"');
        if q == s.len() {
            None
        } else {
            let method = s.subrange(k, q);
            if begins(s, q, "\",\"sessionId\":\""@) {
                let b = q + "\",\"sessionId\":\""@.len();
                let q2 = find_from(s, b, '"');
                if q2 == s.len() {
                    None
                } else {
                    let sess = s.subrange(b, q2);
                    if !begins(s, q2, "\",\"params\":"@) {
                        None
                    } else {
                        let a = q2 + "\",\"params\":"@.len();
                        if a < s.len() && s[s.len() - 1] == '}' {
                            Some((method, Some(sess), s.subrange(a, s.len() - 1)))
                        } else {
                            None
                        }
                    }
                }
            } else if begins(s, q, "\",\"params\":"@) {
                let a = q + "\",\"params\":"@.len();
                if a < s.len() && s[s.len() - 1] == '}' {
                    Some((method, None, s.subrange(a, s.len() - 1)))
                } else {
                    None
                }
            } else {
                None
            }
        }
    }
}

/// Law: an event survives the wire unchanged, and is never mistaken
/// for a response.
pub proof fn lemma_event_round_trip(
    method: Seq<char>,
    session: Option<Seq<char>>,
    params: Seq<char>,
)
    requires
        plain_text(method),
        match session {
            Some(sess) => plain_text(sess),
            None => true,
        },
        params.len() > 0,
    ensures
        parse_event_s(ser_event(method, session, params)) == Some((method, session, params)),
        !frame_is_response(ser_event(method, session, params)),
{
    reveal_strlit("{\"method\":\"");
    reveal_strlit("{\"id\":");
    reveal_strlit("\",\"sessionId\":\"");
    reveal_strlit("\",\"params\":");
    reveal_strlit("}");
    let s = ser_event(method, session, params);
    let p0 = "{\"method\":\""@;
    let pid = "{\"id\":"@;
    let ps = "\",\"sessionId\":\""@;
    let pp = "\",\"params\":"@;
    assert(begins(s, 0, p0)) by {
        assert(s.subrange(0, p0.len() as int) =~= p0);
    }
    assert(!begins(s, 0, pid)) by {
        assert(s[2] == 'm');
        assert(pid[2] == 'i');
        assert(s.subrange(0, pid.len() as int)[2] == s[2]);
    }
    let k = p0.len() as int;
    let q = k + method.len() as int;
    assert(s[q] == '"');
    assert(forall|t: int| k <= t < q ==> s[t] == method[t - k] && s[t] != '"');
    lemma_find_from_located(s, k, '"', q);
    assert(s.subrange(k, q) =~= method);
    match session {
        Some(sess) => {
            assert(begins(s, q, ps)) by {
                assert(s.subrange(q, q + ps.len() as int) =~= ps);
            }
            assert(!begins(s, q, pp)) by {
                assert(s[q + 3] == 's');
                assert(pp[3] == 'p');
                assert(s.subrange(q, q + pp.len() as int)[3] == s[q + 3]);
            }
            let b = q + ps.len() as int;
            let q2 = b + sess.len() as int;
            assert(s[q2] == '"');
            assert(forall|t: int| b <= t < q2 ==> s[t] == sess[t - b] && s[t] != '"');
            lemma_find_from_located(s, b, '"', q2);
            assert(s.subrange(b, q2) =~= sess);
            assert(begins(s, q2, pp)) by {
                assert(s.subrange(q2, q2 + pp.len() as int) =~= pp);
            }
            let a = q2 + pp.len() as int;
            assert(s[s.len() - 1] == '}');
            assert(a < s.len());
            assert(s.subrange(a, s.len() - 1) =~= params);
        },
        None => {
            assert(!begins(s, q, ps)) by {
                if q + ps.len() <= s.len() {
                    assert(s[q + 3] == 'p');
                    assert(ps[3] == 's');
                    assert(s.subrange(q, q + ps.len() as int)[3] == s[q + 3]);
                }
            }
            assert(begins(s, q, pp)) by {
                assert(s.subrange(q, q + pp.len() as int) =~= pp);
            }
            let a = q + pp.len() as int;
            assert(s[s.len() - 1] == '}');
            assert(a < s.len());
            assert(s.subrange(a, s.len() - 1) =~= params);
        },
    }
}

/// Frame an event as the browser would.
pub fn serialize_event(ev: &CdpEvent) -> (r: String)
    ensures
        r@ == ser_event(
            ev.method@,
            match ev.session_id {
                Some(sess) => Some(sess@),
                None => None,
            },
            ev.params@,
        ),
{
    let mut out = "{\"method\":\"".to_owned();
    out.append(ev.method.as_str());
    match &ev.session_id {
        Some(sess) => {
            out.append("\",\"sessionId\":\"");
            out.append(sess.as_str());
            out.append("\",\"params\":");
        },
        None => {
            out.append("\",\"params\":");
        },
    }
    out.append(ev.params.as_str());
    out.append("}");
    proof {
        assert(out@ =~= ser_event(
            ev.method@,
            match ev.session_id {
                Some(sess) => Some(sess@),
                None => None,
            },
            ev.params@,
        ));
    }
    out
}

/// Read a framed event back.
pub fn parse_event(s: &str) -> (r: Option<CdpEvent>)
    ensures
        match r {
            Some(ev) => parse_event_s(s@) matches Some(parts) && ev.method@ == parts.0
                && ev.params@ == parts.2 && (match (ev.session_id, parts.1) {
                (Some(sv), Some(pv)) => sv@ == pv,
                (None, None) => true,
                _ => false,
            }),
            None => parse_event_s(s@) is None,
        },
{
    let slen = s.unicode_len();
    if !str_match_at(s, "{\"method\":\"", 0) {
        return None;
    }
    let k = "{\"method\":\"".unicode_len();
    let q = find_char_from(s, k, '"');
    proof {
        lemma_find_from_props(s@, k as int, '"');
    }
    if q == slen {
        return None;
    }
    let method = substring(s, k, q);
    if str_match_at(s, "\",\"sessionId\":\"", q) {
        let b = q + "\",\"sessionId\":\"".unicode_len();
        let q2 = find_char_from(s, b, '"');
        proof {
            lemma_find_from_props(s@, b as int, '"');
        }
        if q2 == slen {
            return None;
        }
        let sess = substring(s, b, q2);
        if !str_match_at(s, "\",\"params\":", q2) {
            return None;
        }
        let a = q2 + "\",\"params\":".unicode_len();
        if a < slen && s.get_char(slen - 1) == '}' {
            let params = substring(s, a, slen - 1);
            Some(CdpEvent { method, session_id: Some(sess), params })
        } else {
            None
        }
    } else if str_match_at(s, "\",\"params\":", q) {
        let a = q + "\",\"params\":".unicode_len();
        if a < slen && s.get_char(slen - 1) == '}' {
            let params = substring(s, a, slen - 1);
            Some(CdpEvent { method, session_id: None, params })
        } else {
            None
        }
    } else {
        None
    }
}

} // verus!
