//! Small executable helpers over strings, with exact contracts.

use vstd::prelude::*;
use vstd::string::StrSliceExecFns;
use vstd::string::StringExecFns;

verus! {

/// Decimal digits of `n`, most significant first.
pub open spec fn dec_digits(n: nat) -> Seq<char>
    decreases n,
{
    if n < 10 {
        seq![digit_char(n)]
    } else {
        dec_digits(n / 10).push(digit_char(n % 10))
    }
}

/// The character for a single decimal digit.
pub open spec fn digit_char(d: nat) -> char {
    if d == 0 { '0' }
    else if d == 1 { '1' }
    else if d == 2 { '2' }
    else if d == 3 { '3' }
    else if d == 4 { '4' }
    else if d == 5 { '5' }
    else if d == 6 { '6' }
    else if d == 7 { '7' }
    else if d == 8 { '8' }
    else { '9' }
}

pub open spec fn is_digit(c: char) -> bool {
    c == '0' || c == '1' || c == '2' || c == '3' || c == '4' || c == '5' || c == '6' || c == '7'
        || c == '8' || c == '9'
}

/// Numeric value of a digit character.
pub open spec fn digit_val(c: char) -> nat {
    if c == '0' { 0 }
    else if c == '1' { 1 }
    else if c == '2' { 2 }
    else if c == '3' { 3 }
    else if c == '4' { 4 }
    else if c == '5' { 5 }
    else if c == '6' { 6 }
    else if c == '7' { 7 }
    else if c == '8' { 8 }
    else { 9 }
}

proof fn lemma_digit_char_val(d: nat)
    requires
        d < 10,
    ensures
        is_digit(digit_char(d)),
        digit_val(digit_char(d)) == d,
{
}

/// Value of the digit run `s[from..to]`, read as a decimal number.
pub open spec fn digits_value(s: Seq<char>, from: int, to: int) -> nat
    decreases to - from,
{
    if to <= from {
        0
    } else {
        digits_value(s, from, to - 1) * 10 + digit_val(s[to - 1])
    }
}

pub open spec fn all_digits(s: Seq<char>, from: int, to: int) -> bool {
    forall|k: int| from <= k < to ==> is_digit(#[trigger] s[k])
}

/// Reading back the digits of `n` embedded in `s` gives `n` again.
pub proof fn lemma_digits_value_of_dec_digits(s: Seq<char>, from: int, n: nat)
    requires
        0 <= from,
        from + dec_digits(n).len() <= s.len(),
        s.subrange(from, from + dec_digits(n).len() as int) == dec_digits(n),
    ensures
        all_digits(s, from, from + dec_digits(n).len() as int),
        digits_value(s, from, from + dec_digits(n).len() as int) == n,
    decreases n,
{
    let len = dec_digits(n).len() as int;
    if n < 10 {
        assert(dec_digits(n).len() == 1);
        assert(s[from] == dec_digits(n)[0]);
        lemma_digit_char_val(n);
        assert(digits_value(s, from, from) == 0);
        assert(digits_value(s, from, from + 1) == 0 * 10 + digit_val(s[from]));
    } else {
        let sub = dec_digits(n / 10);
        assert(dec_digits(n) == sub.push(digit_char(n % 10)));
        assert(sub.len() >= 1) by {
            lemma_dec_digits_len(n / 10);
        }
        assert(s.subrange(from, from + sub.len() as int) == sub) by {
            assert forall|k: int| 0 <= k < sub.len() implies s.subrange(
                from,
                from + sub.len() as int,
            )[k] == sub[k] by {
                assert(s.subrange(from, from + len)[k] == dec_digits(n)[k]);
            }
            assert(s.subrange(from, from + sub.len() as int) =~= sub);
        }
        lemma_digits_value_of_dec_digits(s, from, n / 10);
        assert(s[from + len - 1] == dec_digits(n)[len - 1]);
        assert(dec_digits(n)[len - 1] == digit_char(n % 10));
        lemma_digit_char_val(n % 10);
        assert(digits_value(s, from, from + len) == digits_value(s, from, from + len - 1) * 10
            + digit_val(s[from + len - 1]));
        assert(digits_value(s, from, from + len) == (n / 10) * 10 + n % 10);
        assert((n / 10) * 10 + n % 10 == n) by (nonlinear_arith);
    }
}

pub proof fn lemma_dec_digits_len(n: nat)
    ensures
        1 <= dec_digits(n).len(),
        dec_digits(n).len() <= n + 1,
        forall|k: int| 0 <= k < dec_digits(n).len() ==> is_digit(#[trigger] dec_digits(n)[k]),
    decreases n,
{
    if n >= 10 {
        lemma_dec_digits_len(n / 10);
    } else {
        lemma_digit_char_val(n);
    }
}

/// Render `n` in decimal.
pub fn usize_to_string(n: usize) -> (r: String)
    ensures
        r@ == dec_digits(n as nat),
    decreases n,
{
    let d: usize = n % 10;
    let digit: &str = if d == 0 { "0" }
    else if d == 1 { "1" }
    else if d == 2 { "2" }
    else if d == 3 { "3" }
    else if d == 4 { "4" }
    else if d == 5 { "5" }
    else if d == 6 { "6" }
    else if d == 7 { "7" }
    else if d == 8 { "8" }
    else { "9" };
    proof {
        reveal_strlit("0");
        reveal_strlit("1");
        reveal_strlit("2");
        reveal_strlit("3");
        reveal_strlit("4");
        reveal_strlit("5");
        reveal_strlit("6");
        reveal_strlit("7");
        reveal_strlit("8");
        reveal_strlit("9");
    }
    if n < 10 {
        let r = digit.to_owned();
        assert(r@ =~= dec_digits(n as nat));
        r
    } else {
        let mut r = usize_to_string(n / 10);
        r.append(digit);
        assert(r@ =~= dec_digits(n as nat));
        r
    }
}

/// Character-for-character equality of two string slices.
pub fn str_eq(a: &str, b: &str) -> (r: bool)
    ensures
        r == (a@ == b@),
{
    let alen = a.unicode_len();
    let blen = b.unicode_len();
    if alen != blen {
        assert(a@ != b@);
        return false;
    }
    let mut i: usize = 0;
    while i < alen
        invariant
            i <= alen,
            alen == a@.len(),
            alen == b@.len(),
            forall|k: int| 0 <= k < i ==> a@[k] == b@[k],
        decreases alen - i,
    {
        if a.get_char(i) != b.get_char(i) {
            assert(a@ != b@);
            return false;
        }
        i = i + 1;
    }
    assert(a@ =~= b@);
    true
}

/// Index of the first occurrence of `c` in `s` at or after `from`;
/// `s.len()` when there is none.
pub open spec fn find_from(s: Seq<char>, from: int, c: char) -> int
    decreases s.len() - from,
{
    if from < 0 {
        find_from(s, 0, c)
    } else if from >= s.len() {
        s.len() as int
    } else if s[from] == c {
        from
    } else {
        find_from(s, from + 1, c)
    }
}

pub proof fn lemma_find_from_located(s: Seq<char>, from: int, c: char, i: int)
    requires
        0 <= from <= i <= s.len(),
        forall|k: int| from <= k < i ==> s[k] != c,
        i == s.len() || s[i] == c,
    ensures
        find_from(s, from, c) == i,
    decreases i - from,
{
    if from < i {
        lemma_find_from_located(s, from + 1, c, i);
    }
}

pub proof fn lemma_find_from_props(s: Seq<char>, from: int, c: char)
    requires
        0 <= from <= s.len(),
    ensures
        from <= find_from(s, from, c) <= s.len(),
        find_from(s, from, c) < s.len() ==> s[find_from(s, from, c)] == c,
        forall|k: int| from <= k < find_from(s, from, c) ==> s[k] != c,
    decreases s.len() - from,
{
    if from < s.len() && s[from] != c {
        lemma_find_from_props(s, from + 1, c);
    }
}

/// Scan for the first occurrence of `c` at or after `from`.
pub fn find_char_from(s: &str, from: usize, c: char) -> (r: usize)
    requires
        from <= s@.len(),
    ensures
        r == find_from(s@, from as int, c),
{
    let len = s.unicode_len();
    let mut i: usize = from;
    while i < len
        invariant
            from <= i <= len,
            len == s@.len(),
            forall|k: int| from <= k < i ==> s@[k] != c,
        decreases len - i,
    {
        if s.get_char(i) == c {
            proof {
                lemma_find_from_located(s@, from as int, c, i as int);
            }
            return i;
        }
        i = i + 1;
    }
    proof {
        lemma_find_from_located(s@, from as int, c, s@.len() as int);
    }
    len
}

/// Index of the first occurrence of `pat` in `s` at or after `from`;
/// `-1` when there is none.
pub open spec fn find_sub(s: Seq<char>, pat: Seq<char>, from: int) -> int
    decreases s.len() - from,
{
    if from < 0 {
        find_sub(s, pat, 0)
    } else if pat.len() == 0 || from + pat.len() > s.len() {
        -1
    } else if s.subrange(from, from + pat.len() as int) == pat {
        from
    } else {
        find_sub(s, pat, from + 1)
    }
}

pub proof fn lemma_find_sub_located(s: Seq<char>, pat: Seq<char>, from: int, i: int)
    requires
        pat.len() >= 1,
        0 <= from <= i,
        i + pat.len() <= s.len(),
        forall|k: int| from <= k < i ==> #[trigger] s.subrange(k, k + pat.len() as int) != pat,
        s.subrange(i, i + pat.len() as int) == pat,
    ensures
        find_sub(s, pat, from) == i,
    decreases i - from,
{
    if from < i {
        lemma_find_sub_located(s, pat, from + 1, i);
    }
}

pub proof fn lemma_find_sub_none(s: Seq<char>, pat: Seq<char>, from: int)
    requires
        0 <= from,
        pat.len() == 0 || forall|k: int|
            from <= k && k + pat.len() <= s.len() ==> #[trigger] s.subrange(
                k,
                k + pat.len() as int,
            ) != pat,
    ensures
        find_sub(s, pat, from) == -1,
    decreases s.len() - from,
{
    if pat.len() >= 1 && from + pat.len() <= s.len() {
        lemma_find_sub_none(s, pat, from + 1);
    }
}

pub proof fn lemma_find_sub_props(s: Seq<char>, pat: Seq<char>, from: int)
    requires
        0 <= from,
    ensures
        find_sub(s, pat, from) == -1 || from <= find_sub(s, pat, from),
        find_sub(s, pat, from) >= 0 ==> find_sub(s, pat, from) + pat.len() <= s.len()
            && s.subrange(
            find_sub(s, pat, from),
            find_sub(s, pat, from) + pat.len() as int,
        ) == pat,
    decreases s.len() - from,
{
    if pat.len() >= 1 && from + pat.len() <= s.len() && s.subrange(
        from,
        from + pat.len() as int,
    ) != pat {
        lemma_find_sub_props(s, pat, from + 1);
    }
}

/// Does `pat` stand in `s` at position `at`?
pub fn str_match_at(s: &str, pat: &str, at: usize) -> (r: bool)
    requires
        at <= s@.len(),
    ensures
        r == (at + pat@.len() <= s@.len() && s@.subrange(at as int, at + pat@.len() as int)
            == pat@),
{
    let slen = s.unicode_len();
    let plen = pat.unicode_len();
    if plen > slen - at {
        return false;
    }
    let mut i: usize = 0;
    while i < plen
        invariant
            i <= plen,
            at + plen <= slen,
            slen == s@.len(),
            plen == pat@.len(),
            forall|k: int| 0 <= k < i ==> s@[at + k] == pat@[k],
        decreases plen - i,
    {
        if s.get_char(at + i) != pat.get_char(i) {
            assert(s@.subrange(at as int, at + pat@.len() as int)[i as int] != pat@[i as int]);
            return false;
        }
        i = i + 1;
    }
    assert(s@.subrange(at as int, at + pat@.len() as int) =~= pat@);
    true
}

/// Scan for the first occurrence of `pat` at or after `from`.
pub fn find_sub_from(s: &str, pat: &str, from: usize) -> (r: Option<usize>)
    requires
        from <= s@.len(),
    ensures
        match r {
            Some(i) => i == find_sub(s@, pat@, from as int),
            None => find_sub(s@, pat@, from as int) == -1,
        },
{
    let slen = s.unicode_len();
    let plen = pat.unicode_len();
    if plen == 0 || plen > slen - from {
        proof {
            lemma_find_sub_none(s@, pat@, from as int);
        }
        return None;
    }
    let stop = slen - plen;
    let mut i: usize = from;
    while i <= stop
        invariant
            1 <= plen,
            from <= i <= stop + 1,
            stop == slen - plen,
            slen == s@.len(),
            plen == pat@.len(),
            plen <= slen - from,
            forall|k: int|
                from <= k < i ==> #[trigger] s@.subrange(k, k + pat@.len() as int) != pat@,
        decreases stop + 1 - i,
    {
        if str_match_at(s, pat, i) {
            proof {
                lemma_find_sub_located(s@, pat@, from as int, i as int);
            }
            return Some(i);
        }
        i = i + 1;
    }
    proof {
        lemma_find_sub_none(s@, pat@, from as int);
    }
    None
}

/// First index at or after `from` holding a non-digit; `s.len()` when
/// the digits run to the end.
pub open spec fn digits_end(s: Seq<char>, from: int) -> int
    decreases s.len() - from,
{
    if from < 0 {
        digits_end(s, 0)
    } else if from >= s.len() {
        s.len() as int
    } else if !is_digit(s[from]) {
        from
    } else {
        digits_end(s, from + 1)
    }
}

pub proof fn lemma_digits_end_located(s: Seq<char>, from: int, i: int)
    requires
        0 <= from <= i <= s.len(),
        forall|k: int| from <= k < i ==> is_digit(#[trigger] s[k]),
        i == s.len() || !is_digit(s[i]),
    ensures
        digits_end(s, from) == i,
    decreases i - from,
{
    if from < i {
        lemma_digits_end_located(s, from + 1, i);
    }
}

pub proof fn lemma_digits_end_props(s: Seq<char>, from: int)
    requires
        0 <= from <= s.len(),
    ensures
        from <= digits_end(s, from) <= s.len(),
        all_digits(s, from, digits_end(s, from)),
        digits_end(s, from) < s.len() ==> !is_digit(s[digits_end(s, from)]),
    decreases s.len() - from,
{
    if from < s.len() && is_digit(s[from]) {
        lemma_digits_end_props(s, from + 1);
    }
}

/// Scan past the digit run starting at `from`.
pub fn find_digits_end(s: &str, from: usize) -> (r: usize)
    requires
        from <= s@.len(),
    ensures
        r == digits_end(s@, from as int),
{
    let len = s.unicode_len();
    let mut i: usize = from;
    while i < len
        invariant
            from <= i <= len,
            len == s@.len(),
            forall|k: int| from <= k < i ==> is_digit(#[trigger] s@[k]),
        decreases len - i,
    {
        let c = s.get_char(i);
        let digit = c == '0' || c == '1' || c == '2' || c == '3' || c == '4' || c == '5' || c
            == '6' || c == '7' || c == '8' || c == '9';
        if !digit {
            proof {
                lemma_digits_end_located(s@, from as int, i as int);
            }
            return i;
        }
        i = i + 1;
    }
    proof {
        lemma_digits_end_located(s@, from as int, len as int);
    }
    len
}

/// A longer digit run never has a smaller value.
pub proof fn lemma_digits_value_monotone(s: Seq<char>, from: int, mid: int, to: int)
    requires
        0 <= from <= mid <= to <= s.len(),
    ensures
        digits_value(s, from, to) >= digits_value(s, from, mid),
    decreases to - mid,
{
    if mid < to {
        lemma_digits_value_monotone(s, from, mid, to - 1);
        assert(digits_value(s, from, to) == digits_value(s, from, to - 1) * 10 + digit_val(
            s[to - 1],
        ));
        assert(digits_value(s, from, to - 1) * 10 >= digits_value(s, from, to - 1)) by (nonlinear_arith);
    }
}

/// Read the value of the digit run `s[start..end]`, refusing one that
/// does not fit.
pub fn parse_digits_range(s: &str, start: usize, end: usize) -> (r: Option<u64>)
    requires
        start <= end <= s@.len(),
        all_digits(s@, start as int, end as int),
    ensures
        match r {
            Some(v) => v as nat == digits_value(s@, start as int, end as int),
            None => digits_value(s@, start as int, end as int) > u64::MAX,
        },
{
    let mut acc: u64 = 0;
    let mut i: usize = start;
    while i < end
        invariant
            start <= i <= end <= s@.len(),
            all_digits(s@, start as int, end as int),
            acc as nat == digits_value(s@, start as int, i as int),
        decreases end - i,
    {
        let c = s.get_char(i);
        let d: u64 = if c == '0' { 0 }
        else if c == '1' { 1 }
        else if c == '2' { 2 }
        else if c == '3' { 3 }
        else if c == '4' { 4 }
        else if c == '5' { 5 }
        else if c == '6' { 6 }
        else if c == '7' { 7 }
        else if c == '8' { 8 }
        else { 9 };
        assert(d == digit_val(s@[i as int]));
        if acc > (u64::MAX - d) / 10 {
            proof {
                assert(acc * 10 + d > u64::MAX) by (nonlinear_arith)
                    requires
                        acc > (u64::MAX - d) / 10,
                        d <= 9,
                ;
                assert(digits_value(s@, start as int, i as int + 1) == acc * 10 + d);
                lemma_digits_value_monotone(s@, start as int, i as int + 1, end as int);
            }
            return None;
        }
        assert(acc * 10 + d <= u64::MAX) by (nonlinear_arith)
            requires
                acc <= (u64::MAX - d) / 10,
                d <= 9,
        ;
        acc = acc * 10 + d;
        i = i + 1;
    }
    Some(acc)
}

/// Copy `s[from..to]` into an owned string.
pub fn substring(s: &str, from: usize, to: usize) -> (r: String)
    requires
        from <= to <= s@.len(),
    ensures
        r@ == s@.subrange(from as int, to as int),
{
    s.substring_char(from, to).to_owned()
}

/// Does `s` begin with `prefix`?
pub fn str_starts_with(s: &str, prefix: &str) -> (r: bool)
    ensures
        r == (s@.len() >= prefix@.len() && s@.subrange(0, prefix@.len() as int) == prefix@),
{
    let slen = s.unicode_len();
    let plen = prefix.unicode_len();
    if slen < plen {
        return false;
    }
    let mut i: usize = 0;
    while i < plen
        invariant
            i <= plen,
            plen <= slen,
            slen == s@.len(),
            plen == prefix@.len(),
            forall|k: int| 0 <= k < i ==> s@[k] == prefix@[k],
        decreases plen - i,
    {
        if s.get_char(i) != prefix.get_char(i) {
            assert(s@.subrange(0, prefix@.len() as int)[i as int] != prefix@[i as int]);
            return false;
        }
        i = i + 1;
    }
    assert(s@.subrange(0, prefix@.len() as int) =~= prefix@);
    true
}

} // verus!
