//! Decoding the fields of the pool inventory output into numeric text.
use vstd::prelude::*;
use crate::numeral::{nat_digits, trim_leading_zeros, trim_trailing_zeros};
use crate::registry::Decoder;
use crate::text::{lemma_split_nonempty, split_on, split_text};

verus! {

broadcast use vstd::string::group_string_axioms;

pub open spec fn is_digit(c: char) -> bool {
    '0' <= c <= '9'
}

pub open spec fn all_digits(s: Seq<char>) -> bool {
    forall|i: int| 0 <= i < s.len() ==> is_digit(#[trigger] s[i])
}

/// The length of the optional sign that opens a numeral.
pub open spec fn sign_len(s: Seq<char>) -> int {
    if s.len() > 0 && (s[0] == '-' || s[0] == '+') { 1 } else { 0 }
}

/// The parts of an unsigned numeral, split at its decimal point.
pub open spec fn numeral_parts(s: Seq<char>) -> Seq<Seq<char>> {
    split_on(s.skip(sign_len(s)), '.')
}

pub open spec fn whole_part(s: Seq<char>) -> Seq<char> {
    numeral_parts(s)[0]
}

pub open spec fn frac_part(s: Seq<char>) -> Seq<char> {
    if numeral_parts(s).len() == 2 { numeral_parts(s)[1] } else { Seq::empty() }
}

/// A plain decimal numeral: an optional sign, digits, and optionally a point
/// and more digits, with at least one digit in all.
pub open spec fn is_numeral(s: Seq<char>) -> bool {
    let p = numeral_parts(s);
    &&& p.len() == 1 || p.len() == 2
    &&& all_digits(whole_part(s))
    &&& all_digits(frac_part(s))
    &&& whole_part(s).len() + frac_part(s).len() > 0
}

/// The canonical text of a numeral's value: no redundant zeros, no '+', and
/// no '-' on zero.
pub open spec fn canonical(s: Seq<char>) -> Seq<char> {
    let w = trim_leading_zeros(whole_part(s));
    let f = trim_trailing_zeros(frac_part(s));
    let mag = (if w.len() == 0 { "0"@ } else { w }) + (if f.len() == 0 {
        Seq::empty()
    } else {
        "."@ + f
    });
    if sign_len(s) == 1 && s[0] == '-' && (w.len() > 0 || f.len() > 0) {
        "-"@ + mag
    } else {
        mag
    }
}

/// The number that stands for a pool health token.
pub open spec fn health_code(s: Seq<char>) -> int {
    if s == "ONLINE"@ { 0 }
    else if s == "DEGRADED"@ { 1 }
    else if s == "FAULTED"@ { 2 }
    else if s == "OFFLINE"@ { 3 }
    else if s == "REMOVED"@ { 4 }
    else if s == "UNAVAIL"@ { 5 }
    else { -1 }
}

pub open spec fn int_text(v: int) -> Seq<char> {
    if v < 0 { "-"@ + nat_digits((-v) as nat) } else { nat_digits(v as nat) }
}

pub open spec fn strip_percent(s: Seq<char>) -> Seq<char> {
    if s.len() > 0 && s.last() == '%' { s.drop_last() } else { s }
}

pub open spec fn decode_numeral(s: Seq<char>) -> Option<Seq<char>> {
    if is_numeral(s) { Some(canonical(s)) } else { None }
}

/// The numeric text that `d` makes of the field `raw`, or `None` where it
/// cannot be decoded.
pub open spec fn decode_spec(d: Decoder, raw: Seq<char>) -> Option<Seq<char>> {
    match d {
        Decoder::Numeric => decode_numeral(raw),
        Decoder::PercentStripped => decode_numeral(strip_percent(raw)),
        Decoder::HealthStatus => Some(int_text(health_code(raw))),
    }
}

pub open spec fn option_view(o: Option<String>) -> Option<Seq<char>> {
    match o {
        Some(s) => Some(s@),
        None => None,
    }
}

fn str_equals(a: &str, b: &str) -> (r: bool)
    ensures
        r == (a@ == b@),
{
    let n = a.unicode_len();
    if n != b.unicode_len() {
        return false;
    }
    let mut i: usize = 0;
    while i < n
        invariant
            n == a@.len() == b@.len(),
            i <= n,
            forall|k: int| 0 <= k < i ==> a@[k] == b@[k],
        decreases n - i,
    {
        if a.get_char(i) != b.get_char(i) {
            return false;
        }
        i = i + 1;
    }
    assert(a@ =~= b@);
    true
}

fn has_only_digits(s: &str) -> (r: bool)
    ensures
        r == all_digits(s@),
{
    let n = s.unicode_len();
    let mut i: usize = 0;
    while i < n
        invariant
            n == s@.len(),
            i <= n,
            forall|k: int| 0 <= k < i ==> is_digit(#[trigger] s@[k]),
        decreases n - i,
    {
        let c = s.get_char(i);
        if !('0' <= c && c <= '9') {
            return false;
        }
        i = i + 1;
    }
    true
}

proof fn lemma_trim_leading_skip(s: Seq<char>, k: int)
    requires
        0 <= k <= s.len(),
        forall|i: int| 0 <= i < k ==> s[i] == '0',
    ensures
        trim_leading_zeros(s) == trim_leading_zeros(s.skip(k)),
    decreases k,
{
    if k > 0 {
        assert(s.drop_first().skip(k - 1) =~= s.skip(k));
        lemma_trim_leading_skip(s.drop_first(), k - 1);
    } else {
        assert(s.skip(0) =~= s);
    }
}

proof fn lemma_trim_trailing_take(s: Seq<char>, k: int)
    requires
        0 <= k <= s.len(),
        forall|i: int| k <= i < s.len() ==> s[i] == '0',
    ensures
        trim_trailing_zeros(s) == trim_trailing_zeros(s.take(k)),
    decreases s.len() - k,
{
    if k < s.len() {
        assert(s.drop_last().take(k) =~= s.take(k));
        lemma_trim_trailing_take(s.drop_last(), k);
    } else {
        assert(s.take(k) =~= s);
    }
}

/// `s` without its leading '0' characters.
fn without_leading_zeros(s: &str) -> (r: &str)
    ensures
        r@ == trim_leading_zeros(s@),
{
    let n = s.unicode_len();
    let mut k: usize = 0;
    while k < n && s.get_char(k) == '0'
        invariant
            n == s@.len(),
            k <= n,
            forall|i: int| 0 <= i < k ==> s@[i] == '0',
        decreases n - k,
    {
        k = k + 1;
    }
    proof {
        lemma_trim_leading_skip(s@, k as int);
    }
    s.substring_char(k, n)
}

/// `s` without its trailing '0' characters.
fn without_trailing_zeros(s: &str) -> (r: &str)
    ensures
        r@ == trim_trailing_zeros(s@),
{
    let n = s.unicode_len();
    let mut k: usize = n;
    while k > 0 && s.get_char(k - 1) == '0'
        invariant
            n == s@.len(),
            k <= n,
            forall|i: int| k <= i < n ==> s@[i] == '0',
        decreases k,
    {
        k = k - 1;
    }
    proof {
        lemma_trim_trailing_take(s@, k as int);
        assert(s@.subrange(0, k as int) =~= s@.take(k as int));
    }
    s.substring_char(0, k)
}

/// The canonical text of the decimal numeral `s`, or `None` if `s` is not one.
pub fn canonical_numeral(s: &str) -> (r: Option<String>)
    ensures
        option_view(r) == decode_numeral(s@),
{
    let n = s.unicode_len();
    let mut start: usize = 0;
    let mut negative = false;
    if n > 0 {
        let c = s.get_char(0);
        if c == '-' || c == '+' {
            start = 1;
            negative = c == '-';
        }
    }
    let unsigned = s.substring_char(start, n);
    assert(unsigned@ =~= s@.skip(sign_len(s@)));
    let parts = split_text(unsigned, '.');
    proof {
        lemma_split_nonempty(unsigned@, '.');
    }
    assert(parts@[0]@ == whole_part(s@));
    if parts.len() > 2 {
        return None;
    }
    let whole = parts[0].as_str();
    proof { reveal_strlit(""); }
    let frac: &str = if parts.len() == 2 { parts[1].as_str() } else { "" };
    assert(frac@ == frac_part(s@));
    if !has_only_digits(whole) || !has_only_digits(frac) {
        return None;
    }
    if whole.unicode_len() == 0 && frac.unicode_len() == 0 {
        return None;
    }
    let w = without_leading_zeros(whole);
    let f = without_trailing_zeros(frac);
    let w_len = w.unicode_len();
    let f_len = f.unicode_len();
    let mut r = String::new();
    if negative && (w_len > 0 || f_len > 0) {
        r.append("-");
    }
    if w_len == 0 {
        r.append("0");
    } else {
        r.append(w);
    }
    if f_len > 0 {
        r.append(".");
        r.append(f);
    }
    assert(r@ =~= canonical(s@));
    Some(r)
}

/// The text of a pool health token's number.
fn health_text(raw: &str) -> (r: String)
    ensures
        r@ == int_text(health_code(raw@)),
{
    let code: &str = if str_equals(raw, "ONLINE") {
        "0"
    } else if str_equals(raw, "DEGRADED") {
        "1"
    } else if str_equals(raw, "FAULTED") {
        "2"
    } else if str_equals(raw, "OFFLINE") {
        "3"
    } else if str_equals(raw, "REMOVED") {
        "4"
    } else if str_equals(raw, "UNAVAIL") {
        "5"
    } else {
        "-1"
    };
    proof {
        reveal_strlit("0");
        reveal_strlit("1");
        reveal_strlit("2");
        reveal_strlit("3");
        reveal_strlit("4");
        reveal_strlit("5");
        reveal_strlit("-1");
        reveal_strlit("-");
        assert(nat_digits(1) == seq!['1']);
    }
    assert(code@ =~= int_text(health_code(raw@)));
    code.to_owned()
}

/// Decodes the field `raw` with `decoder` into the text of a number.
pub fn decode_field(decoder: Decoder, raw: &str) -> (r: Option<String>)
    ensures
        option_view(r) == decode_spec(decoder, raw@),
{
    match decoder {
        Decoder::Numeric => canonical_numeral(raw),
        Decoder::PercentStripped => {
            let n = raw.unicode_len();
            if n > 0 && raw.get_char(n - 1) == '%' {
                let t = raw.substring_char(0, n - 1);
                assert(t@ =~= strip_percent(raw@));
                canonical_numeral(t)
            } else {
                canonical_numeral(raw)
            }
        },
        Decoder::HealthStatus => Some(health_text(raw)),
    }
}

} // verus!
