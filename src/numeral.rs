//! Decimal numerals: digits of an unsigned integer, and exact decimal text of
//! a count of nanoseconds expressed in seconds.
use vstd::prelude::*;

verus! {

broadcast use vstd::string::group_string_axioms;

/// The character of a decimal digit.
pub open spec fn digit_char(d: nat) -> char {
    if d == 0 { '0' }
    else if d == 1 { '1' }
    else if d == 2 { '2' }
    else if d == 3 { '3' }
    else if d == 4 { '4' }
    else if d == 5 { '5' }
    else if d == 6 { '6' }
    else if d == 7 { '7' }
    else if d == 8 { '8' }
    else { '9' }
}

/// The decimal digits of `n`, without leading zeros ("0" for zero).
pub open spec fn nat_digits(n: nat) -> Seq<char>
    decreases n,
{
    if n < 10 {
        seq![digit_char(n)]
    } else {
        nat_digits(n / 10).push(digit_char(n % 10))
    }
}

/// The last `w` decimal digits of `n`, padded with leading zeros.
pub open spec fn padded_digits(n: nat, w: nat) -> Seq<char>
    decreases w,
{
    if w == 0 {
        Seq::empty()
    } else {
        padded_digits(n / 10, (w - 1) as nat).push(digit_char(n % 10))
    }
}

/// `s` without its trailing '0' characters.
pub open spec fn trim_trailing_zeros(s: Seq<char>) -> Seq<char>
    decreases s.len(),
{
    if s.len() > 0 && s.last() == '0' {
        trim_trailing_zeros(s.drop_last())
    } else {
        s
    }
}

/// `s` without its leading '0' characters.
pub open spec fn trim_leading_zeros(s: Seq<char>) -> Seq<char>
    decreases s.len(),
{
    if s.len() > 0 && s[0] == '0' {
        trim_leading_zeros(s.drop_first())
    } else {
        s
    }
}

pub const NANOS_PER_SECOND: u64 = 1_000_000_000;

/// The canonical decimal text of `ns / 10^9`: whole seconds, then a point and
/// the fractional digits without trailing zeros, if there are any.
pub open spec fn seconds_numeral(ns: nat) -> Seq<char> {
    let frac = trim_trailing_zeros(padded_digits(ns % 1_000_000_000, 9));
    if frac.len() == 0 {
        nat_digits(ns / 1_000_000_000)
    } else {
        nat_digits(ns / 1_000_000_000) + seq!['.'] + frac
    }
}

fn digit_str(d: u64) -> (r: &'static str)
    requires
        d < 10,
    ensures
        r@ == seq![digit_char(d as nat)],
{
    proof {
        reveal_strlit("0");
        reveal_strlit("1");
        reveal_strlit("2");
        reveal_strlit("3");
        reveal_strlit("4");
        reveal_strlit("5");
        reveal_strlit("6");
        reveal_strlit("7");
        reveal_strlit("8");
        reveal_strlit("9");
    }
    if d == 0 { "0" }
    else if d == 1 { "1" }
    else if d == 2 { "2" }
    else if d == 3 { "3" }
    else if d == 4 { "4" }
    else if d == 5 { "5" }
    else if d == 6 { "6" }
    else if d == 7 { "7" }
    else if d == 8 { "8" }
    else { "9" }
}

/// Appends the decimal digits of `n` to `out`.
pub fn append_digits(out: &mut String, n: u64)
    ensures
        final(out)@ == old(out)@ + nat_digits(n as nat),
    decreases n,
{
    if n >= 10 {
        append_digits(out, n / 10);
    }
    out.append(digit_str(n % 10));
    assert(final(out)@ =~= old(out)@ + nat_digits(n as nat));
}

fn append_padded(out: &mut String, n: u64, w: u64)
    ensures
        final(out)@ == old(out)@ + padded_digits(n as nat, w as nat),
    decreases w,
{
    if w > 0 {
        append_padded(out, n / 10, w - 1);
        out.append(digit_str(n % 10));
    }
    assert(final(out)@ =~= old(out)@ + padded_digits(n as nat, w as nat));
}

proof fn lemma_trim_padded(n: nat, w: nat)
    requires
        w > 0,
        n % 10 == 0,
    ensures
        trim_trailing_zeros(padded_digits(n, w)) == trim_trailing_zeros(
            padded_digits(n / 10, (w - 1) as nat),
        ),
{
    let p = padded_digits(n, w);
    assert(p.last() == '0');
    assert(p.drop_last() =~= padded_digits(n / 10, (w - 1) as nat));
}

proof fn lemma_padded_last_nonzero(n: nat, w: nat)
    requires
        w > 0,
        n % 10 != 0,
    ensures
        trim_trailing_zeros(padded_digits(n, w)) == padded_digits(n, w),
        padded_digits(n, w).len() == w,
{
    lemma_padded_len(n, w);
    let d = n % 10;
    assert(digit_char(d) != '0');
}

proof fn lemma_padded_len(n: nat, w: nat)
    ensures
        padded_digits(n, w).len() == w,
    decreases w,
{
    if w > 0 {
        lemma_padded_len(n / 10, (w - 1) as nat);
    }
}

/// Appends `ns` nanoseconds, expressed in seconds, to `out`.
pub fn append_seconds(out: &mut String, ns: u64)
    ensures
        final(out)@ == old(out)@ + seconds_numeral(ns as nat),
{
    append_digits(out, ns / NANOS_PER_SECOND);
    let mut frac: u64 = ns % NANOS_PER_SECOND;
    let mut width: u64 = 9;
    while width > 0 && frac % 10 == 0
        invariant
            width <= 9,
            trim_trailing_zeros(padded_digits(frac as nat, width as nat)) == trim_trailing_zeros(
                padded_digits((ns % 1_000_000_000) as nat, 9),
            ),
        decreases width,
    {
        proof {
            lemma_trim_padded(frac as nat, width as nat);
        }
        frac = frac / 10;
        width = width - 1;
    }
    proof {
        if width > 0 {
            lemma_padded_last_nonzero(frac as nat, width as nat);
        }
    }
    if width > 0 {
        proof { reveal_strlit("."); }
        out.append(".");
        append_padded(out, frac, width);
    }
    assert(final(out)@ =~= old(out)@ + seconds_numeral(ns as nat));
}

/// The text of `ns` nanoseconds expressed in seconds, as an exact decimal.
pub fn seconds_text(ns: u64) -> (r: String)
    ensures
        r@ == seconds_numeral(ns as nat),
{
    let mut r = String::new();
    append_seconds(&mut r, ns);
    assert(r@ =~= seconds_numeral(ns as nat));
    r
}

} // verus!
