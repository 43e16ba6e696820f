use vstd::prelude::*;
use crate::text::is_decimal_digit;

verus! {

/// Number of decimal digits in `t` from index `i` on, before the first non-digit.
pub open spec fn digits_from(t: Seq<char>, i: int) -> nat
    decreases t.len() - i,
{
    if 0 <= i < t.len() && is_decimal_digit(t[i]) {
        1 + digits_from(t, i + 1)
    } else {
        0
    }
}

/// End of the integer part of a number lexeme.
pub open spec fn int_end(t: Seq<char>) -> int {
    digits_from(t, 0) as int
}

/// Whether a fraction (a `.`) follows the integer part.
pub open spec fn has_dot(t: Seq<char>) -> bool {
    int_end(t) < t.len() && t[int_end(t)] == '.'
}

/// End of the mantissa: the integer part and the fraction, if any.
pub open spec fn mantissa_end(t: Seq<char>) -> int {
    if has_dot(t) {
        int_end(t) + 1 + digits_from(t, int_end(t) + 1)
    } else {
        int_end(t)
    }
}

/// Whether `t` is a floating-point literal: `D+ ('.' D*)? ([eE] D+)?`
/// over ASCII digits `D`, which is what `f64::from_str` accepts of a text that
/// starts with a digit and holds no sign.
pub open spec fn valid_number(t: Seq<char>) -> bool {
    let m = mantissa_end(t);
    &&& int_end(t) >= 1
    &&& (m == t.len() || ((t[m] == 'e' || t[m] == 'E') && digits_from(t, m + 1) >= 1 && m + 1
        + digits_from(t, m + 1) == t.len()))
}

/// `s` without its leading `'0'`s.
pub open spec fn strip_leading_zeros(s: Seq<char>) -> Seq<char>
    decreases s.len(),
{
    if s.len() > 0 && s[0] == '0' {
        strip_leading_zeros(s.drop_first())
    } else {
        s
    }
}

/// `s` without its trailing `'0'`s.
pub open spec fn strip_trailing_zeros(s: Seq<char>) -> Seq<char>
    decreases s.len(),
{
    if s.len() > 0 && s.last() == '0' {
        strip_trailing_zeros(s.drop_last())
    } else {
        s
    }
}

/// The canonical decimal text of a valid number lexeme: the integer part
/// without leading zeros (`0` if nothing is left), the fraction without
/// trailing zeros and without the dot if nothing is left, and the exponent
/// without leading zeros and without the `e` if it is zero.
pub open spec fn canonical_text(t: Seq<char>) -> Seq<char> {
    let ip = strip_leading_zeros(t.subrange(0, int_end(t)));
    let ip2 = if ip.len() == 0 { seq!['0'] } else { ip };
    let frac = if has_dot(t) { t.subrange(int_end(t) + 1, mantissa_end(t)) } else { Seq::empty() };
    let fp = strip_trailing_zeros(frac);
    let m = mantissa_end(t);
    let ep = if m < t.len() { strip_leading_zeros(t.subrange(m + 1, t.len() as int)) } else { Seq::empty() };
    ip2 + (if fp.len() == 0 { Seq::empty() } else { seq!['.'] + fp }) + (if ep.len() == 0 {
        Seq::empty()
    } else {
        seq!['e'] + ep
    })
}

fn count_digits(t: &Vec<char>, i: usize) -> (r: usize)
    requires
        i <= t@.len(),
    ensures
        r == digits_from(t@, i as int),
        i + r <= t@.len(),
{
    let mut j: usize = i;
    while j < t.len() && crate::text::decimal_digit(t[j])
        invariant
            i <= j <= t@.len(),
            digits_from(t@, i as int) == (j - i) + digits_from(t@, j as int),
        decreases t@.len() - j,
    {
        j = j + 1;
    }
    j - i
}

/// Whether `t` is a floating-point literal (see `valid_number`).
pub fn is_valid_number(t: &Vec<char>) -> (r: bool)
    ensures
        r == valid_number(t@),
{
    let ie = count_digits(t, 0);
    if ie == 0 {
        return false;
    }
    let mut m: usize = ie;
    if ie < t.len() && t[ie] == '.' {
        m = ie + 1 + count_digits(t, ie + 1);
    }
    if m == t.len() {
        return true;
    }
    if t[m] != 'e' && t[m] != 'E' {
        return false;
    }
    let ed = count_digits(t, m + 1);
    ed >= 1 && m + 1 + ed == t.len()
}

/// Appends `t[from..to]` without its leading zeros to `out`.
fn push_without_leading_zeros(t: &Vec<char>, from: usize, to: usize, out: &mut Vec<char>)
    requires
        from <= to <= t@.len(),
    ensures
        final(out)@ == old(out)@ + strip_leading_zeros(t@.subrange(from as int, to as int)),
{
    let mut i: usize = from;
    while i < to && t[i] == '0'
        invariant
            from <= i <= to <= t@.len(),
            strip_leading_zeros(t@.subrange(from as int, to as int)) == strip_leading_zeros(
                t@.subrange(i as int, to as int),
            ),
        decreases to - i,
    {
        assert(t@.subrange(i as int, to as int).drop_first() =~= t@.subrange(i + 1, to as int));
        i = i + 1;
    }
    let ghost start = out@;
    let mut j: usize = i;
    while j < to
        invariant
            i <= j <= to <= t@.len(),
            out@ == start + t@.subrange(i as int, j as int),
        decreases to - j,
    {
        out.push(t[j]);
        assert(out@ =~= start + t@.subrange(i as int, j + 1));
        j = j + 1;
    }
    assert(out@ =~= start + t@.subrange(i as int, to as int));
}

/// Where `t[from..to]` ends once its trailing zeros are removed.
fn end_without_trailing_zeros(t: &Vec<char>, from: usize, to: usize) -> (r: usize)
    requires
        from <= to <= t@.len(),
    ensures
        from <= r <= to,
        strip_trailing_zeros(t@.subrange(from as int, to as int)) == t@.subrange(from as int, r as int),
{
    let mut e: usize = to;
    while e > from && t[e - 1] == '0'
        invariant
            from <= e <= to <= t@.len(),
            strip_trailing_zeros(t@.subrange(from as int, to as int)) == strip_trailing_zeros(
                t@.subrange(from as int, e as int),
            ),
        decreases e,
    {
        assert(t@.subrange(from as int, e as int).drop_last() =~= t@.subrange(from as int, e - 1));
        e = e - 1;
    }
    e
}

/// The canonical decimal text of a valid number lexeme (see `canonical_text`).
pub fn canonical_number(t: &Vec<char>) -> (r: Vec<char>)
    requires
        valid_number(t@),
    ensures
        r@ == canonical_text(t@),
{
    let ie = count_digits(t, 0);
    let mut m: usize = ie;
    let dot = ie < t.len() && t[ie] == '.';
    if dot {
        m = ie + 1 + count_digits(t, ie + 1);
    }
    let mut out: Vec<char> = Vec::new();
    push_without_leading_zeros(t, 0, ie, &mut out);
    if out.len() == 0 {
        out.push('0');
    }
    let ghost ip2 = out@;
    if dot {
        let fe = end_without_trailing_zeros(t, ie + 1, m);
        if fe > ie + 1 {
            out.push('.');
            let mut k: usize = ie + 1;
            while k < fe
                invariant
                    ie + 1 <= k <= fe <= m <= t@.len(),
                    out@ == ip2 + seq!['.'] + t@.subrange(ie + 1, k as int),
                decreases fe - k,
            {
                out.push(t[k]);
                assert(out@ =~= ip2 + seq!['.'] + t@.subrange(ie + 1, k + 1));
                k = k + 1;
            }
        }
    }
    let ghost mant = out@;
    if m < t.len() {
        let mut ep: Vec<char> = Vec::new();
        push_without_leading_zeros(t, m + 1, t.len(), &mut ep);
        if ep.len() > 0 {
            out.push('e');
            let mut k: usize = 0;
            while k < ep.len()
                invariant
                    k <= ep@.len(),
                    out@ == mant + seq!['e'] + ep@.subrange(0, k as int),
                decreases ep@.len() - k,
            {
                out.push(ep[k]);
                assert(out@ =~= mant + seq!['e'] + ep@.subrange(0, k + 1));
                k = k + 1;
            }
            assert(ep@.subrange(0, ep@.len() as int) =~= ep@);
        }
    }
    assert(out@ =~= canonical_text(t@));
    out
}

} // verus!
