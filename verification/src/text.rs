//! Texts: the characters of strings, and numbers in decimal.

use vstd::prelude::*;

verus! {

/// The texts of a list of strings.
pub open spec fn texts(lines: Seq<String>) -> Seq<Seq<char>> {
    lines.map_values(|s: String| s@)
}

/// The character for a decimal digit.
pub open spec fn digit_char(d: nat) -> char
    recommends
        d < 10,
{
    (d + 48) as char
}

/// The decimal digits of a natural number, without leading zeros.
pub open spec fn digits(n: nat) -> Seq<char>
    decreases n,
{
    if n < 10 {
        seq![digit_char(n)]
    } else {
        digits(n / 10).push(digit_char(n % 10))
    }
}

/// The decimal text of an integer: a minus sign for a negative number, then
/// the digits of its magnitude.
pub open spec fn decimal(v: int) -> Seq<char> {
    if v < 0 {
        seq!['-'] + digits((-v) as nat)
    } else {
        digits(v as nat)
    }
}

/// Appends the decimal digits of `n` to `s`.
pub fn push_digits(s: &mut String, n: u32)
    ensures
        final(s)@ == old(s)@ + digits(n as nat),
{
    let mut rest: u32 = n / 10;
    let mut low: Vec<char> = Vec::new();
    low.push(((n % 10) as u8 + 48u8) as char);
    while rest > 0
        invariant
            low@.len() >= 1,
            digits(n as nat) == if rest > 0 {
                digits(rest as nat) + low@.reverse()
            } else {
                low@.reverse()
            },
        decreases rest,
    {
        let ghost before = low@;
        low.push(((rest % 10) as u8 + 48u8) as char);
        proof {
            let d = digit_char((rest % 10) as nat);
            assert(low@.reverse() =~= seq![d] + before.reverse());
            if rest >= 10 {
                assert(digits(rest as nat) =~= digits((rest / 10) as nat).push(d));
                assert(digits((rest / 10) as nat).push(d) + before.reverse() =~= digits(
                    (rest / 10) as nat,
                ) + low@.reverse());
            } else {
                assert(digits(rest as nat) + before.reverse() =~= low@.reverse());
            }
        }
        rest = rest / 10;
    }
    let mut k: usize = low.len();
    while k > 0
        invariant
            k <= low@.len(),
            s@ == old(s)@ + low@.reverse().take(low@.len() - k),
        decreases k,
    {
        k = k - 1;
        s.push(low[k]);
        proof {
            let r = low@.reverse();
            let j = low@.len() - k - 1;
            assert(r[j] == low@[k as int]);
            assert(r.take(j + 1) =~= r.take(j).push(r[j]));
            assert((old(s)@ + r.take(j)).push(r[j]) =~= old(s)@ + r.take(j + 1));
        }
    }
    assert(low@.reverse().take(low@.len() as int) =~= low@.reverse());
}

/// Appends the decimal text of `v` to `s`.
pub fn push_decimal(s: &mut String, v: i32)
    ensures
        final(s)@ == old(s)@ + decimal(v as int),
{
    if v < 0 {
        s.push('-');
        let m: u32 = (-(v as i64)) as u32;
        push_digits(s, m);
        assert(old(s)@.push('-') + digits(m as nat) =~= old(s)@ + (seq!['-'] + digits(m as nat)));
    } else {
        push_digits(s, v as u32);
    }
}

/// The decimal text of `v`.
pub fn decimal_string(v: i32) -> (s: String)
    ensures
        s@ == decimal(v as int),
{
    let mut s = String::new();
    push_decimal(&mut s, v);
    assert(Seq::<char>::empty() + decimal(v as int) =~= decimal(v as int));
    s
}

/// Appends the characters of `t` to `s`.
pub fn push_str(s: &mut String, t: &str)
    ensures
        final(s)@ == old(s)@ + t@,
{
    s.append(t);
}

} // verus!
