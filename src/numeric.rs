use vstd::prelude::*;

verus! {

/// Division rounded toward negative infinity.
pub open spec fn floor_div(a: int, b: int) -> int
    recommends
        b != 0,
{
    if b > 0 {
        a / b
    } else {
        (-a) / (-b)
    }
}

/// Division rounded toward positive infinity.
pub open spec fn ceil_div(a: int, b: int) -> int
    recommends
        b != 0,
{
    -floor_div(-a, b)
}

proof fn lemma_div_unique(a: int, b: int, x: int)
    requires
        b > 0,
        x * b <= a < x * b + b,
    ensures
        a / b == x,
{
    assert(a / b == x) by (nonlinear_arith)
        requires
            b > 0,
            x * b <= a,
            a < x * b + b,
    {
    }
}

/// Floor division of magnitudes: the quotient, and whether the division left a remainder.
fn magnitude_div(a: isize, b: isize) -> (r: (u128, bool))
    requires
        b != 0,
    ensures
        ({
            let ua = if a < 0 { -(a as int) } else { a as int };
            let ub = if b < 0 { -(b as int) } else { b as int };
            r.0 == ua / ub && r.1 == (ua % ub != 0) && r.0 <= ua && (r.1 ==> r.0 < ua) && (ub
                >= 2 ==> 2 * r.0 <= ua)
        }),
{
    let ua: u128 = if a < 0 { (-(a as i128)) as u128 } else { a as u128 };
    let ub: u128 = if b < 0 { (-(b as i128)) as u128 } else { b as u128 };
    assert(ua / ub <= ua && (ua % ub != 0 ==> ua / ub < ua) && (ub >= 2 ==> 2 * (ua / ub) <= ua))
        by (nonlinear_arith)
        requires
            ub >= 1,
    {
        assert(ua == ub * (ua / ub) + ua % ub);
    }
    (ua / ub, ua % ub != 0)
}

proof fn lemma_floor_div_from_magnitude(a: int, b: int, q: int, rem: bool)
    requires
        b != 0,
        q == (if a < 0 { -a } else { a }) / (if b < 0 { -b } else { b }),
        rem == ((if a < 0 { -a } else { a }) % (if b < 0 { -b } else { b }) != 0),
    ensures
        ((a < 0) == (b < 0) || a == 0) ==> floor_div(a, b) == q,
        ((a < 0) != (b < 0) && a != 0) ==> floor_div(a, b) == (if rem { -q - 1 } else { -q }),
{
    let ua = if a < 0 { -a } else { a };
    let ub = if b < 0 { -b } else { b };
    let m = ua % ub;
    assert(ua == q * ub + m && 0 <= m < ub) by (nonlinear_arith)
        requires
            ub > 0,
            q == ua / ub,
            m == ua % ub,
    {
    }
    if b > 0 {
        if a < 0 {
            let x = if rem { -q - 1 } else { -q };
            assert(x * b <= a < x * b + b) by (nonlinear_arith)
                requires
                    b == ub,
                    a == -ua,
                    ua == q * ub + m,
                    0 <= m < ub,
                    rem == (m != 0),
                    x == (if rem { -q - 1 } else { -q }),
            {
            }
            lemma_div_unique(a, b, x);
        }
    } else {
        if a > 0 {
            let x = if rem { -q - 1 } else { -q };
            assert(x * (-b) <= -a < x * (-b) + (-b)) by (nonlinear_arith)
                requires
                    -b == ub,
                    a == ua,
                    ua == q * ub + m,
                    0 <= m < ub,
                    rem == (m != 0),
                    x == (if rem { -q - 1 } else { -q }),
            {
            }
            lemma_div_unique(-a, -b, x);
        }
    }
}

/// Floor division on machine integers.
pub fn div_floor(a: isize, b: isize) -> (r: isize)
    requires
        b != 0,
        !(a == isize::MIN && b == -1),
    ensures
        r == floor_div(a as int, b as int),
{
    let (q, rem) = magnitude_div(a, b);
    proof {
        lemma_floor_div_from_magnitude(a as int, b as int, q as int, rem);
    }
    if (a < 0) == (b < 0) || a == 0 {
        q as isize
    } else if rem {
        (-(q as i128) - 1) as isize
    } else {
        (-(q as i128)) as isize
    }
}

/// Division rounded toward positive infinity on machine integers.
pub fn div_ceiling(a: isize, b: isize) -> (r: isize)
    requires
        b != 0,
        !(a == isize::MIN && b == -1),
    ensures
        r == ceil_div(a as int, b as int),
{
    let (q, rem) = magnitude_div(a, b);
    proof {
        lemma_floor_div_from_magnitude(-(a as int), b as int, q as int, rem);
    }
    if (a < 0) == (b < 0) && a != 0 {
        if rem {
            (q + 1) as isize
        } else {
            q as isize
        }
    } else {
        (-(q as i128)) as isize
    }
}

/// The character of a decimal digit.
pub open spec fn digit_char(d: nat) -> char
    recommends
        d < 10,
{
    (d + 48) as char
}

/// Whether a character is a decimal digit.
pub open spec fn is_digit(c: char) -> bool {
    '0' <= c && c <= '9'
}

/// The value of a decimal digit character.
pub open spec fn digit_value(c: char) -> nat {
    (c as int - 48) as nat
}

/// The decimal digits of a natural number, without leading zeros ("0" for zero).
pub open spec fn decimal(n: nat) -> Seq<char>
    decreases n,
{
    if n < 10 {
        seq![digit_char(n)]
    } else {
        decimal(n / 10).push(digit_char(n % 10))
    }
}

/// The decimal form of an integer, with a leading minus sign when negative.
pub open spec fn signed_decimal(n: int) -> Seq<char> {
    if n < 0 {
        seq!['-'] + decimal((-n) as nat)
    } else {
        decimal(n as nat)
    }
}

/// The value of a string of decimal digits.
pub open spec fn digits_value(s: Seq<char>) -> nat
    decreases s.len(),
{
    if s.len() == 0 {
        0
    } else {
        digits_value(s.drop_last()) * 10 + digit_value(s.last())
    }
}

/// Whether every character of a string is a decimal digit.
pub open spec fn all_digits(s: Seq<char>) -> bool {
    forall|i: int| 0 <= i < s.len() ==> is_digit(#[trigger] s[i])
}

pub proof fn lemma_decimal_digits(n: nat)
    ensures
        all_digits(decimal(n)),
        decimal(n).len() >= 1,
        digits_value(decimal(n)) == n,
        decimal(n)[0] != '0' || n == 0,
    decreases n,
{
    if n >= 10 {
        lemma_decimal_digits(n / 10);
        let s = decimal(n);
        assert(s.drop_last() =~= decimal(n / 10));
        assert(digit_value(s.last()) == n % 10);
        assert(digits_value(s) == digits_value(decimal(n / 10)) * 10 + n % 10);
        assert((n / 10) * 10 + n % 10 == n);
    } else {
        assert(digits_value(decimal(n).drop_last()) == 0);
    }
}

/// Writes the decimal digits of `n` after the characters already in `out`.
pub fn push_decimal(out: &mut Vec<char>, n: u64)
    ensures
        final(out)@ == old(out)@ + decimal(n as nat),
    decreases n,
{
    if n < 10 {
        out.push(((n as u8) + 48u8) as char);
        assert(decimal(n as nat) =~= seq![digit_char(n as nat)]);
    } else {
        push_decimal(out, n / 10);
        out.push((((n % 10) as u8) + 48u8) as char);
        assert(decimal(n as nat) == decimal((n / 10) as nat).push(digit_char((n % 10) as nat)));
        assert(final(out)@ =~= old(out)@ + decimal(n as nat));
    }
}

/// Writes the signed decimal form of `n` after the characters already in `out`.
pub fn push_signed_decimal(out: &mut Vec<char>, n: isize)
    ensures
        final(out)@ == old(out)@ + signed_decimal(n as int),
{
    if n < 0 {
        out.push('-');
        let m: u64 = (-(n as i128)) as u64;
        push_decimal(out, m);
    } else {
        push_decimal(out, n as u64);
    }
}

/// Reads a run of decimal digits as an integer, if its value is at most `max`.
pub fn parse_digits(s: &Vec<char>, max: u64) -> (r: Option<u64>)
    requires
        all_digits(s@),
    ensures
        match r {
            Some(v) => s@.len() > 0 && v == digits_value(s@) && v <= max,
            None => s@.len() == 0 || digits_value(s@) > max,
        },
{
    if s.len() == 0 {
        return None;
    }
    let mut acc: u64 = 0;
    let mut i: usize = 0;
    while i < s.len()
        invariant
            0 <= i <= s@.len(),
            all_digits(s@),
            acc == digits_value(s@.take(i as int)),
            acc <= max,
        decreases s@.len() - i,
    {
        let c = s[i];
        let d: u64 = (c as u32 - 48) as u64;
        proof {
            assert(is_digit(s@[i as int]));
            assert(s@.take(i as int + 1).drop_last() =~= s@.take(i as int));
        }
        if d > max || acc > (max - d) / 10 {
            proof {
                assert(acc * 10 + d > max) by (nonlinear_arith)
                    requires
                        d > max || acc > (max - d) / 10,
                        d <= 9,
                        acc >= 0,
                {
                }
                lemma_digits_value_prefix_grows(s@, i as int + 1);
            }
            return None;
        }
        proof {
            assert(acc * 10 + d <= max) by (nonlinear_arith)
                requires
                    acc <= (max - d) / 10,
                    d <= max,
            {
            }
        }
        acc = acc * 10 + d;
        i = i + 1;
    }
    assert(s@.take(s@.len() as int) =~= s@);
    Some(acc)
}

proof fn lemma_digits_value_prefix_grows(s: Seq<char>, k: int)
    requires
        0 <= k <= s.len(),
    ensures
        digits_value(s.take(k)) <= digits_value(s),
    decreases s.len(),
{
    if k < s.len() {
        assert(s.drop_last().take(k) =~= s.take(k));
        lemma_digits_value_prefix_grows(s.drop_last(), k);
    } else {
        assert(s.take(k) =~= s);
    }
}

} // verus!
