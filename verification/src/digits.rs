//! Exact decimal renderings of integers and scaled decimals.
//!
//! The host constructs its arbitrary-precision integers and decimals from
//! these strings, so they must be exact: no truncation and no floating-point
//! intermediate anywhere.

use vstd::prelude::*;

verus! {

/// The decimal digit character for `d`.
pub open spec fn digit_char(d: int) -> char {
    if d == 0 {
        '0'
    } else if d == 1 {
        '1'
    } else if d == 2 {
        '2'
    } else if d == 3 {
        '3'
    } else if d == 4 {
        '4'
    } else if d == 5 {
        '5'
    } else if d == 6 {
        '6'
    } else if d == 7 {
        '7'
    } else if d == 8 {
        '8'
    } else {
        '9'
    }
}

/// Decimal digits of `n`, most significant first, with no leading zero
/// except for `n == 0` itself.
pub open spec fn dec_digits(n: nat) -> Seq<char>
    decreases n,
{
    if n < 10 {
        seq![digit_char(n as int)]
    } else {
        dec_digits(n / 10) + seq![digit_char((n % 10) as int)]
    }
}

/// Exactly `width` decimal digits of `n`, most significant first, padded on
/// the left with zeros.
pub open spec fn fixed_digits(n: nat, width: nat) -> Seq<char>
    decreases width,
{
    if width == 0 {
        Seq::empty()
    } else {
        fixed_digits(n / 10, (width - 1) as nat) + seq![digit_char((n % 10) as int)]
    }
}

/// Decimal rendering of a signed integer: a `-` sign for negative values,
/// then the digits of the magnitude.
pub open spec fn dec_string_int(n: int) -> Seq<char> {
    if n < 0 {
        seq!['-'] + dec_digits((-n) as nat)
    } else {
        dec_digits(n as nat)
    }
}

/// `10^k`.
pub open spec fn pow10(k: nat) -> int
    decreases k,
{
    if k == 0 {
        1
    } else {
        10 * pow10((k - 1) as nat)
    }
}

/// The unsigned part of a decimal rendering: integer digits, then — for a
/// positive scale — the point and the fixed-width fractional digits.
pub open spec fn decimal_body(m: nat, scale: nat) -> Seq<char> {
    let p = pow10(scale) as nat;
    if scale == 0 {
        dec_digits(m)
    } else {
        dec_digits(m / p) + seq!['.'] + fixed_digits(m % p, scale)
    }
}

/// The exact string form of `unscaled * 10^-scale`: sign, integer part,
/// and — when the scale is positive — a point followed by exactly `scale`
/// fractional digits.
pub open spec fn decimal_chars(unscaled: int, scale: nat) -> Seq<char> {
    let body = decimal_body(vstd::math::abs(unscaled) as nat, scale);
    if unscaled < 0 {
        seq!['-'] + body
    } else {
        body
    }
}

pub proof fn lemma_pow10_pos(k: nat)
    ensures
        pow10(k) >= 1,
    decreases k,
{
    if k > 0 {
        lemma_pow10_pos((k - 1) as nat);
    }
}

/// `pow10` grows by a factor of at least ten per step, so it is strictly
/// monotone in the exponent.
pub proof fn lemma_pow10_mono(a: nat, b: nat)
    requires
        a <= b,
    ensures
        pow10(a) <= pow10(b),
    decreases b,
{
    if a < b {
        lemma_pow10_mono(a, (b - 1) as nat);
        lemma_pow10_pos((b - 1) as nat);
    }
}

/// The ten characters that a digit position can hold.
pub open spec fn is_digit_char(c: char) -> bool {
    c == '0' || c == '1' || c == '2' || c == '3' || c == '4' || c == '5' || c == '6' || c == '7'
        || c == '8' || c == '9'
}

/// A variable-width rendering is never empty, grows one digit per factor of
/// ten, and holds digit characters only.
pub proof fn lemma_dec_digits_basic(n: nat)
    ensures
        dec_digits(n).len() >= 1,
        n < 10 ==> dec_digits(n).len() == 1,
        n >= 10 ==> dec_digits(n).len() >= 2,
        forall|i: int| 0 <= i < dec_digits(n).len() ==> is_digit_char(#[trigger] dec_digits(n)[i]),
    decreases n,
{
    if n >= 10 {
        lemma_dec_digits_basic(n / 10);
    }
}

/// A fixed-width rendering has exactly its width and holds digit characters
/// only.
pub proof fn lemma_fixed_digits_basic(n: nat, w: nat)
    ensures
        fixed_digits(n, w).len() == w,
        forall|i: int| 0 <= i < w ==> is_digit_char(#[trigger] fixed_digits(n, w)[i]),
    decreases w,
{
    if w > 0 {
        lemma_fixed_digits_basic(n / 10, (w - 1) as nat);
    }
}

/// Distinct numbers have distinct digit renderings.
pub proof fn lemma_dec_digits_injective(a: nat, b: nat)
    requires
        dec_digits(a) == dec_digits(b),
    ensures
        a == b,
    decreases a,
{
    lemma_dec_digits_basic(a);
    lemma_dec_digits_basic(b);
    if a < 10 && b < 10 {
        assert(dec_digits(a)[0] == digit_char(a as int));
        assert(dec_digits(b)[0] == digit_char(b as int));
    } else if a >= 10 && b >= 10 {
        let la = dec_digits(a).len() as int;
        let lb = dec_digits(b).len() as int;
        lemma_dec_digits_basic(a / 10);
        lemma_dec_digits_basic(b / 10);
        assert(dec_digits(a)[la - 1] == digit_char((a % 10) as int));
        assert(dec_digits(b)[lb - 1] == digit_char((b % 10) as int));
        assert(a % 10 == b % 10);
        assert(dec_digits(a).subrange(0, la - 1) =~= dec_digits(a / 10));
        assert(dec_digits(b).subrange(0, lb - 1) =~= dec_digits(b / 10));
        lemma_dec_digits_injective(a / 10, b / 10);
        vstd::arithmetic::div_mod::lemma_fundamental_div_mod(a as int, 10);
        vstd::arithmetic::div_mod::lemma_fundamental_div_mod(b as int, 10);
    }
}

/// Distinct numbers below `10^w` have distinct fixed-width renderings.
pub proof fn lemma_fixed_digits_injective(a: nat, b: nat, w: nat)
    requires
        a < pow10(w),
        b < pow10(w),
        fixed_digits(a, w) == fixed_digits(b, w),
    ensures
        a == b,
    decreases w,
{
    if w == 0 {
    } else {
        lemma_fixed_digits_basic(a / 10, (w - 1) as nat);
        lemma_fixed_digits_basic(b / 10, (w - 1) as nat);
        assert(fixed_digits(a, w)[w - 1] == digit_char((a % 10) as int));
        assert(fixed_digits(b, w)[w - 1] == digit_char((b % 10) as int));
        assert(a % 10 == b % 10);
        assert(fixed_digits(a, w).subrange(0, w - 1) =~= fixed_digits(a / 10, (w - 1) as nat));
        assert(fixed_digits(b, w).subrange(0, w - 1) =~= fixed_digits(b / 10, (w - 1) as nat));
        assert(a < 10 * pow10((w - 1) as nat));
        assert(b < 10 * pow10((w - 1) as nat));
        vstd::arithmetic::div_mod::lemma_multiply_divide_lt(a as int, 10, pow10((w - 1) as nat));
        vstd::arithmetic::div_mod::lemma_multiply_divide_lt(b as int, 10, pow10((w - 1) as nat));
        lemma_fixed_digits_injective(a / 10, b / 10, (w - 1) as nat);
        vstd::arithmetic::div_mod::lemma_fundamental_div_mod(a as int, 10);
        vstd::arithmetic::div_mod::lemma_fundamental_div_mod(b as int, 10);
    }
}

/// Distinct signed integers have distinct decimal renderings: the sign
/// character is not a digit, so the sign and the magnitude are both
/// recoverable from the string.
pub proof fn lemma_dec_string_int_injective(a: int, b: int)
    requires
        dec_string_int(a) == dec_string_int(b),
    ensures
        a == b,
{
    lemma_dec_digits_basic(vstd::math::abs(a) as nat);
    lemma_dec_digits_basic(vstd::math::abs(b) as nat);
    if a < 0 && b < 0 {
        assert(dec_string_int(a).subrange(1, dec_string_int(a).len() as int) =~= dec_digits(
            (-a) as nat,
        ));
        assert(dec_string_int(b).subrange(1, dec_string_int(b).len() as int) =~= dec_digits(
            (-b) as nat,
        ));
        lemma_dec_digits_injective((-a) as nat, (-b) as nat);
    } else if a >= 0 && b >= 0 {
        lemma_dec_digits_injective(a as nat, b as nat);
    } else if a < 0 {
        assert(dec_string_int(a)[0] == '-');
        assert(is_digit_char(dec_string_int(b)[0]));
    } else {
        assert(dec_string_int(b)[0] == '-');
        assert(is_digit_char(dec_string_int(a)[0]));
    }
}

/// Distinct (unscaled, scale) pairs render to distinct decimal strings: the
/// sign, the point's position, and each digit are all recoverable, so the
/// host can re-encode the value it received without losing anything.
pub proof fn lemma_decimal_chars_injective(u1: int, s1: nat, u2: int, s2: nat)
    requires
        decimal_chars(u1, s1) == decimal_chars(u2, s2),
    ensures
        u1 == u2,
        s1 == s2,
{
    let m1 = vstd::math::abs(u1) as nat;
    let m2 = vstd::math::abs(u2) as nat;
    let body1 = decimal_body(m1, s1);
    let body2 = decimal_body(m2, s2);
    lemma_decimal_body_basic(m1, s1);
    lemma_decimal_body_basic(m2, s2);
    if u1 < 0 && u2 >= 0 {
        assert(decimal_chars(u1, s1)[0] == '-');
        assert(decimal_chars(u2, s2)[0] == body2[0]);
        assert(false);
    } else if u1 >= 0 && u2 < 0 {
        assert(decimal_chars(u2, s2)[0] == '-');
        assert(decimal_chars(u1, s1)[0] == body1[0]);
        assert(false);
    } else if u1 < 0 && u2 < 0 {
        assert(body1 =~= decimal_chars(u1, s1).subrange(1, decimal_chars(u1, s1).len() as int));
        assert(body2 =~= decimal_chars(u2, s2).subrange(1, decimal_chars(u2, s2).len() as int));
    }
    assert(body1 == body2);
    lemma_decimal_body_injective(m1, s1, m2, s2);
    assert(m1 == m2 && s1 == s2);
}

/// A decimal body starts with a digit, and contains a point exactly where
/// the scale puts one.
pub proof fn lemma_decimal_body_basic(m: nat, scale: nat)
    ensures
        decimal_body(m, scale).len() >= 1,
        is_digit_char(decimal_body(m, scale)[0]),
        scale == 0 ==> forall|i: int|
            0 <= i < decimal_body(m, scale).len() ==> is_digit_char(
                #[trigger] decimal_body(m, scale)[i],
            ),
{
    let p = pow10(scale) as nat;
    lemma_pow10_pos(scale);
    if scale == 0 {
        lemma_dec_digits_basic(m);
    } else {
        lemma_dec_digits_basic(m / p);
    }
}

/// Distinct (magnitude, scale) pairs have distinct decimal bodies.
pub proof fn lemma_decimal_body_injective(m1: nat, s1: nat, m2: nat, s2: nat)
    requires
        decimal_body(m1, s1) == decimal_body(m2, s2),
    ensures
        m1 == m2,
        s1 == s2,
{
    let p1 = pow10(s1) as nat;
    let p2 = pow10(s2) as nat;
    lemma_pow10_pos(s1);
    lemma_pow10_pos(s2);
    let t = decimal_body(m1, s1);
    if s1 == 0 && s2 == 0 {
        lemma_dec_digits_injective(m1, m2);
    } else if s1 == 0 && s2 > 0 {
        lemma_dec_digits_basic(m1);
        lemma_dec_digits_basic(m2 / p2);
        assert(t[dec_digits(m2 / p2).len() as int] == '.');
        assert(is_digit_char(t[dec_digits(m2 / p2).len() as int]));
        assert(false);
    } else if s1 > 0 && s2 == 0 {
        lemma_dec_digits_basic(m2);
        lemma_dec_digits_basic(m1 / p1);
        assert(t[dec_digits(m1 / p1).len() as int] == '.');
        assert(is_digit_char(t[dec_digits(m1 / p1).len() as int]));
        assert(false);
    } else {
        let d1 = dec_digits(m1 / p1);
        let d2 = dec_digits(m2 / p2);
        let f1 = fixed_digits(m1 % p1, s1);
        let f2 = fixed_digits(m2 % p2, s2);
        lemma_dec_digits_basic(m1 / p1);
        lemma_dec_digits_basic(m2 / p2);
        lemma_fixed_digits_basic(m1 % p1, s1);
        lemma_fixed_digits_basic(m2 % p2, s2);
        let l1 = d1.len() as int;
        let l2 = d2.len() as int;
        assert(t[l1] == '.');
        assert(decimal_body(m2, s2)[l2] == '.');
        if l1 < l2 {
            assert(t[l1] == d2[l1]);
            assert(is_digit_char(d2[l1]));
            assert(false);
        }
        if l2 < l1 {
            assert(t[l2] == d1[l2]);
            assert(is_digit_char(d1[l2]));
            assert(false);
        }
        assert(l1 == l2);
        assert(t.len() == l1 + 1 + s1 && t.len() == l2 + 1 + s2);
        assert(s1 == s2);
        assert(d1 =~= t.subrange(0, l1));
        assert(d2 =~= t.subrange(0, l2));
        lemma_dec_digits_injective(m1 / p1, m2 / p2);
        assert(f1 =~= t.subrange(l1 + 1, t.len() as int));
        assert(f2 =~= t.subrange(l2 + 1, t.len() as int));
        vstd::arithmetic::div_mod::lemma_mod_bound(m1 as int, p1 as int);
        vstd::arithmetic::div_mod::lemma_mod_bound(m2 as int, p2 as int);
        lemma_fixed_digits_injective(m1 % p1, m2 % p2, s1);
        vstd::arithmetic::div_mod::lemma_fundamental_div_mod(m1 as int, p1 as int);
        vstd::arithmetic::div_mod::lemma_fundamental_div_mod(m2 as int, p2 as int);
        assert(m1 == m2);
    }
}

/// Where `pow10` stands relative to the largest 128-bit machine value:
/// thirty-eight digits still fit, thirty-nine never do.
pub proof fn lemma_pow10_machine_bounds()
    ensures
        pow10(38) < u128::MAX as int,
        pow10(39) > u128::MAX as int,
{
    assert(pow10(38) == 100000000000000000000000000000000000000 && pow10(39)
        == 1000000000000000000000000000000000000000) by {
        reveal_with_fuel(pow10, 40);
    }
}

/// Appends the digit character for `d` to `s`.
fn push_digit(s: &mut String, d: u8)
    requires
        d < 10,
    ensures
        final(s)@ == old(s)@ + seq![digit_char(d as int)],
{
    match d {
        0 => {
            s.append("0");
            proof {
                reveal_strlit("0");
                assert(s@ =~= old(s)@ + seq![digit_char(d as int)]);
            }
        },
        1 => {
            s.append("1");
            proof {
                reveal_strlit("1");
                assert(s@ =~= old(s)@ + seq![digit_char(d as int)]);
            }
        },
        2 => {
            s.append("2");
            proof {
                reveal_strlit("2");
                assert(s@ =~= old(s)@ + seq![digit_char(d as int)]);
            }
        },
        3 => {
            s.append("3");
            proof {
                reveal_strlit("3");
                assert(s@ =~= old(s)@ + seq![digit_char(d as int)]);
            }
        },
        4 => {
            s.append("4");
            proof {
                reveal_strlit("4");
                assert(s@ =~= old(s)@ + seq![digit_char(d as int)]);
            }
        },
        5 => {
            s.append("5");
            proof {
                reveal_strlit("5");
                assert(s@ =~= old(s)@ + seq![digit_char(d as int)]);
            }
        },
        6 => {
            s.append("6");
            proof {
                reveal_strlit("6");
                assert(s@ =~= old(s)@ + seq![digit_char(d as int)]);
            }
        },
        7 => {
            s.append("7");
            proof {
                reveal_strlit("7");
                assert(s@ =~= old(s)@ + seq![digit_char(d as int)]);
            }
        },
        8 => {
            s.append("8");
            proof {
                reveal_strlit("8");
                assert(s@ =~= old(s)@ + seq![digit_char(d as int)]);
            }
        },
        _ => {
            s.append("9");
            proof {
                reveal_strlit("9");
                assert(s@ =~= old(s)@ + seq![digit_char(d as int)]);
            }
        },
    }
}

/// Appends the decimal digits of `n` to `s`, most significant first.
fn append_dec_u128(s: &mut String, n: u128)
    ensures
        final(s)@ == old(s)@ + dec_digits(n as nat),
    decreases n,
{
    if n < 10 {
        push_digit(s, n as u8);
    } else {
        append_dec_u128(s, n / 10);
        push_digit(s, (n % 10) as u8);
        proof {
            assert(s@ =~= old(s)@ + dec_digits(n as nat));
        }
    }
}

/// Appends exactly `width` zero-padded decimal digits of `n` to `s`.
fn append_fixed_u128(s: &mut String, n: u128, width: u8)
    ensures
        final(s)@ == old(s)@ + fixed_digits(n as nat, width as nat),
    decreases width,
{
    if width > 0 {
        append_fixed_u128(s, n / 10, width - 1);
        push_digit(s, (n % 10) as u8);
        proof {
            assert(s@ =~= old(s)@ + fixed_digits(n as nat, width as nat));
        }
    } else {
        proof {
            assert(s@ =~= old(s)@ + fixed_digits(n as nat, 0));
        }
    }
}

/// The magnitude of `v` as an unsigned value; exact even for the most
/// negative representable input.
fn magnitude_u128(v: i128) -> (m: u128)
    ensures
        m as int == vstd::math::abs(v as int),
{
    if v >= 0 {
        v as u128
    } else {
        ((-(v + 1)) as u128) + 1
    }
}

/// `10^k` as a machine value.
fn pow10_u128(k: u8) -> (p: u128)
    requires
        k <= 38,
    ensures
        p as int == pow10(k as nat),
{
    let mut p: u128 = 1;
    let mut i: u8 = 0;
    while i < k
        invariant
            i <= k <= 38,
            p as int == pow10(i as nat),
        decreases k - i,
    {
        proof {
            lemma_pow10_mono((i + 1) as nat, 38);
            lemma_pow10_machine_bounds();
        }
        p = p * 10;
        i = i + 1;
    }
    p
}

/// The exact decimal rendering of a signed integer, as the host's
/// arbitrary-precision integer constructor reads it.
pub fn integer_string(v: i128) -> (s: String)
    ensures
        s@ == dec_string_int(v as int),
{
    let mut s = String::new();
    if v < 0 {
        s.append("-");
        proof {
            reveal_strlit("-");
        }
    }
    let m = magnitude_u128(v);
    append_dec_u128(&mut s, m);
    proof {
        assert(s@ =~= dec_string_int(v as int));
    }
    s
}

/// The exact string form of `unscaled * 10^-scale`, never routed through a
/// binary floating-point intermediate.
pub fn decimal_string(unscaled: i128, scale: u8) -> (s: String)
    ensures
        s@ == decimal_chars(unscaled as int, scale as nat),
{
    let mut s = String::new();
    if unscaled < 0 {
        s.append("-");
        proof {
            reveal_strlit("-");
        }
    }
    let m = magnitude_u128(unscaled);
    if scale == 0 {
        append_dec_u128(&mut s, m);
    } else if scale <= 38 {
        let p = pow10_u128(scale);
        proof {
            lemma_pow10_pos(scale as nat);
        }
        append_dec_u128(&mut s, m / p);
        s.append(".");
        proof {
            reveal_strlit(".");
        }
        append_fixed_u128(&mut s, m % p, scale);
    } else {
        // 10^39 already exceeds every magnitude a 128-bit value can hold, so
        // the integer part is zero and the fractional digits are the whole
        // magnitude.
        proof {
            lemma_pow10_machine_bounds();
            lemma_pow10_mono(39, scale as nat);
            lemma_pow10_pos(scale as nat);
            vstd::arithmetic::div_mod::lemma_basic_div(m as int, pow10(scale as nat));
            vstd::arithmetic::div_mod::lemma_small_mod(m as nat, pow10(scale as nat) as nat);
        }
        append_dec_u128(&mut s, 0);
        s.append(".");
        proof {
            reveal_strlit(".");
        }
        append_fixed_u128(&mut s, m, scale);
    }
    proof {
        assert(s@ =~= decimal_chars(unscaled as int, scale as nat));
    }
    s
}

} // verus!
