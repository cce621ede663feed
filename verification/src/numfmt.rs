//! Decimal rendering of counts: an exact decimal string and an
//! abbreviated form (`1.2k`, `2.0m`) for large magnitudes.

use vstd::prelude::*;

verus! {

/// The character for a single decimal digit value.
pub open spec fn digit_char(d: nat) -> char {
    if d == 0 {
        '0'
    } else if d == 1 {
        '1'
    } else if d == 2 {
        '2'
    } else if d == 3 {
        '3'
    } else if d == 4 {
        '4'
    } else if d == 5 {
        '5'
    } else if d == 6 {
        '6'
    } else if d == 7 {
        '7'
    } else if d == 8 {
        '8'
    } else {
        '9'
    }
}

/// Decimal digit sequence of a non-negative integer, most significant first.
pub open spec fn dec_digits(n: nat) -> Seq<char>
    decreases n,
{
    if n < 10 {
        seq![digit_char(n)]
    } else {
        dec_digits(n / 10) + seq![digit_char(n % 10)]
    }
}

/// Decimal string of a signed integer, with a leading minus sign when negative.
pub open spec fn int_string(n: int) -> Seq<char> {
    if n < 0 {
        seq!['-'] + dec_digits((-n) as nat)
    } else {
        dec_digits(n as nat)
    }
}

/// `a / b` rounded to the nearest integer, ties to even (`b > 0`).
pub open spec fn round_half_even(a: nat, b: nat) -> nat
    recommends
        b > 0,
{
    let q = a / b;
    let r = a % b;
    if 2 * r > b || (2 * r == b && q % 2 == 1) {
        q + 1
    } else {
        q
    }
}

/// One-decimal fixed-point rendering of `n / scale`, rounded half to even:
/// the integer part, a dot, one fractional digit.
pub open spec fn one_decimal(n: nat, scale: nat) -> Seq<char>
    recommends
        scale > 0,
{
    let t = round_half_even(n * 10, scale);
    dec_digits(t / 10) + seq!['.'] + seq![digit_char(t % 10)]
}

/// Sign prefix of an integer: `-` when negative, nothing otherwise.
pub open spec fn sign_prefix(n: int) -> Seq<char> {
    if n < 0 {
        seq!['-']
    } else {
        Seq::<char>::empty()
    }
}

/// The abbreviated form of a count: millions get one decimal and an `m`,
/// thousands one decimal and a `k`, small magnitudes the exact decimal string.
pub open spec fn abbreviated(n: int) -> Seq<char> {
    let m = if n < 0 {
        (-n) as nat
    } else {
        n as nat
    };
    if m >= 1000000 {
        sign_prefix(n) + one_decimal(m, 1000000) + seq!['m']
    } else if m >= 1000 {
        sign_prefix(n) + one_decimal(m, 1000) + seq!['k']
    } else {
        int_string(n)
    }
}

/// A one-character string for a decimal digit value.
fn digit_str(d: u64) -> (r: &'static str)
    requires
        d < 10,
    ensures
        r@ == seq![digit_char(d as nat)],
{
    proof {
        reveal_strlit("0");
        reveal_strlit("1");
        reveal_strlit("2");
        reveal_strlit("3");
        reveal_strlit("4");
        reveal_strlit("5");
        reveal_strlit("6");
        reveal_strlit("7");
        reveal_strlit("8");
        reveal_strlit("9");
    }
    let r = if d == 0 {
        "0"
    } else if d == 1 {
        "1"
    } else if d == 2 {
        "2"
    } else if d == 3 {
        "3"
    } else if d == 4 {
        "4"
    } else if d == 5 {
        "5"
    } else if d == 6 {
        "6"
    } else if d == 7 {
        "7"
    } else if d == 8 {
        "8"
    } else {
        "9"
    };
    proof {
        assert(r@ =~= seq![digit_char(d as nat)]);
    }
    r
}

/// Decimal string of a `u64`.
pub fn u64_to_string(n: u64) -> (s: String)
    ensures
        s@ == dec_digits(n as nat),
    decreases n,
{
    if n < 10 {
        digit_str(n).to_owned()
    } else {
        let mut s = u64_to_string(n / 10);
        s.append(digit_str(n % 10));
        proof {
            assert(s@ =~= dec_digits(n as nat));
        }
        s
    }
}

/// Decimal string of an `i64`, with a leading minus sign when negative.
pub fn i64_to_string(n: i64) -> (s: String)
    ensures
        s@ == int_string(n as int),
{
    if n < 0 {
        let m: u64 = (-(n as i128)) as u64;
        let mut s = String::from_str("-");
        proof {
            reveal_strlit("-");
        }
        let d = u64_to_string(m);
        s.append(d.as_str());
        proof {
            assert(s@ =~= int_string(n as int));
        }
        s
    } else {
        u64_to_string(n as u64)
    }
}

/// Magnitude of an `i64` as a `u64`.
fn abs_u64(n: i64) -> (m: u64)
    ensures
        m == (if n < 0 {
            (-(n as int)) as nat
        } else {
            n as nat
        }),
{
    if n < 0 {
        (-(n as i128)) as u64
    } else {
        n as u64
    }
}

/// `m / scale` rendered with one decimal digit, rounded half to even.
fn one_decimal_string(m: u64, scale: u64) -> (s: String)
    requires
        m <= 0x8000000000000000,
        1000 <= scale <= 1000000,
    ensures
        s@ == one_decimal(m as nat, scale as nat),
{
    let wide: u128 = (m as u128) * 10;
    let q = wide / (scale as u128);
    let r = wide % (scale as u128);
    proof {
        assert(1000 * q <= (scale as u128) * q) by (nonlinear_arith)
            requires
                scale >= 1000,
                q >= 0,
        ;
        vstd::arithmetic::div_mod::lemma_fundamental_div_mod(wide as int, scale as int);
    }
    let rounded = if 2 * r > scale as u128 || (2 * r == scale as u128 && q % 2 == 1) {
        q + 1
    } else {
        q
    };
    let a: u64 = rounded as u64;
    let mut s = u64_to_string(a / 10);
    s.append(".");
    proof {
        reveal_strlit(".");
    }
    s.append(digit_str(a % 10));
    proof {
        assert(s@ =~= one_decimal(m as nat, scale as nat));
    }
    s
}

/// Renders a count both ways: abbreviated (`m` for millions, `k` for
/// thousands, one rounded decimal digit each) and exact.
///
/// Counts of magnitude under one thousand abbreviate to the exact string.
pub fn format_num(num: i64) -> (r: (String, String))
    ensures
        r.0@ == abbreviated(num as int),
        r.1@ == int_string(num as int),
        -1000 < num < 1000 ==> r.0@ == r.1@,
{
    let exact = i64_to_string(num);
    let m = abs_u64(num);
    let truncated = if m >= 1000000 {
        let mut s = if num < 0 {
            String::from_str("-")
        } else {
            String::new()
        };
        proof {
            reveal_strlit("-");
        }
        let d = one_decimal_string(m, 1000000);
        s.append(d.as_str());
        s.append("m");
        proof {
            reveal_strlit("m");
            assert(s@ =~= abbreviated(num as int));
        }
        s
    } else if m >= 1000 {
        let mut s = if num < 0 {
            String::from_str("-")
        } else {
            String::new()
        };
        proof {
            reveal_strlit("-");
        }
        let d = one_decimal_string(m, 1000);
        s.append(d.as_str());
        s.append("k");
        proof {
            reveal_strlit("k");
            assert(s@ =~= abbreviated(num as int));
        }
        s
    } else {
        let s = i64_to_string(num);
        s
    };
    (truncated, exact)
}


/// Decimal digit value of a digit character.
pub open spec fn digit_val(c: char) -> nat {
    if c == '0' {
        0
    } else if c == '1' {
        1
    } else if c == '2' {
        2
    } else if c == '3' {
        3
    } else if c == '4' {
        4
    } else if c == '5' {
        5
    } else if c == '6' {
        6
    } else if c == '7' {
        7
    } else if c == '8' {
        8
    } else {
        9
    }
}

/// Value of the decimal digits of `s` from `i` on, accumulating onto
/// `acc`; nothing when a non-digit appears or no digit at all follows
/// a position inside the text.
pub open spec fn dec_value_from(s: Seq<char>, i: int, acc: nat) -> Option<nat>
    decreases s.len() - i,
{
    if i < 0 || i > s.len() {
        None
    } else if i == s.len() {
        Some(acc)
    } else if crate::urls::is_digit(s[i]) {
        dec_value_from(s, i + 1, acc * 10 + digit_val(s[i]))
    } else {
        None
    }
}

/// The value of a digit run never falls below its accumulator.
proof fn lemma_dec_value_ge(s: Seq<char>, i: int, acc: nat)
    requires
        dec_value_from(s, i, acc) is Some,
    ensures
        dec_value_from(s, i, acc)->Some_0 >= acc,
    decreases s.len() - i,
{
    if 0 <= i < s.len() && crate::urls::is_digit(s[i]) {
        lemma_dec_value_ge(s, i + 1, acc * 10 + digit_val(s[i]));
    }
}

/// The unsigned integer a string denotes: an optional leading plus
/// sign, then one or more decimal digits, value within range.
pub open spec fn spec_parse_u64(s: Seq<char>) -> Option<u64> {
    let start: int = if s.len() > 0 && s[0] == '+' {
        1
    } else {
        0
    };
    if s.len() == start {
        None
    } else {
        match dec_value_from(s, start, 0) {
            Option::Some(v) => if v <= u64::MAX {
                Some(v as u64)
            } else {
                None
            },
            Option::None => None,
        }
    }
}

/// Parses an unsigned decimal integer, with an optional leading plus
/// sign; rejects anything else, including out-of-range values.
pub fn parse_u64(s: &str) -> (r: Option<u64>)
    ensures
        r == spec_parse_u64(s@),
{
    let n = s.unicode_len();
    let start: usize = if n > 0 && s.get_char(0) == '+' {
        1
    } else {
        0
    };
    if n == start {
        return None;
    }
    let mut i: usize = start;
    let mut acc: u128 = 0;
    while i < n
        invariant
            n == s@.len(),
            start as int == (if s@.len() > 0 && s@[0] == '+' {
                1int
            } else {
                0int
            }),
            start < n,
            start <= i <= n,
            acc <= u64::MAX,
            dec_value_from(s@, start as int, 0) == dec_value_from(s@, i as int, acc as nat),
        decreases n - i,
    {
        let c = s.get_char(i);
        let d: u128 = if c == '0' {
            0
        } else if c == '1' {
            1
        } else if c == '2' {
            2
        } else if c == '3' {
            3
        } else if c == '4' {
            4
        } else if c == '5' {
            5
        } else if c == '6' {
            6
        } else if c == '7' {
            7
        } else if c == '8' {
            8
        } else if c == '9' {
            9
        } else {
            proof {
                assert(!crate::urls::is_digit(s@[i as int]));
            }
            return None;
        };
        proof {
            assert(crate::urls::is_digit(s@[i as int]));
            assert(d == digit_val(s@[i as int]));
        }
        acc = acc * 10 + d;
        i += 1;
        if acc > 0xffffffffffffffff {
            proof {
                if dec_value_from(s@, i as int, acc as nat) is Some {
                    lemma_dec_value_ge(s@, i as int, acc as nat);
                }
            }
            return None;
        }
    }
    Some(acc as u64)
}

} // verus!
