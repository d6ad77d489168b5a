//! Decimal text of integers: the formatting that `to_string` / `{}` produce and
//! the parsing that `str::parse` performs for `i64` and `usize`.

use vstd::prelude::*;
use crate::text::push_char;

verus! {

pub open spec fn is_digit(c: char) -> bool {
    48 <= c as u32 <= 57
}

pub open spec fn digit_value(c: char) -> nat {
    (c as u32 - 48) as nat
}

/// The decimal digit character for `d < 10`.
pub open spec fn digit_char(d: nat) -> char {
    (d + 48) as char
}

pub open spec fn all_digits(s: Seq<char>) -> bool {
    forall|i: int| 0 <= i < s.len() ==> is_digit(#[trigger] s[i])
}

/// The number that a string of decimal digits denotes.
pub open spec fn digits_value(s: Seq<char>) -> nat
    decreases s.len(),
{
    if s.len() == 0 {
        0
    } else {
        digits_value(s.drop_last()) * 10 + digit_value(s.last())
    }
}

/// The shortest decimal text of `n`.
pub open spec fn decimal(n: nat) -> Seq<char>
    decreases n,
{
    if n < 10 {
        seq![digit_char(n)]
    } else {
        decimal(n / 10).push(digit_char(n % 10))
    }
}

/// The decimal text of a signed number (with a leading `-` when negative).
pub open spec fn signed_decimal(n: int) -> Seq<char> {
    if n < 0 {
        seq!['-'] + decimal((-n) as nat)
    } else {
        decimal(n as nat)
    }
}

/// What `str::parse::<i64>` accepts: an optional `+` or `-`, then at least one
/// decimal digit, and a value in range.
pub open spec fn parse_i64(s: Seq<char>) -> Option<i64> {
    if s.len() == 0 {
        None
    } else {
        let neg = s[0] == '-';
        let d = if s[0] == '-' || s[0] == '+' {
            s.skip(1)
        } else {
            s
        };
        if d.len() == 0 || !all_digits(d) {
            None
        } else {
            let v: int = if neg {
                -(digits_value(d) as int)
            } else {
                digits_value(d) as int
            };
            if i64::MIN <= v <= i64::MAX {
                Some(v as i64)
            } else {
                None
            }
        }
    }
}

/// What `str::parse::<usize>` accepts: an optional `+`, then at least one
/// decimal digit, and a value in range.
pub open spec fn parse_usize(s: Seq<char>) -> Option<usize> {
    if s.len() == 0 {
        None
    } else {
        let d = if s[0] == '+' {
            s.skip(1)
        } else {
            s
        };
        if d.len() == 0 || !all_digits(d) {
            None
        } else if digits_value(d) <= usize::MAX {
            Some(digits_value(d) as usize)
        } else {
            None
        }
    }
}

pub proof fn lemma_decimal_digits(n: nat)
    ensures
        decimal(n).len() > 0,
        all_digits(decimal(n)),
        digits_value(decimal(n)) == n,
    decreases n,
{
    assert(digit_char(n % 10) as u32 == n % 10 + 48);
    if n >= 10 {
        lemma_decimal_digits(n / 10);
        let d = decimal(n / 10);
        assert(decimal(n).drop_last() =~= d);
        assert(decimal(n).last() == digit_char(n % 10));
        assert((n / 10) * 10 + n % 10 == n);
        assert(digit_value(digit_char(n % 10)) == n % 10);
        assert(digits_value(decimal(n)) == digits_value(d) * 10 + digit_value(decimal(n).last()));
        assert forall|i: int| 0 <= i < decimal(n).len() implies is_digit(#[trigger] decimal(n)[i]) by {
            if i < d.len() {
                assert(decimal(n)[i] == d[i]);
            }
        }
    } else {
        assert(decimal(n).drop_last() =~= Seq::<char>::empty());
        assert(digit_value(digit_char(n)) == n);
        assert(digits_value(decimal(n)) == digits_value(Seq::<char>::empty()) * 10 + digit_value(decimal(n).last()));
    }
}

/// Decimal text holds no character other than digits (and a leading `-`).
pub proof fn lemma_signed_decimal_no(n: int, c: char)
    requires
        !is_digit(c),
        c != '-',
    ensures
        !signed_decimal(n).contains(c),
{
    let m: nat = if n < 0 {
        (-n) as nat
    } else {
        n as nat
    };
    lemma_decimal_digits(m);
    if signed_decimal(n).contains(c) {
        let i = choose|i: int| 0 <= i < signed_decimal(n).len() && signed_decimal(n)[i] == c;
        if n < 0 {
            assert(signed_decimal(n)[i] == (seq!['-'] + decimal(m))[i]);
            assert(i > 0);
            assert(decimal(m)[i - 1] == c);
        } else {
            assert(decimal(m)[i] == c);
        }
    }
}

/// Parsing gives back what formatting produced.
pub proof fn lemma_parse_signed_decimal(n: i64)
    ensures
        parse_i64(signed_decimal(n as int)) == Some(n),
{
    let s = signed_decimal(n as int);
    if n < 0 {
        let m = (-(n as int)) as nat;
        lemma_decimal_digits(m);
        assert(s.skip(1) =~= decimal(m));
        assert(s[0] == '-');
    } else {
        lemma_decimal_digits(n as nat);
        assert(is_digit(s[0]));
    }
}

proof fn lemma_digits_value_prefix_monotone(s: Seq<char>, k: int, m: int)
    requires
        0 <= k <= m <= s.len(),
    ensures
        digits_value(s.take(k)) <= digits_value(s.take(m)),
    decreases m - k,
{
    if k < m {
        lemma_digits_value_prefix_monotone(s, k, m - 1);
        assert(s.take(m).drop_last() =~= s.take(m - 1));
    }
}

proof fn lemma_digits_value_step(s: Seq<char>, k: int)
    requires
        0 <= k < s.len(),
    ensures
        digits_value(s.take(k + 1)) == digits_value(s.take(k)) * 10 + digit_value(s[k]),
{
    assert(s.take(k + 1).drop_last() =~= s.take(k));
}

/// The value of the digits `v[start..]`, when every one is a digit and the
/// value is at most `bound`.
fn digits_up_to(v: &Vec<char>, start: usize, bound: u64) -> (r: Option<u64>)
    requires
        start <= v@.len(),
    ensures
        match r {
            Some(x) => all_digits(v@.skip(start as int)) && x == digits_value(v@.skip(start as int))
                && x <= bound,
            None => !all_digits(v@.skip(start as int)) || digits_value(v@.skip(start as int))
                > bound,
        },
{
    let ghost d = v@.skip(start as int);
    let n = v.len();
    let mut acc: u64 = 0;
    let mut i: usize = start;
    while i < n
        invariant
            n == v@.len(),
            start <= i <= n,
            d == v@.skip(start as int),
            all_digits(d.take(i - start)),
            acc == digits_value(d.take(i - start)),
            acc <= bound,
        decreases n - i,
    {
        let c = v[i];
        let code = c as u32;
        let ghost k: int = i - start;
        assert(d[k] == c);
        if code < 48 || code > 57 {
            assert(!is_digit(d[k]));
            return None;
        }
        let dv = (code - 48) as u64;
        proof {
            lemma_digits_value_step(d, k);
        }
        if acc > bound / 10 || dv > bound - acc * 10 {
            proof {
                assert(acc <= bound / 10 ==> acc * 10 <= bound) by (nonlinear_arith);
                assert(acc * 10 + dv > bound) by (nonlinear_arith)
                    requires
                        acc > bound / 10 || (acc * 10 <= bound && dv > bound - acc * 10),
                        dv <= 9,
                ;
                lemma_digits_value_prefix_monotone(d, k + 1, d.len() as int);
                assert(d.take(d.len() as int) =~= d);
            }
            return None;
        }
        acc = acc * 10 + dv;
        i = i + 1;
        assert forall|j: int| 0 <= j < i - start implies is_digit(#[trigger] d.take(i - start)[j]) by {
            if j < k {
                assert(d.take(i - start)[j] == d.take(k)[j]);
            }
        }
    }
    assert(d.take(n - start) =~= d);
    Some(acc)
}

/// `str::parse::<i64>`.
pub fn parse_i64_str(s: &str) -> (r: Option<i64>)
    ensures
        r == parse_i64(s@),
{
    let v = crate::text::chars_of(s);
    if v.len() == 0 {
        return None;
    }
    let neg = v[0] == '-';
    let start: usize = if v[0] == '-' || v[0] == '+' {
        1
    } else {
        0
    };
    assert(v@.skip(start as int) =~= if s@[0] == '-' || s@[0] == '+' {
        s@.skip(1)
    } else {
        s@
    });
    if start == v.len() {
        return None;
    }
    let bound: u64 = if neg {
        0x8000_0000_0000_0000
    } else {
        0x7fff_ffff_ffff_ffff
    };
    match digits_up_to(&v, start, bound) {
        None => None,
        Some(x) => {
            if neg {
                if x == 0x8000_0000_0000_0000 {
                    Some(i64::MIN)
                } else {
                    let y = x as i64;
                    Some(-y)
                }
            } else {
                Some(x as i64)
            }
        },
    }
}

/// `str::parse::<usize>`.
pub fn parse_usize_str(s: &str) -> (r: Option<usize>)
    ensures
        r == parse_usize(s@),
{
    let v = crate::text::chars_of(s);
    if v.len() == 0 {
        return None;
    }
    let start: usize = if v[0] == '+' {
        1
    } else {
        0
    };
    assert(v@.skip(start as int) =~= if s@[0] == '+' {
        s@.skip(1)
    } else {
        s@
    });
    if start == v.len() {
        return None;
    }
    let bound: u64 = if usize::MAX as u64 == u64::MAX {
        u64::MAX
    } else {
        usize::MAX as u64
    };
    match digits_up_to(&v, start, bound) {
        None => None,
        Some(x) => Some(x as usize),
    }
}

/// Append the decimal text of `n`.
pub fn push_decimal(s: &mut String, n: u128)
    ensures
        final(s)@ == old(s)@ + decimal(n as nat),
    decreases n,
{
    if n >= 10 {
        push_decimal(s, n / 10);
    }
    let d = (n % 10) as u32;
    let c = crate::text::char_from_ascii_code(48 + d);
    push_char(s, c);
    assert(decimal(n as nat) =~= if n >= 10 {
        decimal((n / 10) as nat).push(c)
    } else {
        seq![c]
    });
}

/// The decimal text of an unsigned number (`n.to_string()`).
pub fn usize_to_string(n: usize) -> (r: String)
    ensures
        r@ == decimal(n as nat),
{
    let mut s = String::new();
    push_decimal(&mut s, n as u128);
    assert(s@ =~= decimal(n as nat));
    s
}

/// The decimal text of a 128-bit unsigned number (`n.to_string()`).
pub fn u128_to_string(n: u128) -> (r: String)
    ensures
        r@ == decimal(n as nat),
{
    let mut s = String::new();
    push_decimal(&mut s, n);
    assert(s@ =~= decimal(n as nat));
    s
}

/// The decimal text of a signed number (`n.to_string()`).
pub fn i64_to_string(n: i64) -> (r: String)
    ensures
        r@ == signed_decimal(n as int),
{
    let mut s = String::new();
    if n < 0 {
        push_char(&mut s, '-');
        let m: u64 = if n == i64::MIN {
            0x8000_0000_0000_0000
        } else {
            (-n) as u64
        };
        push_decimal(&mut s, m as u128);
    } else {
        push_decimal(&mut s, n as u128);
        assert(s@ =~= decimal(n as nat));
    }
    s
}

} // verus!
