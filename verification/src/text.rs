//! Decimal rendering of unsigned integers.

use vstd::prelude::*;
use vstd::string::*;

verus! {

/// The character that stands for the decimal digit `d`.
pub open spec fn digit_char(d: int) -> char {
    if d == 0 {
        '0'
    } else if d == 1 {
        '1'
    } else if d == 2 {
        '2'
    } else if d == 3 {
        '3'
    } else if d == 4 {
        '4'
    } else if d == 5 {
        '5'
    } else if d == 6 {
        '6'
    } else if d == 7 {
        '7'
    } else if d == 8 {
        '8'
    } else {
        '9'
    }
}

/// The decimal numeral of `n`, most significant digit first, without
/// leading zeros (`0` is the single digit `0`).
pub open spec fn decimal(n: nat) -> Seq<char>
    decreases n,
{
    if n < 10 {
        seq![digit_char(n as int)]
    } else {
        decimal(n / 10).push(digit_char((n % 10) as int))
    }
}

/// Every character of a decimal numeral is a digit.
pub proof fn lemma_decimal_is_digits(n: nat)
    ensures
        forall|i: int| 0 <= i < decimal(n).len() ==> '0' <= #[trigger] decimal(n)[i] <= '9',
    decreases n,
{
    if n >= 10 {
        lemma_decimal_is_digits(n / 10);
        let front = decimal(n / 10);
        assert forall|i: int| 0 <= i < decimal(n).len() implies '0' <= #[trigger] decimal(n)[i]
            <= '9' by {
            if i < front.len() {
                assert(decimal(n)[i] == front[i]);
            }
        }
    }
}

/// Ten to the power `k`.
pub open spec fn ten_power(k: nat) -> nat
    decreases k,
{
    if k == 0 {
        1
    } else {
        10 * ten_power((k - 1) as nat)
    }
}

/// A number below ten to the power `k` has at most `k` digits.
pub proof fn lemma_decimal_len(n: nat, k: nat)
    requires
        k >= 1,
        n < ten_power(k),
    ensures
        1 <= decimal(n).len() <= k,
    decreases k,
{
    reveal_with_fuel(ten_power, 2);
    if n >= 10 {
        lemma_decimal_len(n / 10, (k - 1) as nat);
    }
}

/// A number of 64 bits has at most twenty digits.
pub proof fn lemma_decimal_len_u64(n: u64)
    ensures
        1 <= decimal(n as nat).len() <= 20,
{
    assert(ten_power(20) == 100000000000000000000) by {
        reveal_with_fuel(ten_power, 21);
    }
    lemma_decimal_len(n as nat, 20);
}

/// The two-digit numeral of `n`, padded with a zero on the left.
pub open spec fn two_digits(n: nat) -> Seq<char> {
    seq![digit_char((n / 10) as int), digit_char((n % 10) as int)]
}

/// The characters of a string, in order.
pub fn chars_of(s: &str) -> (v: Vec<char>)
    ensures
        v@ == s@,
{
    let mut v: Vec<char> = Vec::new();
    for c in it: s.chars()
        invariant
            it.seq() == s@,
            v@ == it.seq().take(it.index() as int),
    {
        v.push(c);
    }
    v
}

/// The one-character string of a decimal digit.
pub fn digit_str(d: u8) -> (s: &'static str)
    requires
        d < 10,
    ensures
        s@ == seq![digit_char(d as int)],
{
    proof {
        reveal_strlit("0");
        reveal_strlit("1");
        reveal_strlit("2");
        reveal_strlit("3");
        reveal_strlit("4");
        reveal_strlit("5");
        reveal_strlit("6");
        reveal_strlit("7");
        reveal_strlit("8");
        reveal_strlit("9");
    }
    let s = match d {
        0 => "0",
        1 => "1",
        2 => "2",
        3 => "3",
        4 => "4",
        5 => "5",
        6 => "6",
        7 => "7",
        8 => "8",
        _ => "9",
    };
    assert(s@ =~= seq![digit_char(d as int)]);
    s
}

/// Appends the decimal numeral of `n` to `out`.
pub fn push_decimal(out: &mut String, n: u128)
    ensures
        final(out)@ == old(out)@ + decimal(n as nat),
    decreases n,
{
    if n >= 10 {
        push_decimal(out, n / 10);
    }
    out.append(digit_str((n % 10) as u8));
}

/// The decimal numeral of `n` as a string.
pub fn decimal_string(n: u64) -> (s: String)
    ensures
        s@ == decimal(n as nat),
{
    let mut s = String::new();
    push_decimal(&mut s, n as u128);
    s
}

} // verus!
