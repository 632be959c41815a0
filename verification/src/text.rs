//! Text building blocks for log and error messages.

use vstd::prelude::*;
use vstd::string::StringExecFns;

verus! {

/// The elements of `all` that differ from `item`, in their order.
pub open spec fn without<T>(all: Seq<T>, item: T) -> Seq<T>
    decreases all.len(),
{
    if all.len() == 0 {
        all
    } else if all.last() == item {
        without(all.drop_last(), item)
    } else {
        without(all.drop_last(), item).push(all.last())
    }
}

/// The character of a single decimal digit.
pub open spec fn digit_char(d: nat) -> char {
    if d == 0 {
        '0'
    } else if d == 1 {
        '1'
    } else if d == 2 {
        '2'
    } else if d == 3 {
        '3'
    } else if d == 4 {
        '4'
    } else if d == 5 {
        '5'
    } else if d == 6 {
        '6'
    } else if d == 7 {
        '7'
    } else if d == 8 {
        '8'
    } else {
        '9'
    }
}

/// The decimal digits of a natural number, most significant first.
pub open spec fn decimal_digits(n: nat) -> Seq<char>
    decreases n,
{
    if n < 10 {
        seq![digit_char(n)]
    } else {
        decimal_digits(n / 10).push(digit_char(n % 10))
    }
}

/// The decimal text of an integer, with a leading minus sign when negative.
pub open spec fn decimal_text(n: int) -> Seq<char> {
    if n < 0 {
        seq!['-'] + decimal_digits((-n) as nat)
    } else {
        decimal_digits(n as nat)
    }
}

/// The text of a single decimal digit.
fn digit_text(d: u64) -> (s: &'static str)
    requires
        d < 10,
    ensures
        s@ == seq![digit_char(d as nat)],
{
    proof {
        reveal_strlit("0");
        reveal_strlit("1");
        reveal_strlit("2");
        reveal_strlit("3");
        reveal_strlit("4");
        reveal_strlit("5");
        reveal_strlit("6");
        reveal_strlit("7");
        reveal_strlit("8");
        reveal_strlit("9");
    }
    let s = if d == 0 {
        "0"
    } else if d == 1 {
        "1"
    } else if d == 2 {
        "2"
    } else if d == 3 {
        "3"
    } else if d == 4 {
        "4"
    } else if d == 5 {
        "5"
    } else if d == 6 {
        "6"
    } else if d == 7 {
        "7"
    } else if d == 8 {
        "8"
    } else {
        "9"
    };
    assert(s@ =~= seq![digit_char(d as nat)]);
    s
}

/// `left`, followed by the decimal digits of `n`.
fn join_digits(left: String, n: u64) -> (s: String)
    ensures
        s@ == left@ + decimal_digits(n as nat),
    decreases n,
{
    if n < 10 {
        join(left, digit_text(n))
    } else {
        let front = join_digits(left, n / 10);
        let s = join(front, digit_text(n % 10));
        assert(s@ =~= left@ + decimal_digits(n as nat));
        s
    }
}

/// The decimal text of `n`: its digits in base ten, without padding, with a
/// minus sign in front of a negative number.
pub(crate) fn number_text(n: i64) -> (s: String)
    ensures
        s@ == decimal_text(n as int),
{
    proof {
        reveal_strlit("-");
        reveal_strlit("");
    }
    if n < 0 {
        let size: u64 = (-(n as i128)) as u64;
        let s = join_digits(String::from_str("-"), size);
        assert(s@ =~= decimal_text(n as int));
        s
    } else {
        let s = join_digits(String::from_str(""), n as u64);
        assert(s@ =~= decimal_text(n as int));
        s
    }
}

/// Concatenation of two texts.
pub fn join(mut left: String, right: &str) -> (s: String)
    ensures
        s@ == left@ + right@,
{
    left.append(right);
    left
}

/// `left`, followed by the decimal text of `n`.
pub fn join_number(left: String, n: i64) -> (s: String)
    ensures
        s@ == left@ + decimal_text(n as int),
{
    let digits = number_text(n);
    join(left, digits.as_str())
}

} // verus!
