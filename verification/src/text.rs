//! Integers written in decimal digits, as file names and messages hold them.

use vstd::prelude::*;
use vstd::string::StringExecFns;

verus! {

/// The character that writes the digit `d`.
pub open spec fn digit(d: int) -> char {
    if d == 0 {
        '0'
    } else if d == 1 {
        '1'
    } else if d == 2 {
        '2'
    } else if d == 3 {
        '3'
    } else if d == 4 {
        '4'
    } else if d == 5 {
        '5'
    } else if d == 6 {
        '6'
    } else if d == 7 {
        '7'
    } else if d == 8 {
        '8'
    } else {
        '9'
    }
}

/// The digits of `n`, the most significant first, without leading zeros.
pub open spec fn natural_digits(n: nat) -> Seq<char>
    decreases n,
{
    if n < 10 {
        seq![digit(n as int)]
    } else {
        natural_digits(n / 10).push(digit(n as int % 10))
    }
}

/// The decimal writing of `n`: a minus sign if it is negative, then its digits.
pub open spec fn decimal(n: int) -> Seq<char> {
    if n < 0 {
        seq!['-'] + natural_digits((-n) as nat)
    } else {
        natural_digits(n as nat)
    }
}

/// The decimal writing of `n`, with a zero in front where it would be a
/// single character.
pub open spec fn two_wide(n: int) -> Seq<char> {
    if 0 <= n < 10 {
        seq!['0'] + decimal(n)
    } else {
        decimal(n)
    }
}

/// A number has at least one digit, two from ten on, and no minus sign
/// among them.
pub proof fn lemma_natural_digits_shape(n: nat)
    ensures
        natural_digits(n).len() >= 1,
        n >= 10 ==> natural_digits(n).len() >= 2,
        forall|i: int| 0 <= i < natural_digits(n).len() ==> natural_digits(n)[i] != '-',
    decreases n,
{
    if n >= 10 {
        lemma_natural_digits_shape(n / 10);
    }
}

/// Different digits are written differently.
pub proof fn lemma_digit_injective(a: int, b: int)
    requires
        0 <= a < 10,
        0 <= b < 10,
        digit(a) == digit(b),
    ensures
        a == b,
{
}

/// Different numbers have different digits.
pub proof fn lemma_natural_digits_injective(a: nat, b: nat)
    requires
        natural_digits(a) == natural_digits(b),
    ensures
        a == b,
    decreases a,
{
    lemma_natural_digits_shape(a);
    lemma_natural_digits_shape(b);
    if a >= 10 && b >= 10 {
        assert(natural_digits(a / 10) == natural_digits(a).drop_last());
        assert(natural_digits(b / 10) == natural_digits(b).drop_last());
        assert(digit(a as int % 10) == natural_digits(a).last());
        assert(digit(b as int % 10) == natural_digits(b).last());
        lemma_natural_digits_injective(a / 10, b / 10);
        lemma_digit_injective(a as int % 10, b as int % 10);
    } else if a < 10 && b < 10 {
        assert(digit(a as int) == natural_digits(a)[0]);
        assert(digit(b as int) == natural_digits(b)[0]);
        lemma_digit_injective(a as int, b as int);
    } else {
        assert(natural_digits(a).len() != natural_digits(b).len());
    }
}

/// Different integers are written differently.
pub proof fn lemma_decimal_injective(a: int, b: int)
    requires
        decimal(a) == decimal(b),
    ensures
        a == b,
{
    let ma = (if a < 0 { -a } else { a }) as nat;
    let mb = (if b < 0 { -b } else { b }) as nat;
    lemma_natural_digits_shape(ma);
    lemma_natural_digits_shape(mb);
    assert(natural_digits(ma)[0] != '-');
    assert(natural_digits(mb)[0] != '-');
    assert(decimal(a)[0] == decimal(b)[0]);
    if a < 0 {
        assert(decimal(a)[0] == '-');
        assert(b < 0);
        assert(natural_digits(ma) == decimal(a).subrange(1, decimal(a).len() as int));
        assert(natural_digits(mb) == decimal(b).subrange(1, decimal(b).len() as int));
    } else {
        assert(decimal(a)[0] == natural_digits(ma)[0]);
        assert(b >= 0);
    }
    lemma_natural_digits_injective(ma, mb);
}

/// The text that writes the digit `d`.
pub fn digit_text(d: u8) -> (text: &'static str)
    requires
        d < 10,
    ensures
        text@ == seq![digit(d as int)],
{
    proof {
        reveal_strlit("0");
        reveal_strlit("1");
        reveal_strlit("2");
        reveal_strlit("3");
        reveal_strlit("4");
        reveal_strlit("5");
        reveal_strlit("6");
        reveal_strlit("7");
        reveal_strlit("8");
        reveal_strlit("9");
    }
    let text = if d == 0 {
        "0"
    } else if d == 1 {
        "1"
    } else if d == 2 {
        "2"
    } else if d == 3 {
        "3"
    } else if d == 4 {
        "4"
    } else if d == 5 {
        "5"
    } else if d == 6 {
        "6"
    } else if d == 7 {
        "7"
    } else if d == 8 {
        "8"
    } else {
        "9"
    };
    assert(text@ =~= seq![digit(d as int)]);
    text
}

/// Appends the digits of `n` to `out`.
pub fn append_natural(out: &mut String, n: u64)
    ensures
        final(out)@ == old(out)@ + natural_digits(n as nat),
    decreases n,
{
    if n >= 10 {
        append_natural(out, n / 10);
    }
    let last: u8 = (n % 10) as u8;
    out.append(digit_text(last));
    assert(out@ =~= old(out)@ + natural_digits(n as nat));
}

/// Appends the decimal writing of `n` to `out`.
pub fn append_decimal(out: &mut String, n: i64)
    ensures
        final(out)@ == old(out)@ + decimal(n as int),
{
    if n < 0 {
        proof {
            reveal_strlit("-");
        }
        out.append("-");
        let magnitude: u64 = if n == i64::MIN {
            9_223_372_036_854_775_808u64
        } else {
            (-n) as u64
        };
        append_natural(out, magnitude);
        assert(out@ =~= old(out)@ + decimal(n as int));
    } else {
        append_natural(out, n as u64);
    }
}

/// Appends the decimal writing of `n` to `out`, at least two characters wide.
pub fn append_two_wide(out: &mut String, n: i64)
    ensures
        final(out)@ == old(out)@ + two_wide(n as int),
{
    if 0 <= n && n < 10 {
        proof {
            reveal_strlit("0");
        }
        out.append("0");
        append_decimal(out, n);
        assert(out@ =~= old(out)@ + two_wide(n as int));
    } else {
        append_decimal(out, n);
    }
}

} // verus!
