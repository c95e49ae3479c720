//! Numbers written in decimal, padded with zeros to a width.

use vstd::prelude::*;
use vstd::string::*;

verus! {

/// The character that stands for a digit.
pub open spec fn digit_char(d: nat) -> char {
    if d == 0 {
        '0'
    } else if d == 1 {
        '1'
    } else if d == 2 {
        '2'
    } else if d == 3 {
        '3'
    } else if d == 4 {
        '4'
    } else if d == 5 {
        '5'
    } else if d == 6 {
        '6'
    } else if d == 7 {
        '7'
    } else if d == 8 {
        '8'
    } else {
        '9'
    }
}

/// The digit that a character stands for; 0 for any other character.
pub open spec fn digit_value(c: char) -> nat {
    if c == '1' {
        1
    } else if c == '2' {
        2
    } else if c == '3' {
        3
    } else if c == '4' {
        4
    } else if c == '5' {
        5
    } else if c == '6' {
        6
    } else if c == '7' {
        7
    } else if c == '8' {
        8
    } else if c == '9' {
        9
    } else {
        0
    }
}

/// The decimal digits of `n`, the most significant first, without leading
/// zeros.
pub open spec fn digits(n: nat) -> Seq<char>
    decreases n,
{
    if n < 10 {
        seq![digit_char(n)]
    } else {
        digits(n / 10).push(digit_char(n % 10))
    }
}

/// `k` zeros.
pub open spec fn zeros(k: nat) -> Seq<char> {
    Seq::new(k, |i: int| '0')
}

/// The decimal digits of `n`, with zeros in front up to `width` characters.
pub open spec fn padded(n: nat, width: nat) -> Seq<char> {
    if digits(n).len() < width {
        zeros((width - digits(n).len()) as nat) + digits(n)
    } else {
        digits(n)
    }
}

/// The number that a row of digits stands for.
pub open spec fn value_of(s: Seq<char>) -> nat
    decreases s.len(),
{
    if s.len() == 0 {
        0
    } else {
        value_of(s.drop_last()) * 10 + digit_value(s.last())
    }
}

/// A number is what its digits stand for.
pub proof fn lemma_value_of_digits(n: nat)
    ensures
        value_of(digits(n)) == n,
        digits(n).len() >= 1,
    decreases n,
{
    if n < 10 {
        let s = digits(n);
        assert(s.drop_last() =~= Seq::<char>::empty());
        assert(value_of(s.drop_last()) == 0);
    } else {
        lemma_value_of_digits(n / 10);
        let s = digits(n);
        assert(s.drop_last() =~= digits(n / 10));
        assert(s.last() == digit_char(n % 10));
    }
}

/// Zeros in front leave the number unchanged.
pub proof fn lemma_value_of_zeros(k: nat, s: Seq<char>)
    ensures
        value_of(zeros(k) + s) == value_of(s),
    decreases s.len(), k,
{
    let t = zeros(k) + s;
    if s.len() == 0 {
        assert(t =~= zeros(k));
        if k > 0 {
            assert(zeros(k).drop_last() =~= zeros((k - 1) as nat) + s);
            lemma_value_of_zeros((k - 1) as nat, s);
        }
    } else {
        assert(t.drop_last() =~= zeros(k) + s.drop_last());
        lemma_value_of_zeros(k, s.drop_last());
    }
}

/// Two numbers that are written alike are one number.
pub proof fn lemma_padded_injective(m: nat, n: nat, width: nat)
    requires
        padded(m, width) == padded(n, width),
    ensures
        m == n,
{
    lemma_value_of_digits(m);
    lemma_value_of_digits(n);
    if digits(m).len() < width {
        lemma_value_of_zeros((width - digits(m).len()) as nat, digits(m));
    }
    if digits(n).len() < width {
        lemma_value_of_zeros((width - digits(n).len()) as nat, digits(n));
    }
}

/// The text of one digit.
fn digit_text(d: usize) -> (s: &'static str)
    requires
        d < 10,
    ensures
        s@ == seq![digit_char(d as nat)],
{
    proof {
        reveal_strlit("0");
        reveal_strlit("1");
        reveal_strlit("2");
        reveal_strlit("3");
        reveal_strlit("4");
        reveal_strlit("5");
        reveal_strlit("6");
        reveal_strlit("7");
        reveal_strlit("8");
        reveal_strlit("9");
    }
    let s = if d == 0 {
        "0"
    } else if d == 1 {
        "1"
    } else if d == 2 {
        "2"
    } else if d == 3 {
        "3"
    } else if d == 4 {
        "4"
    } else if d == 5 {
        "5"
    } else if d == 6 {
        "6"
    } else if d == 7 {
        "7"
    } else if d == 8 {
        "8"
    } else {
        "9"
    };
    assert(s@ =~= seq![digit_char(d as nat)]);
    s
}

/// Appends the decimal digits of `n` to `out`.
pub fn push_digits(out: &mut String, n: usize)
    ensures
        final(out)@ == old(out)@ + digits(n as nat),
    decreases n,
{
    if n >= 10 {
        push_digits(out, n / 10);
    }
    out.append(digit_text(n % 10));
    assert(out@ =~= old(out)@ + digits(n as nat));
}

/// How many decimal digits `n` has.
pub fn digit_count(n: usize) -> (k: usize)
    ensures
        k == digits(n as nat).len(),
{
    let mut k: usize = 1;
    let mut rest: usize = n;
    while rest >= 10
        invariant
            1 <= k,
            k + rest <= n + 1,
            k + digits(rest as nat).len() == digits(n as nat).len() + 1,
        decreases rest,
    {
        rest = rest / 10;
        k = k + 1;
    }
    k
}

/// The decimal digits of `n`, with zeros in front up to `width` characters,
/// appended to `out`.
pub fn push_padded(out: &mut String, n: usize, width: usize)
    ensures
        final(out)@ == old(out)@ + padded(n as nat, width as nat),
{
    let k: usize = digit_count(n);
    let mut i: usize = k;
    proof {
        reveal_strlit("0");
        assert(out@ + zeros(0) =~= out@);
    }
    while i < width
        invariant
            k <= i,
            i <= width || i == k,
            out@ == old(out)@ + zeros((i - k) as nat),
        decreases width - i,
    {
        out.append("0");
        i = i + 1;
        proof {
            reveal_strlit("0");
            assert(out@ =~= old(out)@ + zeros((i - k) as nat));
        }
    }
    push_digits(out, n);
    proof {
        if k < width {
            assert(out@ =~= old(out)@ + (zeros((width - k) as nat) + digits(n as nat)));
        } else {
            assert(out@ =~= old(out)@ + digits(n as nat));
        }
    }
}

} // verus!
