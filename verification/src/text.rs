//! Decimal rendering of numbers, and the names that the passes mint.

use vstd::prelude::*;
use vstd::string::*;

verus! {

/// The character of a decimal digit.
pub open spec fn digit(d: nat) -> char {
    if d == 0 {
        '0'
    } else if d == 1 {
        '1'
    } else if d == 2 {
        '2'
    } else if d == 3 {
        '3'
    } else if d == 4 {
        '4'
    } else if d == 5 {
        '5'
    } else if d == 6 {
        '6'
    } else if d == 7 {
        '7'
    } else if d == 8 {
        '8'
    } else {
        '9'
    }
}

/// The decimal numeral of a natural number, without leading zeros.
pub open spec fn decimal(n: nat) -> Seq<char>
    decreases n,
{
    if n < 10 {
        seq![digit(n)]
    } else {
        decimal(n / 10).push(digit(n % 10))
    }
}

/// The number that a digit stands for.
pub open spec fn digit_value(c: char) -> nat {
    (c as u32 - '0' as u32) as nat
}

/// The number that a sequence of digits spells in base ten.
pub open spec fn digits_value(digits: Seq<char>) -> nat
    decreases digits.len(),
{
    if digits.len() == 0 {
        0
    } else {
        digits_value(digits.drop_last()) * 10 + digit_value(digits.last())
    }
}

/// The name that is minted from a base name and a number: the base, a dot
/// and the decimal numeral of the number.
pub open spec fn unique_name(base: Seq<char>, n: nat) -> Seq<char> {
    base + seq!['.'] + decimal(n)
}

/// The decimal numeral of an integer, with a leading `-` when negative.
pub open spec fn signed_decimal(v: int) -> Seq<char> {
    if v < 0 {
        seq!['-'] + decimal((-v) as nat)
    } else {
        decimal(v as nat)
    }
}

fn digit_str(d: u64) -> (s: &'static str)
    requires
        d < 10,
    ensures
        s@ == seq![digit(d as nat)],
{
    proof {
        reveal_strlit("0");
        reveal_strlit("1");
        reveal_strlit("2");
        reveal_strlit("3");
        reveal_strlit("4");
        reveal_strlit("5");
        reveal_strlit("6");
        reveal_strlit("7");
        reveal_strlit("8");
        reveal_strlit("9");
    }
    let s = if d == 0 {
        "0"
    } else if d == 1 {
        "1"
    } else if d == 2 {
        "2"
    } else if d == 3 {
        "3"
    } else if d == 4 {
        "4"
    } else if d == 5 {
        "5"
    } else if d == 6 {
        "6"
    } else if d == 7 {
        "7"
    } else if d == 8 {
        "8"
    } else {
        "9"
    };
    assert(s@ =~= seq![digit(d as nat)]);
    s
}

/// `String::push` appends one character to the string. This is taken from
/// the documentation of the standard library and is not proved here.
pub assume_specification[ String::push ](text: &mut String, character: char)
    ensures
        final(text)@ == old(text)@.push(character),
;

/// Appends the decimal numeral of `n` to `out`.
pub fn push_decimal(out: &mut String, n: u64)
    ensures
        final(out)@ == old(out)@ + decimal(n as nat),
    decreases n,
{
    if n < 10 {
        out.append(digit_str(n));
        assert(out@ =~= old(out)@ + decimal(n as nat));
    } else {
        push_decimal(out, n / 10);
        out.append(digit_str(n % 10));
        assert(out@ =~= old(out)@ + decimal(n as nat));
    }
}

/// Appends the decimal numeral of `v`, with its sign, to `out`.
pub fn push_signed_decimal(out: &mut String, v: i32)
    ensures
        final(out)@ == old(out)@ + signed_decimal(v as int),
{
    if v < 0 {
        proof {
            reveal_strlit("-");
        }
        out.append("-");
        let wide: i64 = v as i64;
        let magnitude: u64 = (-wide) as u64;
        push_decimal(out, magnitude);
        assert(out@ =~= old(out)@ + signed_decimal(v as int));
    } else {
        push_decimal(out, v as u64);
    }
}

/// Mints a name from a base name and a number.
pub fn make_unique_name(base: &str, n: usize) -> (name: String)
    ensures
        name@ == unique_name(base@, n as nat),
{
    proof {
        reveal_strlit(".");
    }
    let mut name = String::from_str(base);
    name.append(".");
    push_decimal(&mut name, n as u64);
    assert(name@ =~= unique_name(base@, n as nat));
    name
}

/// A decimal numeral is not empty, holds no dot, and spells its number.
pub proof fn lemma_decimal(n: nat)
    ensures
        decimal(n).len() > 0,
        forall|i: int| 0 <= i < decimal(n).len() ==> decimal(n)[i] != '.',
        digits_value(decimal(n)) == n,
    decreases n,
{
    if n < 10 {
        assert(decimal(n).drop_last() =~= Seq::<char>::empty());
        assert(digits_value(decimal(n).drop_last()) == 0);
    } else {
        lemma_decimal(n / 10);
        assert(decimal(n).drop_last() =~= decimal(n / 10));
        assert(digit_value(digit(n % 10)) == n % 10);
    }
}

/// Two numbers with the same decimal numeral are the same.
pub proof fn lemma_decimal_injective(m: nat, n: nat)
    requires
        decimal(m) == decimal(n),
    ensures
        m == n,
{
    lemma_decimal(m);
    lemma_decimal(n);
}

/// Two minted names are the same only if they were minted from the same
/// base and the same number.
pub proof fn lemma_unique_name_injective(a: Seq<char>, m: nat, b: Seq<char>, n: nat)
    requires
        unique_name(a, m) == unique_name(b, n),
    ensures
        a == b,
        m == n,
{
    lemma_decimal(m);
    lemma_decimal(n);
    let x = unique_name(a, m);
    let y = unique_name(b, n);
    let dm = decimal(m);
    let dn = decimal(n);
    assert(x.len() == a.len() + 1 + dm.len());
    assert(y.len() == b.len() + 1 + dn.len());
    assert(x[a.len() as int] == '.');
    assert(y[b.len() as int] == '.');
    if a.len() < b.len() {
        // The dot after `b` would stand inside the numeral of `m`.
        assert(x[b.len() as int] == dm[b.len() - a.len() - 1]);
        assert(false);
    }
    if b.len() < a.len() {
        // The dot after `a` would stand inside the numeral of `n`.
        assert(y[a.len() as int] == dn[a.len() - b.len() - 1]);
        assert(false);
    }
    assert(a =~= b) by {
        assert forall|i: int| 0 <= i < a.len() implies a[i] == b[i] by {
            assert(x[i] == a[i]);
            assert(y[i] == b[i]);
        }
    }
    assert(dm =~= dn) by {
        assert forall|i: int| 0 <= i < dm.len() implies dm[i] == dn[i] by {
            assert(x[a.len() + 1 + i] == dm[i]);
            assert(y[b.len() + 1 + i] == dn[i]);
        }
    }
    lemma_decimal_injective(m, n);
}

} // verus!
