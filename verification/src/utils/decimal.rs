use vstd::prelude::*;

verus! {

/// The decimal digit for a value in `0..10`.
pub open spec fn digit_text(d: int) -> Seq<char> {
    if d == 0 {
        "0"@
    } else if d == 1 {
        "1"@
    } else if d == 2 {
        "2"@
    } else if d == 3 {
        "3"@
    } else if d == 4 {
        "4"@
    } else if d == 5 {
        "5"@
    } else if d == 6 {
        "6"@
    } else if d == 7 {
        "7"@
    } else if d == 8 {
        "8"@
    } else {
        "9"@
    }
}

/// The decimal digits of a natural number, most significant first, without leading zeros.
pub open spec fn digits(n: nat) -> Seq<char>
    decreases n,
{
    if n < 10 {
        digit_text(n as int)
    } else {
        digits(n / 10) + digit_text((n % 10) as int)
    }
}

/// The text that `Display` writes for an integer: a minus sign for negatives, then the digits.
pub open spec fn decimal(n: int) -> Seq<char> {
    if n < 0 {
        "-"@ + digits((-n) as nat)
    } else {
        digits(n as nat)
    }
}

fn digit_str(d: u64) -> (s: &'static str)
    requires
        d < 10,
    ensures
        s@ == digit_text(d as int),
{
    if d == 0 {
        "0"
    } else if d == 1 {
        "1"
    } else if d == 2 {
        "2"
    } else if d == 3 {
        "3"
    } else if d == 4 {
        "4"
    } else if d == 5 {
        "5"
    } else if d == 6 {
        "6"
    } else if d == 7 {
        "7"
    } else if d == 8 {
        "8"
    } else {
        "9"
    }
}

fn append_digits(s: &mut String, n: u64)
    ensures
        final(s)@ == old(s)@ + digits(n as nat),
    decreases n,
{
    if n >= 10 {
        append_digits(s, n / 10);
    }
    s.append(digit_str(n % 10));
    assert(final(s)@ =~= old(s)@ + digits(n as nat));
}

/// The decimal text of `n`, as `n.to_string()` gives it.
pub fn decimal_text(n: i32) -> (s: String)
    ensures
        s@ == decimal(n as int),
{
    let mut s = String::new();
    if n < 0 {
        s.append("-");
        let magnitude: u64 = (-(n as i64)) as u64;
        append_digits(&mut s, magnitude);
    } else {
        append_digits(&mut s, n as u64);
    }
    s
}

/// The value of a text of decimal digits, each character standing for its code
/// minus the code of `'0'`, most significant first.
pub open spec fn digits_value(s: Seq<char>) -> int
    decreases s.len(),
{
    if s.len() == 0 {
        0
    } else {
        digits_value(s.drop_last()) * 10 + (s.last() as int - 48)
    }
}

/// The digit for `d` in `0..10` is the one character with code `48 + d`
/// (`'0'` to `'9'`).
pub proof fn lemma_digit_text_code(d: int)
    requires
        0 <= d < 10,
    ensures
        digit_text(d).len() == 1,
        digit_text(d)[0] as int == 48 + d,
{
    reveal_strlit("0");
    reveal_strlit("1");
    reveal_strlit("2");
    reveal_strlit("3");
    reveal_strlit("4");
    reveal_strlit("5");
    reveal_strlit("6");
    reveal_strlit("7");
    reveal_strlit("8");
    reveal_strlit("9");
}

/// The digits of `n` read back as `n`: they are a non-empty text of characters
/// `'0'` to `'9'` whose value is `n`.
pub proof fn lemma_digits_round_trip(n: nat)
    ensures
        digits(n).len() > 0,
        forall|i: int| 0 <= i < digits(n).len() ==> 48 <= #[trigger] (digits(n)[i] as int) <= 57,
        digits_value(digits(n)) == n,
    decreases n,
{
    if n < 10 {
        lemma_digit_text_code(n as int);
        let s = digits(n);
        assert(s.drop_last() =~= Seq::<char>::empty());
        assert(digits_value(s) == digits_value(s.drop_last()) * 10 + (s.last() as int - 48));
    } else {
        let q = n / 10;
        let r = n % 10;
        lemma_digits_round_trip(q);
        lemma_digit_text_code(r as int);
        let s = digits(n);
        assert(s == digits(q) + digit_text(r as int));
        assert(s.drop_last() =~= digits(q));
        assert(s.last() == digit_text(r as int)[0]);
        assert forall|i: int| 0 <= i < s.len() implies 48 <= #[trigger] (s[i] as int) <= 57 by {
            if i < digits(q).len() {
                assert(s[i] == digits(q)[i]);
            }
        }
        assert(digits_value(s) == digits_value(digits(q)) * 10 + (s.last() as int - 48));
        assert(q * 10 + r == n) by (nonlinear_arith)
            requires
                q == n / 10,
                r == n % 10,
        ;
    }
}

/// Distinct numbers have distinct decimal texts: a decimal text determines its number.
pub proof fn lemma_decimal_injective(a: int, b: int)
    requires
        decimal(a) == decimal(b),
    ensures
        a == b,
{
    reveal_strlit("-");
    if a < 0 {
        lemma_digits_round_trip((-a) as nat);
        assert(decimal(a).drop_first() =~= digits((-a) as nat));
    } else {
        lemma_digits_round_trip(a as nat);
    }
    if b < 0 {
        lemma_digits_round_trip((-b) as nat);
        assert(decimal(b).drop_first() =~= digits((-b) as nat));
    } else {
        lemma_digits_round_trip(b as nat);
    }
    if a < 0 && b >= 0 {
        assert(decimal(a)[0] == '-');
        assert(48 <= (digits(b as nat)[0] as int) <= 57);
    } else if a >= 0 && b < 0 {
        assert(decimal(b)[0] == '-');
        assert(48 <= (digits(a as nat)[0] as int) <= 57);
    }
}

} // verus!
