//! Decimal digits: what a run of digits denotes, and how a number is written.

use vstd::prelude::*;

verus! {

/// `c` is one of the ten ASCII digits.
pub open spec fn is_digit(c: char) -> bool {
    '0' <= c <= '9'
}

/// Every character of `s` is an ASCII digit.
pub open spec fn all_digits(s: Seq<char>) -> bool {
    forall|i: int| 0 <= i < s.len() ==> is_digit(#[trigger] s[i])
}

/// The number that the digit `c` denotes.
pub open spec fn digit_value(c: char) -> nat {
    (c as int - '0' as int) as nat
}

/// The digit that denotes `d`.
pub open spec fn digit_char(d: nat) -> char {
    ('0' as int + d) as char
}

/// The number that a run of digits denotes; the empty run denotes zero.
pub open spec fn digits_value(s: Seq<char>) -> nat
    decreases s.len(),
{
    if s.len() == 0 {
        0
    } else {
        10 * digits_value(s.drop_last()) + digit_value(s.last())
    }
}

/// Ten to the power of `k`.
pub open spec fn pow10(k: nat) -> nat
    decreases k,
{
    if k == 0 {
        1
    } else {
        10 * pow10((k - 1) as nat)
    }
}

/// `n` in decimal without leading zeros; zero is `0`.
pub open spec fn decimal_digits(n: nat) -> Seq<char>
    decreases n,
{
    if n < 10 {
        seq![digit_char(n)]
    } else {
        decimal_digits(n / 10).push(digit_char(n % 10))
    }
}

/// The last `width` decimal digits of `n`, with leading zeros.
pub open spec fn padded_digits(n: nat, width: nat) -> Seq<char>
    decreases width,
{
    if width == 0 {
        Seq::empty()
    } else {
        padded_digits(n / 10, (width - 1) as nat).push(digit_char(n % 10))
    }
}

/// Writing a number in decimal and reading the digits back gives the number.
pub proof fn decimal_digits_denote(n: nat)
    ensures
        all_digits(decimal_digits(n)),
        decimal_digits(n).len() > 0,
        digits_value(decimal_digits(n)) == n,
    decreases n,
{
    let s = decimal_digits(n);
    if n < 10 {
        assert(s.drop_last() =~= Seq::<char>::empty());
        assert(digits_value(s.drop_last()) == 0);
    } else {
        decimal_digits_denote(n / 10);
        assert(s.drop_last() =~= decimal_digits(n / 10));
    }
}

/// A number that fits into `width` digits is what its padded digits denote.
pub proof fn padded_digits_denote(n: nat, width: nat)
    requires
        n < pow10(width),
    ensures
        all_digits(padded_digits(n, width)),
        padded_digits(n, width).len() == width,
        digits_value(padded_digits(n, width)) == n,
    decreases width,
{
    if width > 0 {
        padded_digits_denote(n / 10, (width - 1) as nat);
        assert(padded_digits(n, width).drop_last() =~= padded_digits(n / 10, (width - 1) as nat));
    }
}

/// A number read from digits without a needless zero in front is written with those digits.
pub proof fn digits_are_written_back(s: Seq<char>)
    requires
        all_digits(s),
        s.len() > 0,
        s.len() > 1 ==> s[0] != '0',
    ensures
        decimal_digits(digits_value(s)) == s,
        s.len() > 1 ==> digits_value(s) >= 10,
    decreases s.len(),
{
    let rest = s.drop_last();
    let d = digit_value(s.last());
    assert(is_digit(s.last()));
    assert(digit_char(d) == s.last());
    assert(digits_value(s) == digits_value(rest) * 10 + d);
    if s.len() == 1 {
        assert(rest =~= Seq::<char>::empty());
        assert(digits_value(rest) == 0);
        assert(decimal_digits(digits_value(s)) =~= s);
    } else {
        assert(all_digits(rest));
        assert(rest[0] == s[0]);
        digits_are_written_back(rest);
        if rest.len() == 1 {
            assert(is_digit(rest[0]));
            assert(rest.drop_last() =~= Seq::<char>::empty());
            assert(digits_value(rest.drop_last()) == 0);
            assert(digits_value(rest) >= 1);
        }
        let n = digits_value(s);
        assert(n / 10 == digits_value(rest) && n % 10 == d);
        assert(decimal_digits(n) =~= s);
    }
}

/// A number read from digits is padded to those digits.
pub proof fn digits_are_padded_back(s: Seq<char>)
    requires
        all_digits(s),
    ensures
        padded_digits(digits_value(s), s.len()) == s,
    decreases s.len(),
{
    if s.len() > 0 {
        let rest = s.drop_last();
        let d = digit_value(s.last());
        assert(all_digits(rest));
        assert(is_digit(s.last()));
        digits_are_padded_back(rest);
        let n = digits_value(s);
        assert(n == digits_value(rest) * 10 + d);
        assert(n / 10 == digits_value(rest) && n % 10 == d);
        assert(digit_char(d) == s.last());
        assert(padded_digits(n, s.len()) =~= s);
    } else {
        assert(padded_digits(digits_value(s), s.len()) =~= s);
    }
}

/// A run of `k` digits denotes a number below ten to the power of `k`.
pub proof fn digits_value_bounded(s: Seq<char>)
    requires
        all_digits(s),
    ensures
        digits_value(s) < pow10(s.len()),
    decreases s.len(),
{
    if s.len() > 0 {
        assert(all_digits(s.drop_last()));
        digits_value_bounded(s.drop_last());
        assert(is_digit(s.last()));
    }
}

/// Taking more digits never makes the number smaller.
pub proof fn digits_value_grows(s: Seq<char>, i: int)
    requires
        0 <= i <= s.len(),
    ensures
        digits_value(s.take(i)) <= digits_value(s),
    decreases s.len() - i,
{
    if i < s.len() {
        digits_value_grows(s, i + 1);
        assert(s.take(i + 1).drop_last() =~= s.take(i));
    } else {
        assert(s.take(i) =~= s);
    }
}

/// The character of a digit below ten.
fn digit(d: u64) -> (c: char)
    requires
        d < 10,
    ensures
        c == digit_char(d as nat),
{
    (('0' as u8) + d as u8) as char
}

/// Appends `n` in decimal.
pub(crate) fn push_decimal(out: &mut String, n: u64)
    ensures
        final(out)@ == old(out)@ + decimal_digits(n as nat),
    decreases n,
{
    if n < 10 {
        out.push(digit(n));
    } else {
        push_decimal(out, n / 10);
        out.push(digit(n % 10));
    }
}

/// Appends the last `width` decimal digits of `n`, with leading zeros.
pub(crate) fn push_padded(out: &mut String, n: u64, width: usize)
    ensures
        final(out)@ == old(out)@ + padded_digits(n as nat, width as nat),
    decreases width,
{
    if width > 0 {
        push_padded(out, n / 10, width - 1);
        out.push(digit(n % 10));
    }
}

/// `n` in decimal.
pub(crate) fn write_decimal(n: u64) -> (r: String)
    ensures
        r@ == decimal_digits(n as nat),
{
    let mut out = String::new();
    push_decimal(&mut out, n);
    out
}

/// Reads a run of digits; `None` when the number is beyond a `u128`.
pub(crate) fn read_digits(s: &str) -> (r: Option<u128>)
    requires
        all_digits(s@),
    ensures
        match r {
            Some(n) => n == digits_value(s@),
            None => digits_value(s@) > u128::MAX,
        },
{
    let bytes: &[u8] = s.as_bytes();
    assert(s.is_ascii());
    assert(bytes@ =~= Seq::new(s@.len(), |i: int| s@[i] as u8));
    let n: usize = bytes.len();
    let mut value: u128 = 0;
    let mut i: usize = 0;
    assert(s@.take(0) =~= Seq::<char>::empty());
    while i < n
        invariant
            i <= n,
            n == bytes@.len(),
            bytes@ =~= Seq::new(s@.len(), |i: int| s@[i] as u8),
            all_digits(s@),
            value == digits_value(s@.take(i as int)),
        decreases n - i,
    {
        let ghost next = s@.take(i + 1);
        assert(next.drop_last() =~= s@.take(i as int));
        assert(is_digit(s@[i as int]));
        proof {
            digits_value_grows(s@, i + 1);
        }
        let d: u128 = (bytes[i] - ('0' as u8)) as u128;
        assert(d == digit_value(next.last()));
        match value.checked_mul(10) {
            Some(tenfold) => {
                match tenfold.checked_add(d) {
                    Some(sum) => {
                        value = sum;
                    },
                    None => {
                        return None;
                    },
                }
            },
            None => {
                return None;
            },
        }
        i = i + 1;
    }
    assert(s@.take(n as int) =~= s@);
    Some(value)
}

/// Law: a digit behind a number makes ten times the number and the digit; no digits make
/// zero.
pub proof fn a_further_digit_makes_tenfold(s: Seq<char>, c: char)
    requires
        '0' <= c <= '9',
    ensures
        digits_value(Seq::<char>::empty()) == 0,
        digits_value(s.push(c)) == 10 * digits_value(s) + (c as int - '0' as int),
{
    assert(s.push(c).drop_last() =~= s);
}

/// Law: each power of ten is ten times the one before.
pub proof fn powers_of_ten_grow_tenfold(j: nat, k: nat)
    ensures
        pow10(0) == 1,
        pow10(k + 1) == 10 * pow10(k),
        pow10(j + k) == pow10(j) * pow10(k),
    decreases k,
{
    if k > 0 {
        let i = (k - 1) as nat;
        powers_of_ten_grow_tenfold(j, i);
        assert(j + k == (j + i) + 1);
        assert(pow10(j + k) == 10 * pow10(j + i));
        assert(10 * (pow10(j) * pow10(i)) == pow10(j) * (10 * pow10(i))) by (nonlinear_arith);
    } else {
        assert(pow10(j) * 1 == pow10(j));
    }
}

/// Law: digits behind digits denote the first number, moved up by as many places, and the
/// second.
pub proof fn digits_behind_digits(a: Seq<char>, b: Seq<char>)
    ensures
        digits_value(a + b) == digits_value(a) * pow10(b.len()) + digits_value(b),
    decreases b.len(),
{
    if b.len() == 0 {
        assert(a + b =~= a);
        assert(digits_value(a) * 1 == digits_value(a));
    } else {
        let rest = b.drop_last();
        digits_behind_digits(a, rest);
        assert((a + b).drop_last() =~= a + rest);
        assert((a + b).last() == b.last());
        let v = digits_value(a);
        let p = pow10(rest.len());
        assert(10 * (v * p) == v * (10 * p)) by (nonlinear_arith);
    }
}

/// Law: a number is written without a needless zero in front.
pub proof fn numbers_are_written_without_leading_zeros(n: nat)
    ensures
        decimal_digits(n).len() == 1 <==> n < 10,
        decimal_digits(n)[0] == '0' ==> n == 0,
    decreases n,
{
    if n >= 10 {
        numbers_are_written_without_leading_zeros(n / 10);
        assert(decimal_digits(n)[0] == decimal_digits(n / 10)[0]);
        decimal_digits_denote(n / 10);
    }
}

} // verus!
