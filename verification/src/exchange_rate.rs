//! Fiat-to-XMR conversion for order creation.
//!
//! Money is never a float: an amount is a run of decimal digits, and every conversion
//! to piconero is exact integer arithmetic.

use std::collections::HashMap;

use vstd::prelude::*;

use crate::decimal;

verus! {

/// Piconero in one XMR.
pub const PICONERO_PER_XMR: u64 = 1_000_000_000_000;

/// Decimal places of an amount in XMR.
pub const XMR_PLACES: usize = 12;

/// Decimal places of a fiat amount.
pub const FIAT_PLACES: usize = 2;

/// Why an amount was refused.
#[derive(Debug, PartialEq, Eq, Structural, Clone, Copy)]
pub enum AmountError {
    InvalidDecimal,
    NotPositive,
    TooManyDecimalPlaces,
    TooLarge,
}

/// The words for an [`AmountError`].
pub open spec fn amount_error_text(e: AmountError) -> Seq<char> {
    match e {
        AmountError::InvalidDecimal => "amount is not a valid decimal number"@,
        AmountError::NotPositive => "amount must be positive"@,
        AmountError::TooManyDecimalPlaces => "amount has more than 2 decimal places"@,
        AmountError::TooLarge => "amount is too large to represent in piconero"@,
    }
}

impl AmountError {
    /// What the customer is told.
    pub fn message(&self) -> (r: String)
        ensures
            r@ == amount_error_text(*self),
            *self is InvalidDecimal ==> r@ == "amount is not a valid decimal number"@,
            *self is NotPositive ==> r@ == "amount must be positive"@,
            *self is TooManyDecimalPlaces ==> r@ == "amount has more than 2 decimal places"@,
            *self is TooLarge ==> r@ == "amount is too large to represent in piconero"@,
    {
        match self {
            AmountError::InvalidDecimal => "amount is not a valid decimal number".to_string(),
            AmountError::NotPositive => "amount must be positive".to_string(),
            AmountError::TooManyDecimalPlaces => "amount has more than 2 decimal places".to_string(),
            AmountError::TooLarge => "amount is too large to represent in piconero".to_string(),
        }
    }
}

/// Where the first decimal point of `s` stands; the length of `s` when it has none.
pub open spec fn point_index(s: Seq<char>) -> nat
    decreases s.len(),
{
    if s.len() == 0 || s[0] == '.' {
        0
    } else {
        1 + point_index(s.drop_first())
    }
}

/// What stands before the first decimal point.
pub open spec fn whole_part(s: Seq<char>) -> Seq<char> {
    s.take(point_index(s) as int)
}

/// What stands behind the first decimal point; empty when there is none.
pub open spec fn fraction_part(s: Seq<char>) -> Seq<char> {
    if point_index(s) < s.len() {
        s.skip(point_index(s) as int + 1)
    } else {
        Seq::empty()
    }
}

/// `s` is a plain decimal number: digits on both sides of at most one point, and at
/// least one digit in all. No sign, no exponent, no space, no separator.
pub open spec fn is_decimal(s: Seq<char>) -> bool {
    &&& whole_part(s).len() + fraction_part(s).len() > 0
    &&& decimal::all_digits(whole_part(s))
    &&& decimal::all_digits(fraction_part(s))
}

/// The decimal number `s` counted in units of ten to the power of minus `places`.
pub open spec fn units(s: Seq<char>, places: nat) -> nat {
    decimal::digits_value(whole_part(s)) * decimal::pow10(places) + decimal::digits_value(
        fraction_part(s),
    ) * decimal::pow10((places - fraction_part(s).len()) as nat)
}

/// What reading `s` with at most `places` decimal places gives.
pub open spec fn read_units(s: Seq<char>, places: nat) -> Result<nat, AmountError> {
    if !is_decimal(s) {
        Err(AmountError::InvalidDecimal)
    } else if fraction_part(s).len() > places {
        Err(AmountError::TooManyDecimalPlaces)
    } else if units(s, places) > u128::MAX {
        Err(AmountError::TooLarge)
    } else {
        Ok(units(s, places))
    }
}

proof fn lemma_point_at(s: Seq<char>, i: int)
    requires
        0 <= i <= s.len(),
        forall|j: int| 0 <= j < i ==> s[j] != '.',
        i == s.len() || s[i] == '.',
    ensures
        point_index(s) == i,
    decreases s.len(),
{
    if i > 0 {
        assert(s[0] != '.');
        let rest = s.drop_first();
        assert forall|j: int| 0 <= j < i - 1 implies rest[j] != '.' by {
            assert(s[j + 1] != '.');
        }
        lemma_point_at(rest, i - 1);
    }
}

/// A decimal number consists of digits and points alone.
proof fn lemma_decimal_characters(s: Seq<char>, i: int)
    requires
        is_decimal(s),
        0 <= i < s.len(),
    ensures
        decimal::is_digit(s[i]) || s[i] == '.',
{
    lemma_point_index_bounded(s);
    let p = point_index(s) as int;
    if i < p {
        assert(whole_part(s)[i] == s[i]);
    } else if i > p {
        assert(fraction_part(s)[i - p - 1] == s[i]);
    }
}

proof fn lemma_point_index_bounded(s: Seq<char>)
    ensures
        point_index(s) <= s.len(),
        point_index(s) < s.len() ==> s[point_index(s) as int] == '.',
        forall|j: int| 0 <= j < point_index(s) ==> s[j] != '.',
    decreases s.len(),
{
    if s.len() > 0 && s[0] != '.' {
        let rest = s.drop_first();
        lemma_point_index_bounded(rest);
        assert forall|j: int| 0 <= j < point_index(s) implies s[j] != '.' by {
            if j > 0 {
                assert(rest[j - 1] == s[j]);
            }
        }
    }
}

/// Whether every character is an ASCII digit.
fn has_only_digits(s: &str) -> (r: bool)
    requires
        s.is_ascii(),
    ensures
        r == decimal::all_digits(s@),
{
    let bytes: &[u8] = s.as_bytes();
    assert(bytes@ =~= Seq::new(s@.len(), |i: int| s@[i] as u8));
    let n: usize = bytes.len();
    let mut i: usize = 0;
    while i < n
        invariant
            i <= n,
            n == bytes@.len(),
            s.is_ascii(),
            bytes@ =~= Seq::new(s@.len(), |i: int| s@[i] as u8),
            forall|j: int| 0 <= j < i ==> decimal::is_digit(#[trigger] s@[j]),
        decreases n - i,
    {
        let b: u8 = bytes[i];
        assert('\0' <= s@[i as int] <= '\u{7f}');
        if b < '0' as u8 || b > '9' as u8 {
            assert(!decimal::is_digit(s@[i as int]));
            return false;
        }
        i = i + 1;
    }
    true
}

/// Splits a decimal string into its whole and fraction digit runs, refusing anything
/// that is not purely ASCII digits on either side.
///
/// A sign is refused here, before any number is read: for a value that decides what a
/// customer is charged, a `+` that shifts the fraction by a place must not get through.
pub fn split_decimal(s: &str) -> (r: Result<(&str, &str), AmountError>)
    ensures
        match r {
            Ok((whole, fraction)) => {
                &&& is_decimal(s@)
                &&& whole@ == whole_part(s@)
                &&& fraction@ == fraction_part(s@)
            },
            Err(e) => !is_decimal(s@) && e == AmountError::InvalidDecimal,
        },
{
    if !s.is_ascii() {
        proof {
            if is_decimal(s@) {
                assert forall|i: int| 0 <= i < s@.len() implies '\0' <= #[trigger] s@[i]
                    <= '\u{7f}' by {
                    lemma_decimal_characters(s@, i);
                }
            }
        }
        return Err(AmountError::InvalidDecimal);
    }
    let bytes: &[u8] = s.as_bytes();
    assert(bytes@ =~= Seq::new(s@.len(), |i: int| s@[i] as u8));
    let n: usize = bytes.len();
    let mut point: usize = 0;
    while point < n && bytes[point] != '.' as u8
        invariant
            point <= n,
            n == bytes@.len(),
            bytes@ =~= Seq::new(s@.len(), |i: int| s@[i] as u8),
            forall|j: int| 0 <= j < point ==> s@[j] != '.',
        decreases n - point,
    {
        point = point + 1;
    }
    assert(point < n ==> '\0' <= s@[point as int] <= '\u{7f}');
    proof {
        lemma_point_at(s@, point as int);
    }
    let whole: &str = s.substring_ascii(0, point);
    let fraction: &str = if point < n {
        s.substring_ascii(point + 1, n)
    } else {
        s.substring_ascii(n, n)
    };
    assert(whole@ =~= whole_part(s@));
    assert(fraction@ =~= fraction_part(s@));
    if whole.is_empty() && fraction.is_empty() {
        return Err(AmountError::InvalidDecimal);
    }
    if !has_only_digits(whole) || !has_only_digits(fraction) {
        return Err(AmountError::InvalidDecimal);
    }
    Ok((whole, fraction))
}

/// Ten to the power of `k`, for the few places an amount can have.
fn power_of_ten(k: usize) -> (r: u128)
    requires
        k <= XMR_PLACES,
    ensures
        r == decimal::pow10(k as nat),
        r <= PICONERO_PER_XMR,
{
    let mut r: u128 = 1;
    let mut i: usize = 0;
    proof {
        lemma_pow10_of_places();
    }
    while i < k
        invariant
            i <= k <= XMR_PLACES,
            r == decimal::pow10(i as nat),
            decimal::pow10(XMR_PLACES as nat) == PICONERO_PER_XMR,
        decreases k - i,
    {
        proof {
            lemma_pow10_monotone((i + 1) as nat, XMR_PLACES as nat);
        }
        r = r * 10;
        i = i + 1;
    }
    proof {
        lemma_pow10_monotone(k as nat, XMR_PLACES as nat);
    }
    r
}

proof fn lemma_pow10_of_places()
    ensures
        decimal::pow10(FIAT_PLACES as nat) == 100,
        decimal::pow10(XMR_PLACES as nat) == PICONERO_PER_XMR,
{
    reveal_with_fuel(decimal::pow10, 13);
}

proof fn lemma_pow10_monotone(i: nat, j: nat)
    requires
        i <= j,
    ensures
        decimal::pow10(i) <= decimal::pow10(j),
    decreases j - i,
{
    if i < j {
        lemma_pow10_monotone(i, (j - 1) as nat);
    }
}

/// Reads a decimal string with at most `places` decimal places as a whole number of
/// its smallest units.
fn parse_units(s: &str, places: usize) -> (r: Result<u128, AmountError>)
    requires
        places <= XMR_PLACES,
    ensures
        match r {
            Ok(n) => read_units(s@, places as nat) == Ok::<nat, AmountError>(n as nat),
            Err(e) => read_units(s@, places as nat) == Err::<nat, AmountError>(e),
        },
{
    let (whole, fraction) = match split_decimal(s) {
        Ok(parts) => parts,
        Err(e) => {
            return Err(e);
        },
    };
    let taken: usize = fraction.as_bytes().len();
    assert(fraction.is_ascii());
    assert(taken == fraction@.len());
    if taken > places {
        return Err(AmountError::TooManyDecimalPlaces);
    }
    let ghost w = decimal::digits_value(whole@);
    let ghost f = decimal::digits_value(fraction@);
    let unit: u128 = power_of_ten(places);
    let pad: u128 = power_of_ten(places - taken);
    let ghost u = decimal::pow10(places as nat);
    let ghost p = decimal::pow10((places - taken) as nat);
    assert(units(s@, places as nat) == w * u + f * p);
    proof {
        decimal::digits_value_bounded(fraction@);
        lemma_pow10_monotone(taken as nat, XMR_PLACES as nat);
        lemma_pow10_of_places();
        assert(u >= 1) by {
            lemma_pow10_monotone(0, places as nat);
        }
        assert(w * u >= w) by (nonlinear_arith)
            requires
                u >= 1,
        ;
        assert(f * p >= 0) by (nonlinear_arith);
    }
    let whole_value: u128 = match decimal::read_digits(whole) {
        Some(n) => n,
        None => {
            return Err(AmountError::TooLarge);
        },
    };
    let fraction_value: u128 = match decimal::read_digits(fraction) {
        Some(n) => n,
        None => {
            return Err(AmountError::TooLarge);
        },
    };
    assert(f * p <= PICONERO_PER_XMR * PICONERO_PER_XMR) by (nonlinear_arith)
        requires
            f <= PICONERO_PER_XMR,
            p <= PICONERO_PER_XMR,
    ;
    let rest: u128 = fraction_value * pad;
    match whole_value.checked_mul(unit) {
        Some(scaled) => {
            match scaled.checked_add(rest) {
                Some(total) => Ok(total),
                None => Err(AmountError::TooLarge),
            }
        },
        None => Err(AmountError::TooLarge),
    }
}

/// The price of `fiat_amount` at `rate` piconero per whole unit: the cents times the
/// rate over one hundred, rounded up to the next whole piconero.
pub open spec fn price(fiat_amount: Seq<char>, rate: nat) -> Result<nat, AmountError> {
    match read_units(fiat_amount, FIAT_PLACES as nat) {
        Err(e) => Err(e),
        Ok(cents) => if cents * rate == 0 {
            Err(AmountError::NotPositive)
        } else if (cents * rate + 99) / 100 > u64::MAX {
            Err(AmountError::TooLarge)
        } else {
            Ok(((cents * rate + 99) / 100) as nat)
        },
    }
}

/// Converts a decimal fiat amount ("24.99", "5", "5.5") into piconero at a rate of
/// piconero per whole unit.
///
/// A third decimal place is refused rather than cut off. The result is rounded up, so
/// that a customer who pays it exactly never leaves the merchant short, and it is never
/// zero: an order for nothing would be settled by paying nothing.
pub fn compute_xmr_amount(fiat_amount: &str, piconero_per_unit: u64) -> (r: Result<
    u64,
    AmountError,
>)
    ensures
        match r {
            Ok(n) => price(fiat_amount@, piconero_per_unit as nat) == Ok::<nat, AmountError>(
                n as nat,
            ),
            Err(e) => price(fiat_amount@, piconero_per_unit as nat) == Err::<nat, AmountError>(e),
        },
{
    let cents: u128 = match parse_units(fiat_amount, FIAT_PLACES) {
        Ok(n) => n,
        Err(e) => {
            return Err(e);
        },
    };
    let rate: u128 = piconero_per_unit as u128;
    if cents == 0 {
        return Err(AmountError::NotPositive);
    }
    let scaled: u128 = match cents.checked_mul(rate) {
        Some(n) => n,
        None => {
            assert(cents * rate != 0);
            return Err(AmountError::TooLarge);
        },
    };
    let whole: u128 = scaled / 100;
    let piconero: u128 = if scaled % 100 == 0 {
        whole
    } else {
        whole + 1
    };
    assert(piconero == (cents * rate + 99) / 100);
    if piconero > u64::MAX as u128 {
        return Err(AmountError::TooLarge);
    }
    if piconero == 0 {
        return Err(AmountError::NotPositive);
    }
    Ok(piconero as u64)
}

/// What an XMR amount comes to in piconero.
pub open spec fn piconero(xmr_amount: Seq<char>) -> Result<nat, AmountError> {
    match read_units(xmr_amount, XMR_PLACES as nat) {
        Err(e) => Err(e),
        Ok(n) => if n > u64::MAX {
            Err(AmountError::TooLarge)
        } else {
            Ok(n)
        },
    }
}

/// Converts an XMR amount with up to twelve decimal places into piconero, exactly.
///
/// A value beyond a `u64` is refused, never wrapped: it would price every order of a
/// currency at something small and wrong.
pub fn parse_xmr_to_piconero(xmr_amount: &str) -> (r: Result<u64, AmountError>)
    ensures
        match r {
            Ok(n) => piconero(xmr_amount@) == Ok::<nat, AmountError>(n as nat),
            Err(e) => piconero(xmr_amount@) == Err::<nat, AmountError>(e),
        },
{
    let n: u128 = match parse_units(xmr_amount, XMR_PLACES) {
        Ok(n) => n,
        Err(e) => {
            return Err(e);
        },
    };
    if n > u64::MAX as u128 {
        Err(AmountError::TooLarge)
    } else {
        Ok(n as u64)
    }
}

/// An amount of piconero written in XMR with all twelve decimal places.
pub open spec fn xmr_text(piconero: nat) -> Seq<char> {
    decimal::decimal_digits(piconero / PICONERO_PER_XMR as nat) + seq!['.']
        + decimal::padded_digits(piconero % PICONERO_PER_XMR as nat, XMR_PLACES as nat)
}

/// Writes piconero as XMR for display: `500_000_000_000` is `"0.500000000000"`.
///
/// The width of the fraction is fixed, so that a customer who compares it with their
/// wallet sees the full precision.
pub fn format_piconero_as_xmr(piconero: u64) -> (r: String)
    ensures
        r@ == xmr_text(piconero as nat),
{
    let mut out = String::new();
    decimal::push_decimal(&mut out, piconero / PICONERO_PER_XMR);
    out.push('.');
    decimal::push_padded(&mut out, piconero % PICONERO_PER_XMR, XMR_PLACES);
    proof {
        let whole = decimal::decimal_digits((piconero / PICONERO_PER_XMR) as nat);
        let fraction = decimal::padded_digits(
            (piconero % PICONERO_PER_XMR) as nat,
            XMR_PLACES as nat,
        );
        assert(out@ =~= whole + seq!['.'] + fraction);
    }
    out
}

/// A source of exchange rates.
pub trait ExchangeRateProvider: Send + Sync {
    /// Piconero per one whole unit of `fiat_currency`, or `None` when this provider has
    /// no rate for that currency.
    fn piconero_per_unit(&self, fiat_currency: &str) -> Option<u64>;
}

/// A rate table fixed at start-up, by currency code.
#[derive(Debug)]
pub struct FixedRateProvider {
    rates: HashMap<String, u64>,
}

/// The rate that `rates` holds for the currency code `currency`.
pub open spec fn rate_for(rates: Map<String, u64>, currency: Seq<char>) -> Option<u64> {
    if exists|code: String| #[trigger] rates.contains_key(code) && code@ == currency {
        let code = choose|code: String| #[trigger]
            rates.contains_key(code) && code@ == currency;
        Some(rates[code])
    } else {
        None
    }
}

/// `HashMap::get` of the standard library, on a map keyed by `String`: the value of the
/// one key with the characters of `key`, or `None` when no key has them.
#[verifier::external_body]
fn lookup<'a>(map: &'a HashMap<String, u64>, key: &str) -> (r: Option<&'a u64>)
    ensures
        r is Some <==> (exists|k: String| #[trigger] map@.contains_key(k) && k@ == key@),
        forall|k: String| #[trigger]
            map@.contains_key(k) && k@ == key@ ==> r == Some(&map@[k]),
{
    map.get(key)
}

impl FixedRateProvider {
    /// The rates, by currency code.
    pub closed spec fn rates(&self) -> Map<String, u64> {
        self.rates@
    }

    pub fn new(rates: HashMap<String, u64>) -> (r: Self)
        ensures
            r.rates() == rates@,
    {
        FixedRateProvider { rates }
    }
}

impl ExchangeRateProvider for FixedRateProvider {
    fn piconero_per_unit(&self, fiat_currency: &str) -> (r: Option<u64>)
        ensures
            r == rate_for(self.rates(), fiat_currency@),
    {
        match lookup(&self.rates, fiat_currency) {
            Some(rate) => Some(*rate),
            None => None,
        }
    }
}

/// Law: a priced order covers its fiat price and exceeds it by less than one piconero.
/// The merchant is never short.
pub proof fn price_never_leaves_the_merchant_short(fiat_amount: Seq<char>, rate: nat)
    ensures
        price(fiat_amount, rate) matches Ok(n) ==> {
            &&& 100 * n >= units(fiat_amount, FIAT_PLACES as nat) * rate
            &&& 100 * (n - 1) < units(fiat_amount, FIAT_PLACES as nat) * rate
        },
{
}

/// Law: no order is ever priced at zero, and a zero amount or a zero rate is refused.
pub proof fn price_is_never_zero(fiat_amount: Seq<char>, rate: nat)
    ensures
        price(fiat_amount, rate) matches Ok(n) ==> n > 0,
        price(fiat_amount, 0) is Err,
        price(fiat_amount, rate) is Ok ==> units(fiat_amount, FIAT_PLACES as nat) > 0 && rate > 0,
{
    if let Ok(cents) = read_units(fiat_amount, FIAT_PLACES as nat) {
        assert(cents * 0 == 0) by (nonlinear_arith);
        assert(cents == 0 || rate == 0 ==> cents * rate == 0) by (nonlinear_arith);
    }
}

/// Law: rounding up never touches a price that comes out even.
pub proof fn price_is_exact_when_even(fiat_amount: Seq<char>, rate: nat)
    requires
        units(fiat_amount, FIAT_PLACES as nat) * rate % 100 == 0,
    ensures
        price(fiat_amount, rate) matches Ok(n) ==> 100 * n == units(
            fiat_amount,
            FIAT_PLACES as nat,
        ) * rate,
{
}

/// Law: asking for more, at the same rate or a higher one, never costs less.
pub proof fn price_is_monotone(less: Seq<char>, more: Seq<char>, low: nat, high: nat)
    requires
        units(less, FIAT_PLACES as nat) <= units(more, FIAT_PLACES as nat),
        low <= high,
        price(less, low) is Ok,
        price(more, high) is Ok,
    ensures
        price(less, low)->Ok_0 <= price(more, high)->Ok_0,
{
    let a = units(less, FIAT_PLACES as nat);
    let b = units(more, FIAT_PLACES as nat);
    assert(a * low <= b * high) by (nonlinear_arith)
        requires
            a <= b,
            low <= high,
    ;
}

/// Law: a character that is neither a digit nor a point spoils any amount. A sign is
/// refused rather than shifting the decimal place.
pub proof fn stray_characters_are_refused(s: Seq<char>, i: int, rate: nat)
    requires
        0 <= i < s.len(),
        !decimal::is_digit(s[i]),
        s[i] != '.',
    ensures
        price(s, rate) == Err::<nat, AmountError>(AmountError::InvalidDecimal),
        piconero(s) == Err::<nat, AmountError>(AmountError::InvalidDecimal),
{
    if is_decimal(s) {
        lemma_decimal_characters(s, i);
    }
}

/// Law: an amount with two points is refused.
pub proof fn second_point_is_refused(s: Seq<char>, i: int, j: int, rate: nat)
    requires
        0 <= i < j < s.len(),
        s[i] == '.',
        s[j] == '.',
    ensures
        price(s, rate) == Err::<nat, AmountError>(AmountError::InvalidDecimal),
        piconero(s) == Err::<nat, AmountError>(AmountError::InvalidDecimal),
{
    lemma_point_index_bounded(s);
    let p = point_index(s) as int;
    assert(p <= i);
    assert(fraction_part(s)[j - p - 1] == '.');
    assert(!decimal::is_digit('.'));
}

/// Law: what is written for display reads back as the same number of piconero.
pub proof fn format_then_parse_is_identity(n: u64)
    ensures
        piconero(xmr_text(n as nat)) == Ok::<nat, AmountError>(n as nat),
{
    lemma_pow10_of_places();
    let unit = PICONERO_PER_XMR as nat;
    let whole = decimal::decimal_digits(n as nat / unit);
    let fraction = decimal::padded_digits(n as nat % unit, XMR_PLACES as nat);
    decimal::decimal_digits_denote(n as nat / unit);
    decimal::padded_digits_denote(n as nat % unit, XMR_PLACES as nat);
    let s = xmr_text(n as nat);
    assert(s =~= whole + seq!['.'] + fraction);
    assert forall|j: int| 0 <= j < whole.len() implies s[j] != '.' by {
        assert(decimal::is_digit(whole[j]));
    }
    lemma_point_at(s, whole.len() as int);
    assert(whole_part(s) =~= whole);
    assert(fraction_part(s) =~= fraction);
    let f = n as nat % unit;
    assert(f * decimal::pow10(0) == f) by {
        assert(decimal::pow10(0) == 1);
    }
    assert(units(s, XMR_PLACES as nat) == (n as nat / unit) * unit + n as nat % unit);
}

/// Law: two amounts of piconero never look alike.
pub proof fn format_is_injective(m: u64, n: u64)
    requires
        xmr_text(m as nat) == xmr_text(n as nat),
    ensures
        m == n,
{
    format_then_parse_is_identity(m);
    format_then_parse_is_identity(n);
}

/// Law: an amount that was read, written again for display, is the same amount.
pub proof fn parse_then_format_keeps_the_value(s: Seq<char>)
    ensures
        piconero(s) matches Ok(n) ==> piconero(xmr_text(n)) == Ok::<nat, AmountError>(n),
{
    if let Ok(n) = piconero(s) {
        format_then_parse_is_identity(n as u64);
    }
}

/// Law: a price depends on the amount's value alone, not on how it is spelled.
pub proof fn price_depends_on_the_value_alone(a: Seq<char>, b: Seq<char>, rate: nat)
    requires
        is_decimal(a),
        is_decimal(b),
        fraction_part(a).len() <= FIAT_PLACES,
        fraction_part(b).len() <= FIAT_PLACES,
        units(a, FIAT_PLACES as nat) == units(b, FIAT_PLACES as nat),
    ensures
        price(a, rate) == price(b, rate),
{
}

/// Law: at a rate of one XMR per unit, the price of an amount is the amount itself in
/// piconero.
pub proof fn conversions_agree_at_one_xmr_per_unit(s: Seq<char>)
    requires
        is_decimal(s),
        fraction_part(s).len() <= FIAT_PLACES,
        units(s, FIAT_PLACES as nat) > 0,
    ensures
        price(s, PICONERO_PER_XMR as nat) == piconero(s),
{
    let w = decimal::digits_value(whole_part(s));
    let f = decimal::digits_value(fraction_part(s));
    let k = fraction_part(s).len();
    let cents = units(s, FIAT_PLACES as nat);
    reveal_with_fuel(decimal::pow10, 13);
    let p = decimal::pow10((FIAT_PLACES - k) as nat);
    assert(decimal::pow10((XMR_PLACES - k) as nat) == p * 10_000_000_000) by {
        assert(k == 0 || k == 1 || k == 2);
    }
    assert(units(s, XMR_PLACES as nat) == cents * 10_000_000_000) by (nonlinear_arith)
        requires
            cents == w * 100 + f * p,
            units(s, XMR_PLACES as nat) == w * 1_000_000_000_000 + f * (p * 10_000_000_000),
    ;
    assert(cents * PICONERO_PER_XMR as nat == 100 * (cents * 10_000_000_000)) by (nonlinear_arith)
        requires
            PICONERO_PER_XMR == 1_000_000_000_000,
    ;
}

/// `s` is spelled as amounts are written for display: no needless zero in front, and all
/// decimal places.
pub open spec fn is_canonical(s: Seq<char>) -> bool {
    &&& is_decimal(s)
    &&& whole_part(s).len() > 0
    &&& whole_part(s).len() > 1 ==> whole_part(s)[0] != '0'
    &&& fraction_part(s).len() == XMR_PLACES
}

/// Law: an amount in its display spelling, read and written again, comes back letter by
/// letter.
pub proof fn canonical_amounts_come_back(s: Seq<char>)
    requires
        is_canonical(s),
        piconero(s) is Ok,
    ensures
        xmr_text(piconero(s)->Ok_0) == s,
{
    let w = whole_part(s);
    let f = fraction_part(s);
    let unit = PICONERO_PER_XMR as nat;
    let n = piconero(s)->Ok_0;
    lemma_pow10_of_places();
    lemma_point_index_bounded(s);
    decimal::digits_value_bounded(f);
    assert(decimal::digits_value(f) * decimal::pow10(0) == decimal::digits_value(f)) by {
        assert(decimal::pow10(0) == 1);
    }
    assert(n == decimal::digits_value(w) * unit + decimal::digits_value(f));
    assert(n / unit == decimal::digits_value(w) && n % unit == decimal::digits_value(f));
    decimal::digits_are_written_back(w);
    decimal::digits_are_padded_back(f);
    assert(s =~= w + seq!['.'] + f);
}

/// Law: an amount is split at its point, and one without a point is whole.
pub proof fn amounts_are_split_at_their_point(w: Seq<char>, f: Seq<char>)
    requires
        forall|i: int| 0 <= i < w.len() ==> w[i] != '.',
    ensures
        whole_part(w) == w,
        fraction_part(w) == Seq::<char>::empty(),
        whole_part(w + seq!['.'] + f) == w,
        fraction_part(w + seq!['.'] + f) == f,
{
    let s = w + seq!['.'] + f;
    lemma_point_at(w, w.len() as int);
    assert(whole_part(w) =~= w);
    assert forall|j: int| 0 <= j < w.len() implies s[j] != '.' by {
        assert(s[j] == w[j]);
    }
    lemma_point_at(s, w.len() as int);
    assert(whole_part(s) =~= w);
    assert(fraction_part(s) =~= f);
}

/// Law: a decimal consists of digits, at least one of them, and at most one point.
pub proof fn decimals_are_digits_and_one_point(s: Seq<char>)
    ensures
        is_decimal(s) <==> {
            &&& forall|i: int| 0 <= i < s.len() ==> '0' <= #[trigger] s[i] <= '9' || s[i] == '.'
            &&& exists|i: int| 0 <= i < s.len() && '0' <= #[trigger] s[i] <= '9'
            &&& forall|i: int, j: int|
                0 <= i < j < s.len() ==> !(#[trigger] s[i] == '.' && #[trigger] s[j] == '.')
        },
{
    lemma_point_index_bounded(s);
    let p = point_index(s) as int;
    let plain = {
        &&& forall|i: int| 0 <= i < s.len() ==> '0' <= #[trigger] s[i] <= '9' || s[i] == '.'
        &&& exists|i: int| 0 <= i < s.len() && '0' <= #[trigger] s[i] <= '9'
        &&& forall|i: int, j: int|
            0 <= i < j < s.len() ==> !(#[trigger] s[i] == '.' && #[trigger] s[j] == '.')
    };
    if is_decimal(s) {
        assert forall|i: int| 0 <= i < s.len() implies '0' <= #[trigger] s[i] <= '9' || s[i]
            == '.' by {
            lemma_decimal_characters(s, i);
        }
        if whole_part(s).len() > 0 {
            assert(decimal::is_digit(whole_part(s)[0]));
            assert('0' <= s[0] <= '9');
        } else {
            assert(decimal::is_digit(fraction_part(s)[0]));
            assert('0' <= s[p + 1] <= '9');
        }
        assert forall|i: int, j: int| 0 <= i < j < s.len() implies !(#[trigger] s[i] == '.'
            && #[trigger] s[j] == '.') by {
            if s[i] == '.' && s[j] == '.' {
                second_point_is_refused(s, i, j, 1);
            }
        }
    }
    if plain {
        assert forall|i: int| 0 <= i < whole_part(s).len() implies decimal::is_digit(
            #[trigger] whole_part(s)[i],
        ) by {
            assert(whole_part(s)[i] == s[i]);
        }
        assert forall|i: int| 0 <= i < fraction_part(s).len() implies decimal::is_digit(
            #[trigger] fraction_part(s)[i],
        ) by {
            assert(fraction_part(s)[i] == s[p + 1 + i]);
            assert(s[p] == '.');
        }
        let i = choose|i: int| 0 <= i < s.len() && '0' <= #[trigger] s[i] <= '9';
        assert(i != p || p == s.len());
        assert(whole_part(s).len() + fraction_part(s).len() > 0);
    }
}

/// Law: an amount is worth what its digits denote, its point left out, moved by as many places
/// as it has digits behind the point.
pub proof fn an_amount_is_worth_its_digits(s: Seq<char>, places: nat)
    requires
        is_decimal(s),
        fraction_part(s).len() <= places,
    ensures
        units(s, places) * decimal::pow10(fraction_part(s).len()) == decimal::digits_value(
            whole_part(s) + fraction_part(s),
        ) * decimal::pow10(places),
{
    let w = decimal::digits_value(whole_part(s));
    let f = decimal::digits_value(fraction_part(s));
    let k = fraction_part(s).len();
    let rest = (places - k) as nat;
    let p = decimal::pow10(places);
    let a = decimal::pow10(k);
    let b = decimal::pow10(rest);
    decimal::digits_behind_digits(whole_part(s), fraction_part(s));
    decimal::powers_of_ten_grow_tenfold(rest, k);
    assert(p == b * a);
    assert((w * p + f * b) * a == (w * a + f) * p) by (nonlinear_arith)
        requires
            p == b * a,
    ;
}

/// Law: the cents of an amount with two decimal places are a hundred times its whole part,
/// ten times the first place and the second.
pub proof fn cents_are_read_place_by_place(w: Seq<char>, a: char, b: char)
    requires
        forall|i: int| 0 <= i < w.len() ==> '0' <= #[trigger] w[i] <= '9',
        '0' <= a <= '9',
        '0' <= b <= '9',
    ensures
        units(w + seq!['.', a, b], 2) == 100 * decimal::digits_value(w) + 10 * (a as int
            - '0' as int) + (b as int - '0' as int),
        w.len() > 0 ==> units(w, 2) == 100 * decimal::digits_value(w),
        units(w + seq!['.', a], 2) == 100 * decimal::digits_value(w) + 10 * (a as int
            - '0' as int),
{
    let v = decimal::digits_value(w);
    reveal_with_fuel(decimal::pow10, 3);
    assert(decimal::pow10(2) == 100 && decimal::pow10(1) == 10 && decimal::pow10(0) == 1);
    amounts_are_split_at_their_point(w, seq![a, b]);
    amounts_are_split_at_their_point(w, seq![a]);
    assert(w + seq!['.', a, b] =~= w + seq!['.'] + seq![a, b]);
    assert(w + seq!['.', a] =~= w + seq!['.'] + seq![a]);
    decimal::a_further_digit_makes_tenfold(Seq::<char>::empty(), a);
    decimal::a_further_digit_makes_tenfold(seq![a], b);
    assert(Seq::<char>::empty().push(a) =~= seq![a]);
    assert(seq![a].push(b) =~= seq![a, b]);
    assert(decimal::digits_value(Seq::<char>::empty()) == 0);
    let both = decimal::digits_value(seq![a, b]);
    assert(both == 10 * (a as int - '0' as int) + (b as int - '0' as int));
    assert(units(w + seq!['.', a, b], 2) == v * decimal::pow10(2) + both * decimal::pow10(0));
    assert(both * decimal::pow10(0) == both);
}

/// Law: the price of an amount is settled by its cents and the rate: it is refused when they
/// come to nothing, refused when they come to more than a `u64` holds, and else rounded up.
pub proof fn prices_are_settled_by_cents_and_rate(s: Seq<char>, rate: nat)
    ensures
        price(s, rate) == Err::<nat, AmountError>(AmountError::InvalidDecimal) <==> !is_decimal(s),
        price(s, rate) == Err::<nat, AmountError>(AmountError::TooManyDecimalPlaces) <==> (
        is_decimal(s) && fraction_part(s).len() > 2),
        is_decimal(s) && fraction_part(s).len() <= 2 && units(s, 2) <= u128::MAX ==> {
            let worth = units(s, 2) * rate;
            &&& price(s, rate) == Err::<nat, AmountError>(AmountError::NotPositive) <==> worth == 0
            &&& price(s, rate) == Err::<nat, AmountError>(AmountError::TooLarge) <==> worth > 100
                * u64::MAX
            &&& price(s, rate) is Ok <==> 0 < worth <= 100 * u64::MAX
            &&& price(s, rate) matches Ok(n) ==> 100 * (n - 1) < worth <= 100 * n
        },
        is_decimal(s) && fraction_part(s).len() <= 2 && units(s, 2) > u128::MAX ==> price(s, rate)
            == Err::<nat, AmountError>(AmountError::TooLarge),
{
}

/// Law: an amount in XMR is worth exactly its piconero, when a `u64` holds them; each refusal
/// comes for its own reason.
pub proof fn xmr_amounts_are_read_exactly(s: Seq<char>)
    ensures
        piconero(s) == Err::<nat, AmountError>(AmountError::InvalidDecimal) <==> !is_decimal(s),
        piconero(s) == Err::<nat, AmountError>(AmountError::TooManyDecimalPlaces) <==> (
        is_decimal(s) && fraction_part(s).len() > 12),
        is_decimal(s) && fraction_part(s).len() <= 12 ==> {
            &&& piconero(s) == Err::<nat, AmountError>(AmountError::TooLarge) <==> units(s, 12)
                > u64::MAX
            &&& units(s, 12) <= u64::MAX ==> piconero(s) == Ok::<nat, AmountError>(units(s, 12))
        },
{
}

/// Law: a whole amount with a digit behind it is ten times the amount and that digit, in XMR.
pub proof fn whole_amounts_grow_digit_by_digit(w: Seq<char>, c: char)
    requires
        forall|i: int| 0 <= i < w.len() ==> '0' <= #[trigger] w[i] <= '9',
        '0' <= c <= '9',
    ensures
        piconero(seq![c]) == Ok::<nat, AmountError>(
            ((c as int - '0' as int) * 1_000_000_000_000) as nat,
        ),
        w.len() > 0 ==> match piconero(w) {
            Ok(n) => {
                let more = 10 * n + (c as int - '0' as int) * 1_000_000_000_000;
                if more <= u64::MAX {
                    piconero(w.push(c)) == Ok::<nat, AmountError>(more as nat)
                } else {
                    piconero(w.push(c)) == Err::<nat, AmountError>(AmountError::TooLarge)
                }
            },
            Err(e) => e == AmountError::TooLarge && piconero(w.push(c)) == Err::<nat, AmountError>(
                AmountError::TooLarge,
            ),
        },
{
    let d = c as int - '0' as int;
    let v = decimal::digits_value(w);
    lemma_pow10_of_places();
    lemma_whole_units(seq![c]);
    lemma_whole_units(w.push(c));
    decimal::a_further_digit_makes_tenfold(w, c);
    decimal::a_further_digit_makes_tenfold(Seq::<char>::empty(), c);
    assert(Seq::<char>::empty().push(c) =~= seq![c]);
    if w.len() > 0 {
        lemma_whole_units(w);
        assert((10 * v + d) * 1_000_000_000_000 == 10 * (v * 1_000_000_000_000) + d
            * 1_000_000_000_000) by (nonlinear_arith);
    }
}

proof fn lemma_whole_units(w: Seq<char>)
    requires
        forall|i: int| 0 <= i < w.len() ==> '0' <= #[trigger] w[i] <= '9',
        w.len() > 0,
    ensures
        is_decimal(w),
        fraction_part(w).len() == 0,
        units(w, 12) == decimal::digits_value(w) * 1_000_000_000_000,
{
    amounts_are_split_at_their_point(w, Seq::empty());
    lemma_pow10_of_places();
    assert(decimal::digits_value(Seq::<char>::empty()) == 0);
}

/// Law: a further decimal place adds its digit at that place, and a point with nothing behind
/// it adds nothing.
pub proof fn decimal_places_add_their_digit(w: Seq<char>, f: Seq<char>, c: char)
    requires
        forall|i: int| 0 <= i < w.len() ==> '0' <= #[trigger] w[i] <= '9',
        forall|i: int| 0 <= i < f.len() ==> '0' <= #[trigger] f[i] <= '9',
        '0' <= c <= '9',
        f.len() < 12,
        w.len() + f.len() > 0,
    ensures
        w.len() > 0 ==> piconero(w + seq!['.']) == piconero(w),
        match piconero(w + seq!['.'] + f) {
            Ok(n) => {
                let more = n + (c as int - '0' as int) * decimal::pow10((11 - f.len()) as nat);
                if more <= u64::MAX {
                    piconero(w + seq!['.'] + f + seq![c]) == Ok::<nat, AmountError>(more as nat)
                } else {
                    piconero(w + seq!['.'] + f + seq![c]) == Err::<nat, AmountError>(
                        AmountError::TooLarge,
                    )
                }
            },
            Err(e) => e == AmountError::TooLarge && piconero(w + seq!['.'] + f + seq![c]) == Err::<
                nat,
                AmountError,
            >(AmountError::TooLarge),
        },
{
    let s = w + seq!['.'] + f;
    let t = w + seq!['.'] + f.push(c);
    assert(s + seq![c] =~= t);
    amounts_are_split_at_their_point(w, f);
    amounts_are_split_at_their_point(w, f.push(c));
    amounts_are_split_at_their_point(w, Seq::empty());
    assert(w + seq!['.'] + Seq::<char>::empty() =~= w + seq!['.']);
    assert forall|i: int| 0 <= i < f.push(c).len() implies decimal::is_digit(
        #[trigger] f.push(c)[i],
    ) by {}
    assert(is_decimal(s) && is_decimal(t));
    decimal::a_further_digit_makes_tenfold(f, c);
    let d = c as int - '0' as int;
    let v = decimal::digits_value(f);
    let k = (12 - f.len()) as nat;
    let p = decimal::pow10((k - 1) as nat);
    assert(decimal::pow10(k) == 10 * p);
    assert((10 * v + d) * p == v * (10 * p) + d * p) by (nonlinear_arith);
    assert(d * p >= 0) by (nonlinear_arith)
        requires
            d >= 0,
            p >= 0,
    ;
    assert(units(t, 12) == units(s, 12) + d * p);
    if w.len() > 0 {
        assert(is_decimal(w) && is_decimal(w + seq!['.']));
    }
}

/// Law: zeros at the end of the decimal places change nothing.
pub proof fn trailing_zeros_change_nothing(s: Seq<char>, i: int)
    requires
        is_decimal(s),
        0 <= i < s.len(),
        s[i] == '.',
        s.len() - i - 1 < 12,
    ensures
        piconero(s.push('0')) == piconero(s),
        forall|rate: nat|
            s.len() - i - 1 < 2 ==> #[trigger] price(s.push('0'), rate) == price(s, rate),
{
    let w = s.take(i);
    let f = s.skip(i + 1);
    assert(s =~= w + seq!['.'] + f);
    decimals_are_digits_and_one_point(s);
    assert forall|j: int| 0 <= j < w.len() implies '0' <= #[trigger] w[j] <= '9' by {
        assert(w[j] == s[j] && s[i] == '.');
    }
    assert forall|j: int| 0 <= j < f.len() implies '0' <= #[trigger] f[j] <= '9' by {
        assert(f[j] == s[i + 1 + j] && s[i] == '.');
    }
    let t = w + seq!['.'] + f.push('0');
    assert(s.push('0') =~= t);
    assert(s.push('0') =~= w + seq!['.'] + f + seq!['0']);
    let digit = choose|j: int| 0 <= j < s.len() && '0' <= #[trigger] s[j] <= '9';
    assert(digit != i);
    decimal_places_add_their_digit(w, f, '0');
    let nothing = decimal::pow10((11 - f.len()) as nat);
    assert(0 * nothing == 0) by (nonlinear_arith);
    if f.len() < 2 {
        amounts_are_split_at_their_point(w, f);
        amounts_are_split_at_their_point(w, f.push('0'));
        assert forall|j: int| 0 <= j < f.push('0').len() implies decimal::is_digit(
            #[trigger] f.push('0')[j],
        ) by {}
        assert(is_decimal(t));
        decimal::a_further_digit_makes_tenfold(f, '0');
        let v = decimal::digits_value(f);
        let p = decimal::pow10((1 - f.len()) as nat);
        assert(decimal::pow10((2 - f.len()) as nat) == 10 * p);
        assert((10 * v) * p == v * (10 * p)) by (nonlinear_arith);
        assert(units(t, 2) == units(s, 2));
    }
}

/// Law: a zero before the point, or before a whole number, changes nothing.
pub proof fn leading_zeros_change_nothing(s: Seq<char>, rate: nat)
    requires
        is_decimal(s),
    ensures
        piconero(seq!['0'] + s) == piconero(s),
        price(seq!['0'] + s, rate) == price(s, rate),
{
    lemma_point_index_bounded(s);
    let z = seq!['0'] + s;
    let p = point_index(s) as int;
    assert forall|j: int| 0 <= j < p + 1 implies z[j] != '.' by {
        if j > 0 {
            assert(z[j] == s[j - 1]);
        }
    }
    assert(p < s.len() ==> z[p + 1] == s[p]);
    lemma_point_at(z, p + 1);
    assert(whole_part(z) =~= seq!['0'] + whole_part(s));
    assert(fraction_part(z) =~= fraction_part(s));
    decimal::digits_behind_digits(seq!['0'], whole_part(s));
    decimal::a_further_digit_makes_tenfold(Seq::<char>::empty(), '0');
    assert(Seq::<char>::empty().push('0') =~= seq!['0']);
    let q = decimal::pow10(whole_part(s).len());
    assert(0 * q == 0) by (nonlinear_arith);
    assert forall|i: int| 0 <= i < whole_part(z).len() implies decimal::is_digit(
        #[trigger] whole_part(z)[i],
    ) by {
        if i > 0 {
            assert(whole_part(z)[i] == whole_part(s)[i - 1]);
        }
    }
    assert(is_decimal(z));
}

/// Law: an amount is displayed as digits, a point and twelve digits, without a needless zero
/// in front.
pub proof fn amounts_are_displayed_in_full(n: u64)
    ensures
        ({
            let t = xmr_text(n as nat);
            &&& t.len() >= 14
            &&& t[t.len() - 13] == '.'
            &&& forall|i: int|
                0 <= i < t.len() && i != t.len() - 13 ==> '0' <= #[trigger] t[i] <= '9'
            &&& t[0] == '0' ==> t.len() == 14
        }),
{
    let unit = PICONERO_PER_XMR as nat;
    let whole = decimal::decimal_digits(n as nat / unit);
    let fraction = decimal::padded_digits(n as nat % unit, XMR_PLACES as nat);
    let t = xmr_text(n as nat);
    lemma_pow10_of_places();
    decimal::decimal_digits_denote(n as nat / unit);
    decimal::padded_digits_denote(n as nat % unit, XMR_PLACES as nat);
    decimal::numbers_are_written_without_leading_zeros(n as nat / unit);
    assert(t =~= whole + seq!['.'] + fraction);
    assert forall|i: int| 0 <= i < t.len() && i != t.len() - 13 implies '0' <= #[trigger] t[i]
        <= '9' by {
        if i < whole.len() {
            assert(decimal::is_digit(whole[i]));
        } else {
            assert(decimal::is_digit(fraction[i - whole.len() - 1]));
        }
    }
}

/// Law: a rate is found under its currency's own code, and under no other.
pub proof fn rates_are_found_under_their_code(rates: Map<String, u64>, currency: Seq<char>)
    ensures
        match rate_for(rates, currency) {
            Some(rate) => exists|code: String| #[trigger]
                rates.contains_key(code) && code@ == currency && rates[code] == rate,
            None => forall|code: String| #[trigger] rates.contains_key(code) ==> code@ != currency,
        },
{
}

/// Law: a customer is told why an amount was refused, in other words for each reason.
pub proof fn refused_amounts_are_told_apart(a: AmountError, b: AmountError)
    ensures
        amount_error_text(AmountError::InvalidDecimal) == "amount is not a valid decimal number"@,
        amount_error_text(AmountError::NotPositive) == "amount must be positive"@,
        amount_error_text(AmountError::TooManyDecimalPlaces)
            == "amount has more than 2 decimal places"@,
        amount_error_text(AmountError::TooLarge) == "amount is too large to represent in piconero"@,
        amount_error_text(a) == amount_error_text(b) ==> a == b,
{
    reveal_strlit("amount is not a valid decimal number");
    reveal_strlit("amount must be positive");
    reveal_strlit("amount has more than 2 decimal places");
    reveal_strlit("amount is too large to represent in piconero");
    assert("amount is not a valid decimal number"@.len() == 36);
    assert("amount must be positive"@.len() == 23);
    assert("amount has more than 2 decimal places"@.len() == 37);
    assert("amount is too large to represent in piconero"@.len() == 44);
}

} // verus!
