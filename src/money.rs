//! Monetary amounts held as integer minor units, and their text forms.
use vstd::prelude::*;

verus! {

/// A currency that steel-cent's table lists, known by its ISO 4217 numeric
/// code (840 for USD).
#[derive(Clone, Copy, Debug, PartialEq, Eq, Structural)]
pub struct Currency {
    number: u16,
}

/// An amount of money in minor units (cents for USD) of a listed currency.
#[derive(Clone, Copy, Debug, PartialEq, Eq, Structural)]
pub struct Money {
    pub minor: i32,
    pub currency: Currency,
}

/// The three-letter code and the number of decimal places of the currency
/// that steel-cent's table lists under the numeric code `currency`.
pub uninterp spec fn currency_of_number(currency: u16) -> Option<(Seq<char>, u8)>;

/// The numeric code and the number of decimal places of the currency that
/// steel-cent's table lists under the three-letter `code`.
pub uninterp spec fn currency_of_code(code: Seq<char>) -> Option<(u16, u8)>;

/// Whether `code` is three upper-case ASCII letters.
pub open spec fn is_letter_code(code: Seq<char>) -> bool {
    code.len() == 3 && forall|i: int| 0 <= i < 3 ==> 'A' <= #[trigger] code[i] <= 'Z'
}

/// Whether the table lists a currency under the numeric code `number`, whose
/// letter code leads back to it.
pub open spec fn is_listed_number(number: u16) -> bool {
    &&& number < 1000
    &&& currency_of_number(number) matches Some((code, places))
    &&& is_letter_code(code)
    &&& places < 9
    &&& currency_of_code(code) == Some((number, places))
}

impl Currency {
    #[verifier::type_invariant]
    spec fn listed(self) -> bool {
        is_listed_number(self.number)
    }

    /// The ISO 4217 numeric code.
    pub closed spec fn numeric(self) -> u16 {
        self.number
    }

    /// The three-letter code.
    pub open spec fn code(self) -> Seq<char> {
        (currency_of_number(self.numeric())->0).0
    }

    /// The number of decimal places of the minor unit.
    pub open spec fn places(self) -> u8 {
        (currency_of_number(self.numeric())->0).1
    }

    /// Every currency value that code holds is listed.
    pub open spec fn is_valid(self) -> bool {
        is_listed_number(self.numeric())
    }

    /// Shows that a currency is listed.
    pub fn check_listed(&self)
        ensures
            self.is_valid(),
    {
        proof { use_type_invariant(self); }
    }

    /// The currency listed under a numeric code.
    pub fn with_numeric_code(number: u16) -> (r: Option<Currency>)
        ensures
            r is Some <==> currency_of_number(number) is Some,
            r matches Some(c) ==> c.numeric() == number,
    {
        match currency_by_number(number) {
            Some(_) => Some(Currency { number }),
            None => None,
        }
    }

    /// The currency listed under a three-letter code.
    pub fn with_code(code: &str) -> (r: Option<Currency>)
        ensures
            r is Some <==> currency_of_code(code@) is Some,
            r matches Some(c) ==> Some((c.numeric(), c.places())) == currency_of_code(code@)
                && c.code() == code@,
    {
        match currency_by_code(code) {
            Some((number, _)) => Some(Currency { number }),
            None => None,
        }
    }

    /// Two currencies with the same numeric code are the same.
    pub proof fn lemma_same_numeric(a: Currency, b: Currency)
        requires
            a.numeric() == b.numeric(),
        ensures
            a == b,
    {
    }

    /// The number of decimal places of the minor unit.
    pub fn decimal_places(&self) -> (r: u8)
        ensures
            r == self.places(),
            r < 9,
    {
        self.details().1
    }

    /// The ISO 4217 numeric code.
    pub fn numeric_code(&self) -> (r: u16)
        ensures
            r == self.numeric(),
    {
        self.number
    }

    /// The three-letter code.
    pub fn code_string(&self) -> (r: String)
        ensures
            r@ == self.code(),
    {
        proof { use_type_invariant(self); }
        match currency_by_number(self.number) {
            Some((code, _)) => code,
            None => String::new(),
        }
    }

    /// The number of decimal places and the text of the code.
    fn details(&self) -> (r: (String, u8))
        ensures
            r.0@ == self.code(),
            r.1 == self.places(),
            is_letter_code(r.0@),
            r.1 < 9,
            self.numeric() < 1000,
    {
        proof { use_type_invariant(self); }
        match currency_by_number(self.number) {
            Some(d) => d,
            None => (String::new(), 0),
        }
    }
}

pub open spec fn digits() -> Seq<char> {
    seq!['0', '1', '2', '3', '4', '5', '6', '7', '8', '9']
}

/// Decimal digits of `n`, without leading zeros.
pub open spec fn decimal_text(n: nat) -> Seq<char>
    decreases n,
{
    if n < 10 {
        seq![digits()[n as int]]
    } else {
        decimal_text(n / 10).push(digits()[(n % 10) as int])
    }
}

/// A string of digits with a comma before each group of three, counted
/// from the right.
pub open spec fn comma_grouped(s: Seq<char>) -> Seq<char>
    decreases s.len(),
{
    if s.len() <= 3 {
        s
    } else {
        comma_grouped(s.take(s.len() - 3)) + seq![','] + s.skip(s.len() - 3)
    }
}

/// `n` in decimal, thousands separated by commas, a minus sign before a
/// negative number.
pub open spec fn grouped_text(n: int) -> Seq<char> {
    if n < 0 {
        seq!['-'] + comma_grouped(decimal_text((-n) as nat))
    } else {
        comma_grouped(decimal_text(n as nat))
    }
}

/// The digits `s` of an amount in minor units, with a point before the last
/// `places` of them: the major part comma-grouped, or "0" and zeros where
/// there are no more digits than places.
pub open spec fn decimal_amount(s: Seq<char>, places: nat) -> Seq<char> {
    if s.len() > places {
        comma_grouped(s.take(s.len() - places)) + seq!['.'] + s.skip(s.len() - places)
    } else {
        seq!['0', '.'] + Seq::new((places - s.len()) as nat, |i: int| '0') + s
    }
}

/// The text steel-cent's US style gives `minor` (not negative) units of a
/// currency: "$" for US dollars and the letter code for any other, then the
/// amount.
pub open spec fn us_money_text(minor: nat, code: Seq<char>, number: u16, places: u8) -> Seq<char> {
    let symbol = if code == seq!['U', 'S', 'D'] && number == 840 && places == 2 {
        seq!['$']
    } else {
        code
    };
    symbol + decimal_amount(decimal_text(minor), places as nat)
}

/// Relies on steel_cent::formatting::format with us_style, on a Money made by
/// Money::of_minor in the currency that Currency::new makes of these values.
/// Currency::new asserts a numeric code under 1000, fewer than nine decimal
/// places, and a code of three upper-case letters.
#[verifier::external_body]
fn us_style_text(minor: i64, code: &str, number: u16, places: u8) -> (r: String)
    requires
        minor >= 0,
        is_letter_code(code@),
        number < 1000,
        places < 9,
    ensures
        r@ == us_money_text(minor as nat, code@, number, places),
{
    let currency = steel_cent::currency::Currency::new(code, number, places);
    steel_cent::formatting::format(
        steel_cent::formatting::us_style(),
        &steel_cent::Money::of_minor(currency, minor),
    )
}

/// Relies on steel_cent::currency::with_numeric_code to find the currency
/// listed under a numeric code, and on its `code` and `decimal_places`.
/// The table holds each letter code and each numeric code once, every
/// numeric code under 1000 and fewer than nine decimal places, as
/// Currency::new asserts; `code` spells the stored base-26 value with three
/// letters from 'A'.
#[verifier::external_body]
pub(crate) fn currency_by_number(currency: u16) -> (r: Option<(String, u8)>)
    ensures
        r is Some <==> currency_of_number(currency) is Some,
        r matches Some((c, d)) ==> currency_of_number(currency) == Some((c@, d)),
        r matches Some((c, d)) ==> d < 9 && is_letter_code(c@) && currency < 1000,
        r matches Some((c, d)) ==> currency_of_code(c@) == Some((currency, d)),
{
    match steel_cent::currency::with_numeric_code(&currency) {
        Some(c) => Some((c.code(), c.decimal_places())),
        None => None,
    }
}

/// Relies on steel_cent::currency::with_code to find the currency listed
/// under a three-letter code, and on its `numeric_code` and
/// `decimal_places`; the table is the one `with_numeric_code` reads.
#[verifier::external_body]
pub(crate) fn currency_by_code(code: &str) -> (r: Option<(u16, u8)>)
    ensures
        r == currency_of_code(code@),
        r matches Some((n, d)) ==> d < 9 && n < 1000 && is_letter_code(code@),
        r matches Some((n, d)) ==> currency_of_number(n) == Some((code@, d)),
{
    match steel_cent::currency::with_code(code) {
        Some(c) => Some((c.numeric_code(), c.decimal_places())),
        None => None,
    }
}

/// Relies on num_format's ToFormattedString with Locale::en: thousands
/// grouped by commas, a leading minus for a negative number.
#[verifier::external_body]
pub(crate) fn en_grouped(n: i128) -> (r: String)
    ensures
        r@ == grouped_text(n as int),
{
    num_format::ToFormattedString::to_formatted_string(&n, &num_format::Locale::en)
}

pub open spec fn abs(x: int) -> int {
    if x < 0 { -x } else { x }
}

/// The minus sign written before a negative amount.
pub open spec fn minus_sign() -> Seq<char> {
    seq!['\u{2212}']
}

/// Text of an amount of `minor` units of `currency`: a minus sign before a
/// negative amount, nothing before another; `None` where the magnitude does
/// not fit in an `i64`.
pub open spec fn amount_text(minor: int, currency: Currency) -> Option<Seq<char>> {
    if abs(minor) <= i64::MAX {
        let text = us_money_text(abs(minor) as nat, currency.code(), currency.numeric(), currency.places());
        Some(if minor < 0 { minus_sign() + text } else { text })
    } else {
        None
    }
}

/// Like `amount_text`, with a plus sign before a non-negative amount.
pub open spec fn signed_amount_text(minor: int, currency: Currency) -> Option<Seq<char>> {
    match amount_text(minor, currency) {
        Some(t) => Some(if minor < 0 { t } else { seq!['+'] + t }),
        None => None,
    }
}

/// Writes `minor` units of `currency` as `amount_text` describes.
pub fn format_amount(minor: i128, currency: Currency) -> (r: Option<String>)
    ensures
        r matches Some(t) ==> amount_text(minor as int, currency) == Some(t@),
        r is None <==> amount_text(minor as int, currency) is None,
{
    if minor > i64::MAX as i128 || minor < -(i64::MAX as i128) {
        return None;
    }
    let magnitude: i64 = if minor < 0 { (-minor) as i64 } else { minor as i64 };
    let (code, places) = currency.details();
    let t = us_style_text(magnitude, code.as_str(), currency.numeric_code(), places);
    if minor < 0 {
        let mut s = String::from_str("\u{2212}");
        proof { reveal_strlit("\u{2212}"); }
        s.append(t.as_str());
        Some(s)
    } else {
        Some(t)
    }
}

/// Writes `minor` units of `currency` as `signed_amount_text` describes.
pub fn format_signed_amount(minor: i128, currency: Currency) -> (r: Option<String>)
    ensures
        r matches Some(t) ==> signed_amount_text(minor as int, currency) == Some(t@),
        r is None <==> signed_amount_text(minor as int, currency) is None,
{
    match format_amount(minor, currency) {
        Some(t) => {
            if minor < 0 {
                Some(t)
            } else {
                let mut s = String::from_str("+");
                proof { reveal_strlit("+"); }
                s.append(t.as_str());
                Some(s)
            }
        },
        None => None,
    }
}

} // verus!
