//! The holding ledger: what a portfolio tracks.
use vstd::prelude::*;

use crate::money::{Currency, Money, currency_of_code};

verus! {

/// Cost basis of a priced item.
#[derive(Clone, Copy, Debug, PartialEq, Eq, Structural)]
pub struct Holding {
    pub quantity: u32,
    pub purchase_price: Money,
}

/// A tracked entry: a bare watch on a symbol, or a symbol with a holding.
#[derive(Clone, Debug)]
pub enum Item {
    Watch(String),
    Price(String, Holding),
}

impl Item {
    pub open spec fn symbol(&self) -> Seq<char> {
        match self {
            Item::Watch(s) => s@,
            Item::Price(s, _) => s@,
        }
    }
}

/// A ledger: an optional default currency and
/// the items in the order they were added. The same symbol may appear twice.
#[derive(Clone, Debug)]
pub struct Portfolio {
    pub default_currency: Option<Currency>,
    pub items: Vec<Item>,
}

/// The symbols of `items`, in order.
pub open spec fn symbols_of(items: Seq<Item>) -> Seq<Seq<char>> {
    items.map_values(|i: Item| i.symbol())
}

/// Why a portfolio could not be loaded or saved.
#[derive(Clone, Debug)]
pub enum ModelError {
    /// The file could not be opened or created at this path.
    PathError(String),
    /// Reading or writing the open file failed.
    FileError(String),
    /// The file's contents do not describe a portfolio.
    ParseError(String),
    /// The portfolio could not be written out.
    WriteError(String),
}

/// An amount as the portfolio file holds it: major and minor parts, and a
/// three-letter currency code.
#[derive(Clone, Debug)]
pub struct MoneyRecord {
    pub major: i32,
    pub minor: i32,
    pub currency_code: String,
}

/// An item as the portfolio file holds it.
#[derive(Clone, Debug)]
pub struct HoldingRecord {
    pub symbol: String,
    pub watch_only: bool,
    pub quantity: Option<u32>,
    pub purchase_price: Option<MoneyRecord>,
}

/// A portfolio as its file holds it.
#[derive(Clone, Debug)]
pub struct PortfolioRecord {
    pub default_currency: Option<String>,
    pub holdings: Vec<HoldingRecord>,
}

pub open spec fn pow10(d: nat) -> int
    decreases d,
{
    if d == 0 { 1 } else { 10 * pow10((d - 1) as nat) }
}

/// The amount in minor units that a record of `major` and `minor` parts
/// stands for in a currency with `places` decimal places.
pub open spec fn record_amount(major: int, minor: int, places: u8) -> int {
    major * pow10(places as nat) + minor
}

/// Whether a money record names a listed currency and an amount that fits
/// in an `i32`.
pub open spec fn money_record_is_valid(r: MoneyRecord) -> bool {
    currency_of_code_listed(r.currency_code@) && {
        let v = record_amount(r.major as int, r.minor as int, (currency_of_code(r.currency_code@)->0).1);
        i32::MIN <= v <= i32::MAX
    }
}

pub open spec fn currency_of_code_listed(code: Seq<char>) -> bool {
    currency_of_code(code) is Some
}

/// Whether `m` is the amount that a valid money record stands for.
pub open spec fn money_of_record(r: MoneyRecord, m: Money) -> bool {
    &&& m.currency.numeric() == (currency_of_code(r.currency_code@)->0).0
    &&& m.minor == record_amount(r.major as int, r.minor as int, m.currency.places())
}

/// Whether a record describes an item: a watch, or a quantity and a
/// purchase price in a listed currency.
pub open spec fn record_is_valid(h: HoldingRecord) -> bool {
    h.watch_only || (h.quantity is Some && h.purchase_price is Some && money_record_is_valid(
        h.purchase_price->0,
    ))
}

/// Whether `i` is the item that a valid record describes.
pub open spec fn item_of_record(h: HoldingRecord, i: Item) -> bool {
    &&& i.symbol() == h.symbol@
    &&& if h.watch_only {
        i is Watch
    } else {
        &&& i is Price
        &&& i->Price_1.quantity == h.quantity->0
        &&& money_of_record(h.purchase_price->0, i->Price_1.purchase_price)
    }
}

/// Whether `r` is the record of amount `m`: its currency's code, and major
/// and minor parts that both carry the amount's sign.
pub open spec fn record_of_money(m: Money, r: MoneyRecord) -> bool {
    &&& r.currency_code@ == m.currency.code()
    &&& record_amount(r.major as int, r.minor as int, m.currency.places()) == m.minor
    &&& abs_below(r.minor as int, pow10(m.currency.places() as nat))
    &&& (r.major == 0 || r.minor == 0 || (r.major < 0) == (r.minor < 0))
}

/// Whether `r` is the record of item `i`.
pub open spec fn record_of_item(i: Item, r: HoldingRecord) -> bool {
    &&& r.symbol@ == i.symbol()
    &&& match i {
        Item::Watch(_) => r.watch_only && r.quantity is None && r.purchase_price is None,
        Item::Price(_, h) => {
            &&& !r.watch_only
            &&& r.quantity == Some(h.quantity)
            &&& r.purchase_price is Some
            &&& record_of_money(h.purchase_price, r.purchase_price->0)
        },
    }
}

pub open spec fn abs_below(x: int, bound: int) -> bool {
    -bound < x < bound
}

fn pow10_exec(d: u8) -> (r: i64)
    requires
        d < 9,
    ensures
        r == pow10(d as nat),
        0 < r <= 100_000_000,
{
    let mut r: i64 = 1;
    let mut k: u8 = 0;
    while k < d
        invariant
            k <= d < 9,
            r == pow10(k as nat),
        decreases d - k,
    {
        proof { lemma_pow10_bound((k + 1) as nat); }
        r = r * 10;
        k = k + 1;
    }
    proof { lemma_pow10_bound(d as nat); }
    r
}

proof fn lemma_pow10_positive(d: nat)
    ensures
        pow10(d) >= 1,
    decreases d,
{
    if d > 0 {
        lemma_pow10_positive((d - 1) as nat);
    }
}

proof fn lemma_pow10_bound(d: nat)
    requires
        d <= 8,
    ensures
        1 <= pow10(d) <= 100_000_000,
{
    lemma_pow10_positive(d);
    lemma_pow10_positive((8 - d) as nat);
    lemma_pow10_product(d, (8 - d) as nat);
    assert(pow10(8) == 100_000_000) by {
        reveal_with_fuel(pow10, 9);
    }
    assert(pow10(d) <= pow10(d) * pow10((8 - d) as nat)) by (nonlinear_arith)
        requires pow10((8 - d) as nat) >= 1, pow10(d) >= 1;
}

proof fn lemma_pow10_product(a: nat, b: nat)
    ensures
        pow10(a) * pow10(b) == pow10(a + b),
    decreases a,
{
    if a > 0 {
        lemma_pow10_product((a - 1) as nat, b);
        assert(pow10(a) * pow10(b) == 10 * (pow10((a - 1) as nat) * pow10(b))) by (nonlinear_arith)
            requires pow10(a) == 10 * pow10((a - 1) as nat);
    }
}

/// The amount a money record stands for, where it is valid.
pub fn money_from_record(r: &MoneyRecord) -> (m: Option<Money>)
    ensures
        m is Some <==> money_record_is_valid(*r),
        m matches Some(v) ==> money_of_record(*r, v),
{
    match Currency::with_code(r.currency_code.as_str()) {
        Some(c) => price_of(r.major, r.minor, c),
        None => None,
    }
}

/// The item a record describes, where it is valid.
pub fn item_from_record(h: &HoldingRecord) -> (r: Option<Item>)
    ensures
        r is Some <==> record_is_valid(*h),
        r matches Some(i) ==> item_of_record(*h, i),
{
    if h.watch_only {
        return Some(Item::Watch(h.symbol.clone()));
    }
    match (h.quantity, &h.purchase_price) {
        (Some(quantity), Some(price)) => match money_from_record(price) {
            Some(purchase_price) => Some(
                Item::Price(h.symbol.clone(), Holding { quantity, purchase_price }),
            ),
            None => None,
        },
        _ => None,
    }
}

/// The portfolio a file's record describes. Every item record must be
/// valid and a default currency code, where given, listed; else it is a
/// `ParseError`. Items keep the order of their records.
pub fn portfolio_from_record(r: &PortfolioRecord) -> (p: Result<Portfolio, ModelError>)
    ensures
        p is Ok <==> (forall|k: int| 0 <= k < r.holdings@.len() ==> record_is_valid(
            #[trigger] r.holdings@[k],
        )) && (r.default_currency matches Some(c) ==> currency_of_code(c@) is Some),
        p matches Ok(loaded) ==> {
            &&& loaded.items@.len() == r.holdings@.len()
            &&& forall|k: int|
                0 <= k < r.holdings@.len() ==> item_of_record(
                    #[trigger] r.holdings@[k],
                    loaded.items@[k],
                )
            &&& match r.default_currency {
                Some(c) => loaded.default_currency matches Some(d) && d.code() == c@,
                None => loaded.default_currency is None,
            }
        },
        p matches Err(e) ==> e is ParseError,
{
    let default_currency = match &r.default_currency {
        Some(code) => match Currency::with_code(code.as_str()) {
            Some(c) => Some(c),
            None => {
                return Err(ModelError::ParseError(String::from_str("unknown currency code")));
            },
        },
        None => None,
    };
    let mut items: Vec<Item> = Vec::new();
    let mut k: usize = 0;
    while k < r.holdings.len()
        invariant
            k <= r.holdings@.len(),
            items@.len() == k,
            forall|j: int| 0 <= j < k ==> record_is_valid(#[trigger] r.holdings@[j]),
            forall|j: int| 0 <= j < k ==> item_of_record(#[trigger] r.holdings@[j], items@[j]),
        decreases r.holdings@.len() - k,
    {
        match item_from_record(&r.holdings[k]) {
            Some(item) => {
                items.push(item);
            },
            None => {
                return Err(ModelError::ParseError(String::from_str("incomplete holding")));
            },
        }
        k = k + 1;
    }
    Ok(Portfolio { default_currency, items })
}

/// The record of an amount: major and minor parts, both carrying the sign,
/// and the currency's code.
pub fn money_to_record(m: Money) -> (r: MoneyRecord)
    ensures
        record_of_money(m, r),
{
    let places = m.currency.decimal_places();
    let scale = pow10_exec(places);
    let magnitude: i64 = if m.minor < 0 { -(m.minor as i64) } else { m.minor as i64 };
    let major_abs: i64 = magnitude / scale;
    let minor_abs: i64 = magnitude % scale;
    assert(major_abs * scale + minor_abs == magnitude) by (nonlinear_arith)
        requires major_abs == magnitude / scale, minor_abs == magnitude % scale, scale > 0;
    assert(major_abs <= magnitude) by (nonlinear_arith)
        requires major_abs == magnitude / scale, scale > 0, magnitude >= 0;
    let (major, minor): (i64, i64) = if m.minor < 0 {
        (-major_abs, -minor_abs)
    } else {
        (major_abs, minor_abs)
    };
    assert(major * scale + minor == m.minor) by (nonlinear_arith)
        requires
            major_abs * scale + minor_abs == magnitude,
            m.minor < 0 ==> major == -major_abs && minor == -minor_abs && magnitude == -m.minor,
            m.minor >= 0 ==> major == major_abs && minor == minor_abs && magnitude == m.minor,
    ;
    MoneyRecord { major: major as i32, minor: minor as i32, currency_code: m.currency.code_string() }
}

/// The record of a portfolio, each item in its place.
pub fn record_of_portfolio(p: &Portfolio) -> (r: PortfolioRecord)
    ensures
        r.holdings@.len() == p.items@.len(),
        forall|k: int|
            0 <= k < p.items@.len() ==> record_of_item(#[trigger] p.items@[k], r.holdings@[k]),
        match p.default_currency {
            Some(n) => r.default_currency matches Some(c) && c@ == n.code(),
            None => r.default_currency is None,
        },
{
    let default_currency = match p.default_currency {
        Some(c) => Some(c.code_string()),
        None => None,
    };
    let mut holdings: Vec<HoldingRecord> = Vec::new();
    let mut k: usize = 0;
    while k < p.items.len()
        invariant
            k <= p.items@.len(),
            holdings@.len() == k,
            forall|j: int| 0 <= j < k ==> record_of_item(#[trigger] p.items@[j], holdings@[j]),
        decreases p.items@.len() - k,
    {
        let rec = match &p.items[k] {
            Item::Watch(s) => HoldingRecord {
                symbol: s.clone(),
                watch_only: true,
                quantity: None,
                purchase_price: None,
            },
            Item::Price(s, h) => HoldingRecord {
                symbol: s.clone(),
                watch_only: false,
                quantity: Some(h.quantity),
                purchase_price: Some(money_to_record(h.purchase_price)),
            },
        };
        holdings.push(rec);
        k = k + 1;
    }
    PortfolioRecord { default_currency, holdings }
}

/// The amount `major * 10^places + minor` in minor units of `currency`;
/// `None` where it does not fit in an `i32`.
pub fn price_of(major: i32, minor: i32, currency: Currency) -> (r: Option<Money>)
    ensures
        ({
            let v = record_amount(major as int, minor as int, currency.places());
            &&& r is Some <==> i32::MIN <= v <= i32::MAX
            &&& r matches Some(m) ==> m == Money { minor: v as i32, currency }
        }),
{
    let scale = pow10_exec(currency.decimal_places());
    assert(-0x8000_0000 * 100_000_000 <= major * scale <= 0x8000_0000 * 100_000_000)
        by (nonlinear_arith)
        requires
            -0x8000_0000 <= major < 0x8000_0000,
            0 < scale <= 100_000_000,
    ;
    let v: i64 = (major as i64) * scale + (minor as i64);
    if v < i32::MIN as i64 || v > i32::MAX as i64 {
        None
    } else {
        Some(Money { minor: v as i32, currency })
    }
}

/// Saving a portfolio and loading what was saved gives back its items in
/// their order: the same symbols, each a watch or a holding as before, with
/// the same quantities and purchase prices. Every currency is listed, as
/// the currency type guarantees.
pub proof fn lemma_save_load_keeps_items(p: Portfolio, saved: PortfolioRecord, back: Portfolio)
    requires
        forall|k: int|
            0 <= k < p.items@.len() ==> (#[trigger] p.items@[k] matches Item::Price(_, h)
                ==> h.purchase_price.currency.is_valid()),
        forall|k: int|
            0 <= k < back.items@.len() ==> (#[trigger] back.items@[k] matches Item::Price(_, h)
                ==> h.purchase_price.currency.is_valid()),
        saved.holdings@.len() == p.items@.len(),
        forall|k: int|
            0 <= k < p.items@.len() ==> record_of_item(
                #[trigger] p.items@[k],
                saved.holdings@[k],
            ),
        back.items@.len() == saved.holdings@.len(),
        forall|k: int|
            0 <= k < saved.holdings@.len() ==> item_of_record(
                #[trigger] saved.holdings@[k],
                back.items@[k],
            ),
    ensures
        back.items@.len() == p.items@.len(),
        forall|k: int|
            0 <= k < p.items@.len() ==> {
                &&& (#[trigger] back.items@[k]).symbol() == p.items@[k].symbol()
                &&& (back.items@[k] is Watch <==> p.items@[k] is Watch)
                &&& (p.items@[k] matches Item::Price(_, h) ==> back.items@[k]->Price_1 == h)
            },
{
    assert forall|k: int| 0 <= k < p.items@.len() implies {
        &&& (#[trigger] back.items@[k]).symbol() == p.items@[k].symbol()
        &&& (back.items@[k] is Watch <==> p.items@[k] is Watch)
        &&& (p.items@[k] matches Item::Price(_, h) ==> back.items@[k]->Price_1 == h)
    } by {
        assert(record_of_item(p.items@[k], saved.holdings@[k]));
        assert(item_of_record(saved.holdings@[k], back.items@[k]));
        if let Item::Price(_, h) = p.items@[k] {
            let c = h.purchase_price.currency;
            let b = back.items@[k]->Price_1.purchase_price.currency;
            assert(back.items@[k] matches Item::Price(_, g) ==> g.purchase_price.currency.is_valid());
            Currency::lemma_same_numeric(c, b);
        }
    }
}

/// The items whose symbol is not `symbol`, in their order.
pub open spec fn without_symbol(items: Seq<Item>, symbol: Seq<char>) -> Seq<Item>
    decreases items.len(),
{
    if items.len() == 0 {
        seq![]
    } else {
        let rest = without_symbol(items.drop_last(), symbol);
        if items.last().symbol() == symbol {
            rest
        } else {
            rest.push(items.last())
        }
    }
}

fn copy_item(item: &Item) -> (r: Item)
    ensures
        r == *item,
{
    match item {
        Item::Watch(s) => Item::Watch(s.clone()),
        Item::Price(s, h) => Item::Price(s.clone(), *h),
    }
}

/// The items left after removing every item of `symbol`.
pub fn remove_symbol(items: &Vec<Item>, symbol: &String) -> (r: Vec<Item>)
    ensures
        r@ == without_symbol(items@, symbol@),
{
    let mut kept: Vec<Item> = Vec::new();
    let mut i: usize = 0;
    while i < items.len()
        invariant
            i <= items@.len(),
            kept@ == without_symbol(items@.take(i as int), symbol@),
        decreases items@.len() - i,
    {
        assert(items@.take(i + 1).drop_last() =~= items@.take(i as int));
        assert(items@.take(i + 1).last() == items@[i as int]);
        let item = copy_item(&items[i]);
        let s = crate::display::item_symbol(&item);
        if s != *symbol {
            kept.push(item);
        }
        i = i + 1;
    }
    assert(items@.take(items@.len() as int) =~= items@);
    kept
}

/// The value of a string of decimal digits.
pub open spec fn digits_value(s: Seq<char>) -> int
    decreases s.len(),
{
    if s.len() == 0 {
        0
    } else {
        digits_value(s.drop_last()) * 10 + (s.last() as int - '0' as int)
    }
}

pub open spec fn all_digits(s: Seq<char>) -> bool {
    forall|i: int| 0 <= i < s.len() ==> '0' <= #[trigger] s[i] <= '9'
}

/// The integer a text spells: an optional sign, then one or more decimal
/// digits, and nothing else.
pub open spec fn integer_of_text(s: Seq<char>) -> Option<int> {
    if s.len() > 0 && (s[0] == '+' || s[0] == '-') {
        let rest = s.skip(1);
        if rest.len() > 0 && all_digits(rest) {
            Some(if s[0] == '-' { -digits_value(rest) } else { digits_value(rest) })
        } else {
            None
        }
    } else if s.len() > 0 && all_digits(s) {
        Some(digits_value(s))
    } else {
        None
    }
}

/// The `i32` a text spells, where it is one.
pub open spec fn i32_of_text(s: Seq<char>) -> Option<i32> {
    match integer_of_text(s) {
        Some(v) => if i32::MIN <= v <= i32::MAX { Some(v as i32) } else { None },
        None => None,
    }
}

proof fn lemma_digits_value_nonneg(s: Seq<char>)
    requires
        all_digits(s),
    ensures
        digits_value(s) >= 0,
    decreases s.len(),
{
    if s.len() > 0 {
        lemma_digits_value_nonneg(s.drop_last());
    }
}

/// Reads an `i32` from the characters of `s` in `from..to`.
fn parse_i32_range(s: &str, from: usize, to: usize) -> (r: Option<i32>)
    requires
        from <= to <= s@.len(),
    ensures
        r == i32_of_text(s@.subrange(from as int, to as int)),
{
    let ghost text = s@.subrange(from as int, to as int);
    if from == to {
        return None;
    }
    let first = s.get_char(from);
    let negative = first == '-';
    let start: usize = if first == '-' || first == '+' { from + 1 } else { from };
    let ghost digits = s@.subrange(start as int, to as int);
    assert(text[0] == first);
    proof {
        if first == '-' || first == '+' {
            assert(digits =~= text.skip(1));
        } else {
            assert(digits =~= text);
        }
    }
    if start == to {
        return None;
    }
    let mut value: i64 = 0;
    let mut i: usize = start;
    while i < to
        invariant
            start <= i <= to <= s@.len(),
            start < to,
            digits == s@.subrange(start as int, to as int),
            text == s@.subrange(from as int, to as int),
            text.len() > 0,
            text[0] == first,
            negative == (first == '-'),
            first == '-' || first == '+' ==> digits == text.skip(1),
            !(first == '-' || first == '+') ==> digits == text,
            all_digits(s@.subrange(start as int, i as int)),
            value == digits_value(s@.subrange(start as int, i as int)),
            0 <= value <= 0x8000_0000,
        decreases to - i,
    {
        let c = s.get_char(i);
        let ghost before = s@.subrange(start as int, i as int);
        let ghost after = s@.subrange(start as int, i + 1);
        assert(after.drop_last() =~= before);
        assert(after.last() == c);
        if c < '0' || c > '9' {
            assert(digits[i - start] == c);
            assert(!all_digits(digits));
            proof {
                if first == '-' || first == '+' {
                    assert(text.skip(1) == digits);
                    assert(!all_digits(text.skip(1)));
                } else {
                    assert(text == digits);
                }
                assert(integer_of_text(text) is None);
            }
            return None;
        }
        let d = (c as u32 - '0' as u32) as i64;
        value = value * 10 + d;
        assert forall|j: int| 0 <= j < after.len() implies '0' <= #[trigger] after[j] <= '9' by {
            if j < before.len() {
                assert(after[j] == before[j]);
            }
        }
        if value > 0x8000_0000 {
            proof {
                assert(digits.take((i + 1 - start) as int) =~= after);
                lemma_digits_prefix_grows(digits, (i + 1 - start) as int);
                assert(all_digits(digits) ==> digits_value(digits) > 0x8000_0000);
            }
            return None;
        }
        i = i + 1;
    }
    assert(s@.subrange(start as int, to as int) =~= digits);
    if negative {
        Some((-value) as i32)
    } else if value > 0x7fff_ffff {
        None
    } else {
        Some(value as i32)
    }
}

/// The value of a digit string is at least that of any of its prefixes.
proof fn lemma_digits_prefix_grows(s: Seq<char>, k: int)
    requires
        0 <= k <= s.len(),
        all_digits(s.take(k)),
    ensures
        all_digits(s) ==> digits_value(s) >= digits_value(s.take(k)),
    decreases s.len() - k,
{
    if k < s.len() && all_digits(s) {
        let t = s.take(k + 1);
        assert(t.drop_last() =~= s.take(k));
        assert(all_digits(t));
        lemma_digits_value_nonneg(s.take(k));
        lemma_digits_prefix_grows(s, k + 1);
    } else if k == s.len() {
        assert(s.take(k) =~= s);
    }
}

/// Where `.` first stands in `s`, if anywhere.
fn find_point(s: &str) -> (r: Option<usize>)
    ensures
        r matches Some(k) ==> k < s@.len() && s@[k as int] == '.' && forall|j: int|
            0 <= j < k ==> s@[j] != '.',
        r is None ==> forall|j: int| 0 <= j < s@.len() ==> s@[j] != '.',
{
    let n = s.unicode_len();
    let mut k: usize = 0;
    while k < n
        invariant
            n == s@.len(),
            k <= n,
            forall|j: int| 0 <= j < k ==> s@[j] != '.',
        decreases n - k,
    {
        if s.get_char(k) == '.' {
            return Some(k);
        }
        k = k + 1;
    }
    None
}

/// The price a text gives in `currency`: "12" is twelve major units, "12.34"
/// twelve major units and thirty-four minor ones; each part is an `i32`
/// with an optional sign, and there is at most one point.
pub open spec fn price_of_text(s: Seq<char>, currency: Currency) -> Option<Money> {
    let parts = if exists|k: int| 0 <= k < s.len() && s[k] == '.' {
        let k = choose|k: int| 0 <= k < s.len() && s[k] == '.' && forall|j: int|
            0 <= j < k ==> s[j] != '.';
        (i32_of_text(s.take(k)), i32_of_text(s.skip(k + 1)))
    } else {
        (i32_of_text(s), Some(0i32))
    };
    match parts {
        (Some(major), Some(minor)) => {
            let v = record_amount(major as int, minor as int, currency.places());
            if i32::MIN <= v <= i32::MAX {
                Some(Money { minor: v as i32, currency })
            } else {
                None
            }
        },
        _ => None,
    }
}

/// Reads a price as `price_of_text` describes.
pub fn parse_price(text: &str, currency: Currency) -> (r: Option<Money>)
    ensures
        r == price_of_text(text@, currency),
{
    let n = text.unicode_len();
    let (major, minor) = match find_point(text) {
        Some(k) => {
            proof {
                let s = text@;
                assert(0 <= k < s.len() && s[k as int] == '.');
                let c = choose|c: int| 0 <= c < s.len() && s[c] == '.' && forall|j: int|
                    0 <= j < c ==> s[j] != '.';
                assert(c == k as int) by {
                    if c < k { assert(s[c] != '.'); }
                    if k < c { assert(s[k as int] != '.'); }
                }
                assert(s.subrange(0, k as int) =~= s.take(k as int));
                assert(s.subrange(k + 1, s.len() as int) =~= s.skip(k + 1));
            }
            (parse_i32_range(text, 0, k), parse_i32_range(text, k + 1, n))
        },
        None => {
            proof {
                assert(text@.subrange(0, text@.len() as int) =~= text@);
            }
            (parse_i32_range(text, 0, n), Some(0i32))
        },
    };
    match (major, minor) {
        (Some(a), Some(b)) => price_of(a, b, currency),
        _ => None,
    }
}

} // verus!
