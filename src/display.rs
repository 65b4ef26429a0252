//! Display cells and the formatting of one value into one cell.
use vstd::prelude::*;

use crate::model::Item;
use crate::money::{
    Currency, Money, abs, amount_text, decimal_text, digits, en_grouped, format_amount,
    format_signed_amount, grouped_text, signed_amount_text,
};
use crate::quote::Quote;

verus! {

/// Horizontal alignment of a cell's text.
#[derive(Clone, Copy, Debug, PartialEq, Eq, Structural)]
pub enum Align {
    Left,
    Center,
    Right,
}

/// Foreground colour of a cell's text.
#[derive(Clone, Copy, Debug, PartialEq, Eq, Structural)]
pub enum Color {
    Plain,
    Green,
    Red,
}

/// One table cell: its text and the style hints for painting it.
#[derive(Clone, Debug)]
pub struct Cell {
    pub text: String,
    pub align: Align,
    pub bold: bool,
    pub color: Color,
}

/// What a cell shows: text, alignment, boldness, colour.
pub struct CellView {
    pub text: Seq<char>,
    pub align: Align,
    pub bold: bool,
    pub color: Color,
}

impl View for Cell {
    type V = CellView;

    open spec fn view(&self) -> CellView {
        CellView { text: self.text@, align: self.align, bold: self.bold, color: self.color }
    }
}

pub open spec fn plain(text: Seq<char>, align: Align) -> CellView {
    CellView { text, align, bold: false, color: Color::Plain }
}

/// The placeholder shown where a value is absent: a centred dash.
pub open spec fn placeholder() -> CellView {
    plain(seq!['-'], Align::Center)
}

pub open spec fn bolded(c: CellView) -> CellView {
    CellView { bold: true, ..c }
}

/// A percentage given in hundredths: the whole part, a point, and one
/// decimal, or two where the second is not zero (250 gives "2.5", 300 gives
/// "3.0", 257 gives "2.57").
pub open spec fn percent_text(hundredths: nat) -> Seq<char> {
    let frac = (hundredths % 100) as int;
    decimal_text(hundredths / 100) + seq!['.'] + if frac % 10 == 0 {
        seq![digits()[frac / 10]]
    } else {
        seq![digits()[frac / 10], digits()[frac % 10]]
    }
}

/// The arrow of a change: up where the change is not negative.
pub open spec fn arrow(minor: int) -> char {
    if minor >= 0 { '\u{2191}' } else { '\u{2193}' }
}

/// Text of a change: the signed amount, a space, the arrow, the magnitude
/// of the percentage and a percent sign.
pub open spec fn change_text(change: Money, hundredths: int) -> Seq<char> {
    signed_amount_text(change.minor as int, change.currency)->0 + seq![
        ' ',
        arrow(change.minor as int),
    ] + percent_text(abs(hundredths) as nat) + seq!['%']
}

/// The cell of an amount: right-aligned text, or the placeholder where its
/// magnitude does not fit in an `i64` (only a holding's value can be that
/// large).
pub open spec fn amount_cell(minor: int, currency: Currency) -> CellView {
    match amount_text(minor, currency) {
        Some(t) => plain(t, Align::Right),
        None => placeholder(),
    }
}

pub open spec fn price_view(m: Money) -> CellView {
    amount_cell(m.minor as int, m.currency)
}

pub open spec fn number_view(n: int) -> CellView {
    plain(grouped_text(n), Align::Right)
}

/// The change cell of a quote: coloured by the sign of the change, or the
/// placeholder where the change or the percentage is absent.
pub open spec fn change_view(q: Quote) -> CellView {
    match (q.change, q.percentage) {
        (Some(c), Some(p)) => CellView {
            text: change_text(c, p as int),
            align: Align::Right,
            bold: false,
            color: if c.minor >= 0 { Color::Green } else { Color::Red },
        },
        _ => placeholder(),
    }
}

fn digit_str(d: u64) -> (r: &'static str)
    requires
        d < 10,
    ensures
        r@ == seq![digits()[d as int]],
{
    proof {
        reveal_strlit("0");
        reveal_strlit("1");
        reveal_strlit("2");
        reveal_strlit("3");
        reveal_strlit("4");
        reveal_strlit("5");
        reveal_strlit("6");
        reveal_strlit("7");
        reveal_strlit("8");
        reveal_strlit("9");
    }
    match d {
        0 => "0",
        1 => "1",
        2 => "2",
        3 => "3",
        4 => "4",
        5 => "5",
        6 => "6",
        7 => "7",
        8 => "8",
        _ => "9",
    }
}

/// Writes `n` in decimal.
pub fn decimal_string(n: u64) -> (r: String)
    ensures
        r@ == decimal_text(n as nat),
    decreases n,
{
    if n < 10 {
        String::from_str(digit_str(n))
    } else {
        let mut s = decimal_string(n / 10);
        s.append(digit_str(n % 10));
        s
    }
}

/// Writes a percentage given in hundredths as `percent_text` describes.
pub fn percent_string(hundredths: u64) -> (r: String)
    ensures
        r@ == percent_text(hundredths as nat),
{
    let frac = hundredths % 100;
    let mut s = decimal_string(hundredths / 100);
    proof { reveal_strlit("."); }
    s.append(".");
    s.append(digit_str(frac / 10));
    if frac % 10 != 0 {
        s.append(digit_str(frac % 10));
    }
    s
}

fn styled(text: String, align: Align) -> (r: Cell)
    ensures
        r@ == plain(text@, align),
{
    Cell { text, align, bold: false, color: Color::Plain }
}

/// The same cell, in bold.
pub fn bold(cell: Cell) -> (r: Cell)
    ensures
        r@ == bolded(cell@),
{
    Cell { bold: true, ..cell }
}

/// The placeholder cell.
pub fn default_cell() -> (r: Cell)
    ensures
        r@ == placeholder(),
{
    let text = String::from_str("-");
    proof {
        reveal_strlit("-");
        assert(text@ =~= seq!['-']);
    }
    styled(text, Align::Center)
}

/// The cell of an amount of money.
pub fn price_cell(value: Money) -> (r: Cell)
    ensures
        r@ == price_view(value),
{
    match format_amount(value.minor as i128, value.currency) {
        Some(t) => styled(t, Align::Right),
        None => default_cell(),
    }
}

/// The cell of an amount of money, or `default` where there is none.
pub fn price_cell_or(value: Option<Money>, default: Cell) -> (r: Cell)
    ensures
        r@ == match value {
            Some(m) => price_view(m),
            None => default@,
        },
{
    match value {
        Some(v) => price_cell(v),
        None => default,
    }
}

/// The cell of a number, thousands grouped.
pub fn number_cell(value: i64) -> (r: Cell)
    ensures
        r@ == number_view(value as int),
{
    styled(en_grouped(value as i128), Align::Right)
}

/// The cell of a number, or `default` where there is none.
pub fn number_cell_or(value: Option<u64>, default: Cell) -> (r: Cell)
    ensures
        r@ == match value {
            Some(n) => number_view(n as int),
            None => default@,
        },
{
    match value {
        Some(n) => styled(en_grouped(n as i128), Align::Right),
        None => default,
    }
}

/// The symbol an item tracks.
pub fn item_symbol(item: &Item) -> (r: String)
    ensures
        r@ == item.symbol(),
{
    match item {
        Item::Watch(s) => s.clone(),
        Item::Price(s, _) => s.clone(),
    }
}

/// Text of a change of `change` and `percentage` hundredths of a percent.
pub fn change_string(change: &Money, percentage: i64) -> (r: String)
    ensures
        r@ == change_text(*change, percentage as int),
{
    let mut s = match format_signed_amount(change.minor as i128, change.currency) {
        Some(t) => t,
        None => String::new(),
    };
    let magnitude: u64 = if percentage < 0 {
        (-(percentage as i128)) as u64
    } else {
        percentage as u64
    };
    proof {
        reveal_strlit(" \u{2191}");
        reveal_strlit(" \u{2193}");
        reveal_strlit("%");
    }
    if change.minor >= 0 {
        s.append(" \u{2191}");
    } else {
        s.append(" \u{2193}");
    }
    let p = percent_string(magnitude);
    s.append(p.as_str());
    s.append("%");
    s
}

/// The change cell of a quote.
pub fn change_cell(quote: &Quote) -> (r: Cell)
    ensures
        r@ == change_view(*quote),
{
    match (quote.change, quote.percentage) {
        (Some(change), Some(percentage)) => Cell {
            text: change_string(&change, percentage),
            align: Align::Right,
            bold: false,
            color: if change.minor >= 0 { Color::Green } else { Color::Red },
        },
        _ => default_cell(),
    }
}

/// A change cell with both a change and a percentage is never the
/// placeholder: it is right-aligned, its arrow points up and it is green
/// where the change is not negative, down and red where it is.
pub proof fn lemma_change_arrow_and_color(q: Quote)
    requires
        q.change is Some,
        q.percentage is Some,
    ensures
        ({
            let c = q.change->0;
            let amount = signed_amount_text(c.minor as int, c.currency)->0;
            &&& change_view(q) != placeholder()
            &&& change_view(q).text[amount.len() + 1int] == (if c.minor >= 0 {
                '\u{2191}'
            } else {
                '\u{2193}'
            })
            &&& change_view(q).color == (if c.minor >= 0 { Color::Green } else { Color::Red })
            &&& change_view(q).align == Align::Right
        }),
{
    let c = q.change->0;
    let amount = signed_amount_text(c.minor as int, c.currency)->0;
    let rest = seq![' ', arrow(c.minor as int)];
    assert((amount + rest)[amount.len() + 1int] == arrow(c.minor as int));
}

/// A price cell always shows its amount's currency text, right-aligned.
pub proof fn lemma_price_is_written(m: Money)
    ensures
        amount_text(m.minor as int, m.currency) is Some,
        price_view(m) == plain(amount_text(m.minor as int, m.currency)->0, Align::Right),
{
}

} // verus!
