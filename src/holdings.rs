//! The holdings view: the priced items with their cost basis, and the list
//! of symbols that are only watched.
use vstd::prelude::*;

use crate::display::{
    Align, Cell, CellView, Color, default_cell, number_cell, number_view, placeholder, plain,
    price_cell, price_view,
};
use crate::model::{Item, Portfolio};
use crate::show::{Table, cells_view, texts};

verus! {

pub open spec fn holdings_titles() -> Seq<Seq<char>> {
    seq!["Symbol"@, "Purchase Date"@, "Purchase Price"@, "Quantity"@]
}

/// One row per priced item, in item order; watched items give none.
pub open spec fn holding_rows(items: Seq<Item>) -> Seq<Seq<CellView>>
    decreases items.len(),
{
    if items.len() == 0 {
        seq![]
    } else {
        let rest = holding_rows(items.drop_last());
        match items.last() {
            Item::Price(s, h) => rest.push(
                seq![
                    plain(s@, Align::Left),
                    placeholder(),
                    price_view(h.purchase_price),
                    number_view(h.quantity as int),
                ],
            ),
            Item::Watch(_) => rest,
        }
    }
}

/// The symbols of the watched items, in item order.
pub open spec fn watched(items: Seq<Item>) -> Seq<Seq<char>>
    decreases items.len(),
{
    if items.len() == 0 {
        seq![]
    } else {
        let rest = watched(items.drop_last());
        match items.last() {
            Item::Watch(s) => rest.push(s@),
            Item::Price(_, _) => rest,
        }
    }
}

/// The strings of `s` with `sep` between each two.
pub open spec fn joined(s: Seq<Seq<char>>, sep: Seq<char>) -> Seq<char>
    decreases s.len(),
{
    if s.len() == 0 {
        seq![]
    } else if s.len() == 1 {
        s[0]
    } else {
        joined(s.drop_last(), sep) + sep + s.last()
    }
}

/// The line that lists the watched symbols.
pub open spec fn watching_line(items: Seq<Item>) -> Seq<char> {
    "Also watching: "@ + joined(watched(items), ", "@)
}

/// The table of priced items, and the line listing the watched symbols.
pub fn show_holdings(portfolio: &Portfolio) -> (r: (Table, String))
    ensures
        r.0.titles_view() == holdings_titles(),
        r.0.rows_view() == holding_rows(portfolio.items@),
        r.1@ == watching_line(portfolio.items@),
{
    let mut titles: Vec<String> = Vec::new();
    titles.push(String::from_str("Symbol"));
    titles.push(String::from_str("Purchase Date"));
    titles.push(String::from_str("Purchase Price"));
    titles.push(String::from_str("Quantity"));
    let mut table = Table { titles, rows: Vec::new() };
    assert(table.titles_view() =~= holdings_titles());
    let mut names: Vec<String> = Vec::new();
    let items = &portfolio.items;
    let mut i: usize = 0;
    while i < items.len()
        invariant
            i <= items@.len(),
            table.titles_view() == holdings_titles(),
            table.rows_view() == holding_rows(items@.take(i as int)),
            texts(names@) == watched(items@.take(i as int)),
        decreases items@.len() - i,
    {
        assert(items@.take(i + 1).drop_last() =~= items@.take(i as int));
        match &items[i] {
            Item::Price(s, h) => {
                let mut row: Vec<Cell> = Vec::new();
                row.push(Cell { text: s.clone(), align: Align::Left, bold: false, color: Color::Plain });
                row.push(default_cell());
                row.push(price_cell(h.purchase_price));
                row.push(number_cell(h.quantity as i64));
                let ghost before = table.rows_view();
                assert(items@.take(i + 1).last() == items@[i as int]);
                assert(cells_view(row@) =~= seq![
                    plain(s@, Align::Left),
                    placeholder(),
                    price_view(h.purchase_price),
                    number_view(h.quantity as int),
                ]);
                let ghost rv = cells_view(row@);
                table.rows.push(row);
                assert(table.rows_view() =~= before.push(rv));
                assert(table.rows_view() =~= holding_rows(items@.take(i + 1)));
            },
            Item::Watch(s) => {
                let ghost before = names@;
                assert(items@.take(i + 1).last() == items@[i as int]);
                names.push(s.clone());
                assert(texts(names@) =~= texts(before).push(s@));
            },
        }
        i = i + 1;
    }
    assert(items@.take(items@.len() as int) =~= items@);
    let mut line = String::from_str("Also watching: ");
    let mut j: usize = 0;
    while j < names.len()
        invariant
            j <= names@.len(),
            line@ == "Also watching: "@ + joined(texts(names@).take(j as int), ", "@),
        decreases names@.len() - j,
    {
        let ghost prefix = texts(names@).take(j as int);
        assert(texts(names@).take(j + 1).drop_last() =~= prefix);
        if j > 0 {
            line.append(", ");
        }
        line.append(names[j].as_str());
        proof {
            if j == 0 {
                assert(texts(names@).take(1) =~= seq![names@[0]@]);
            }
        }
        assert(line@ =~= "Also watching: "@ + joined(texts(names@).take(j + 1), ", "@));
        j = j + 1;
    }
    assert(texts(names@).take(names@.len() as int) =~= texts(names@));
    (table, line)
}

} // verus!
