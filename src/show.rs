//! The render pass: one quote fetched per distinct symbol, then one row per
//! item under a fixed header.
use vstd::prelude::*;

use crate::display::{
    CellView, Cell, bold, bolded, change_cell, change_view, default_cell, number_cell,
    number_cell_or, number_view, placeholder, plain, price_cell, price_view, amount_cell,
    Align, Color, item_symbol,
};
use crate::model::{Item, symbols_of};
use crate::money::format_amount;
use crate::quote::Quote;

verus! {

/// The distinct strings of `s`, each where it first occurs.
pub open spec fn first_occurrences(s: Seq<Seq<char>>) -> Seq<Seq<char>>
    decreases s.len(),
{
    if s.len() == 0 {
        seq![]
    } else {
        let before = first_occurrences(s.drop_last());
        if before.contains(s.last()) {
            before
        } else {
            before.push(s.last())
        }
    }
}

pub open spec fn texts(v: Seq<String>) -> Seq<Seq<char>> {
    v.map_values(|s: String| s@)
}

/// The columns of the portfolio table.
pub open spec fn portfolio_titles() -> Seq<Seq<char>> {
    seq![
        "Symbol"@,
        "Price"@,
        "Change"@,
        "Open"@,
        "Low"@,
        "High"@,
        "Close"@,
        "Volume"@,
        "Purchased"@,
        "Quantity"@,
        "Value"@,
    ]
}

/// Unrealised gain of a holding at the quote's price, in minor units.
pub open spec fn gain(item_price: int, quote_price: int, quantity: int) -> int {
    (quote_price - item_price) * quantity
}

/// The row of an item, given the quote of its symbol.
pub open spec fn row_view(item: Item, q: Quote) -> Seq<CellView> {
    let range_cells = match q.range {
        Some(r) => seq![
            price_view(r.open),
            price_view(r.low),
            price_view(r.high),
            price_view(r.close),
            match r.volume {
                Some(v) => number_view(v as int),
                None => placeholder(),
            },
        ],
        None => seq![placeholder(), placeholder(), placeholder(), placeholder(), placeholder()],
    };
    let holding_cells = match item {
        Item::Watch(_) => seq![placeholder(), placeholder(), placeholder()],
        Item::Price(_, h) => seq![
            bolded(price_view(h.purchase_price)),
            bolded(number_view(h.quantity as int)),
            if h.purchase_price.currency == q.price.currency {
                bolded(
                    amount_cell(
                        gain(
                            h.purchase_price.minor as int,
                            q.price.minor as int,
                            h.quantity as int,
                        ),
                        q.price.currency,
                    ),
                )
            } else {
                placeholder()
            },
        ],
    };
    seq![plain(item.symbol(), Align::Left), price_view(q.price), change_view(q)] + range_cells
        + holding_cells
}

pub open spec fn cells_view(row: Seq<Cell>) -> Seq<CellView> {
    row.map_values(|c: Cell| c@)
}

/// A table: column titles and rows of cells.
#[derive(Clone, Debug)]
pub struct Table {
    pub titles: Vec<String>,
    pub rows: Vec<Vec<Cell>>,
}

impl Table {
    pub open spec fn titles_view(&self) -> Seq<Seq<char>> {
        texts(self.titles@)
    }

    pub open spec fn rows_view(&self) -> Seq<Seq<CellView>> {
        self.rows@.map_values(|r: Vec<Cell>| cells_view(r@))
    }
}

/// Builds the row of `item` from the quote of its symbol.
pub fn item_row(item: &Item, quote: &Quote) -> (r: Vec<Cell>)
    ensures
        cells_view(r@) == row_view(*item, *quote),
{
    let mut row: Vec<Cell> = Vec::new();
    row.push(Cell {
        text: item_symbol(item),
        align: Align::Left,
        bold: false,
        color: Color::Plain,
    });
    row.push(price_cell(quote.price));
    row.push(change_cell(quote));
    match quote.range {
        Some(range) => {
            row.push(price_cell(range.open));
            row.push(price_cell(range.low));
            row.push(price_cell(range.high));
            row.push(price_cell(range.close));
            row.push(number_cell_or(range.volume, default_cell()));
        },
        None => {
            row.push(default_cell());
            row.push(default_cell());
            row.push(default_cell());
            row.push(default_cell());
            row.push(default_cell());
        },
    }
    match item {
        Item::Watch(_) => {
            row.push(default_cell());
            row.push(default_cell());
            row.push(default_cell());
        },
        Item::Price(_, h) => {
            row.push(bold(price_cell(h.purchase_price)));
            row.push(bold(number_cell(h.quantity as i64)));
            if h.purchase_price.currency == quote.price.currency {
                let diff: i128 = quote.price.minor as i128 - h.purchase_price.minor as i128;
                let quantity: i128 = h.quantity as i128;
                assert(-0x1_0000_0000_0000_0000 <= diff * quantity <= 0x1_0000_0000_0000_0000)
                    by (nonlinear_arith)
                    requires
                        -0x1_0000_0000 <= diff <= 0x1_0000_0000,
                        0 <= quantity <= 0x1_0000_0000,
                ;
                let value: i128 = diff * quantity;
                let cell = match format_amount(value, quote.price.currency) {
                    Some(t) => Cell {
                        text: t,
                        align: Align::Right,
                        bold: false,
                        color: Color::Plain,
                    },
                    None => default_cell(),
                };
                row.push(bold(cell));
            } else {
                row.push(default_cell());
            }
        },
    }
    assert(cells_view(row@) =~= row_view(*item, *quote));
    row
}

/// Appends the row of `item` to `table`.
pub fn add_item(table: &mut Table, item: &Item, quote: &Quote)
    ensures
        final(table).titles@ == old(table).titles@,
        final(table).rows_view() == old(table).rows_view().push(row_view(*item, *quote)),
{
    let row = item_row(item, quote);
    table.rows.push(row);
    assert(table.rows_view() =~= old(table).rows_view().push(row_view(*item, *quote)));
}

/// A table with the portfolio columns and no rows.
pub fn portfolio_table() -> (r: Table)
    ensures
        r.titles_view() == portfolio_titles(),
        r.rows@.len() == 0,
{
    let mut titles: Vec<String> = Vec::new();
    titles.push(String::from_str("Symbol"));
    titles.push(String::from_str("Price"));
    titles.push(String::from_str("Change"));
    titles.push(String::from_str("Open"));
    titles.push(String::from_str("Low"));
    titles.push(String::from_str("High"));
    titles.push(String::from_str("Close"));
    titles.push(String::from_str("Volume"));
    titles.push(String::from_str("Purchased"));
    titles.push(String::from_str("Quantity"));
    titles.push(String::from_str("Value"));
    let r = Table { titles, rows: Vec::new() };
    assert(r.titles_view() =~= portfolio_titles());
    r
}

/// Index of `s` in `v`, if it is there.
fn find(v: &Vec<String>, s: &String) -> (r: Option<usize>)
    ensures
        r matches Some(i) ==> i < v@.len() && v@[i as int]@ == s@,
        r is None ==> !texts(v@).contains(s@),
{
    let mut i: usize = 0;
    while i < v.len()
        invariant
            i <= v@.len(),
            forall|j: int| 0 <= j < i ==> v@[j]@ != s@,
        decreases v@.len() - i,
    {
        if v[i] == *s {
            return Some(i);
        }
        i = i + 1;
    }
    assert(!texts(v@).contains(s@)) by {
        if texts(v@).contains(s@) {
            let j = choose|j: int| 0 <= j < texts(v@).len() && texts(v@)[j] == s@;
            assert(v@[j]@ == s@);
        }
    }
    None
}

/// The symbols to fetch for `items`: each distinct symbol once, in the
/// order of its first item.
pub fn fetch_plan(items: &Vec<Item>) -> (r: Vec<String>)
    ensures
        texts(r@) == first_occurrences(symbols_of(items@)),
{
    let mut plan: Vec<String> = Vec::new();
    let mut i: usize = 0;
    while i < items.len()
        invariant
            i <= items@.len(),
            texts(plan@) == first_occurrences(symbols_of(items@.take(i as int))),
        decreases items@.len() - i,
    {
        let symbol = item_symbol(&items[i]);
        let found = find(&plan, &symbol);
        let ghost before = symbols_of(items@.take(i as int));
        let ghost after = symbols_of(items@.take(i + 1));
        assert(after.drop_last() =~= before);
        assert(after.last() == symbol@);
        let ghost old_plan = plan@;
        if found.is_none() {
            plan.push(symbol);
            assert(texts(plan@) =~= texts(old_plan).push(after.last()));
        } else {
            let k = found.unwrap();
            assert(texts(old_plan)[k as int] == after.last());
        }
        i = i + 1;
    }
    assert(items@.take(items@.len() as int) =~= items@);
    plan
}

/// Each string of `s` occurs in `first_occurrences(s)`, and only there, once.
pub proof fn lemma_first_occurrences(s: Seq<Seq<char>>)
    ensures
        first_occurrences(s).no_duplicates(),
        forall|x: Seq<char>| first_occurrences(s).contains(x) <==> s.contains(x),
    decreases s.len(),
{
    if s.len() > 0 {
        let init = s.drop_last();
        lemma_first_occurrences(init);
        assert forall|x: Seq<char>| s.contains(x) <==> (init.contains(x) || x == s.last()) by {
            if s.contains(x) {
                let j = choose|j: int| 0 <= j < s.len() && s[j] == x;
                if j < s.len() - 1 {
                    assert(init[j] == x);
                }
            }
            if init.contains(x) {
                let j = choose|j: int| 0 <= j < init.len() && init[j] == x;
                assert(s[j] == x);
            }
            if x == s.last() {
                assert(s[s.len() - 1] == x);
            }
        }
        let before = first_occurrences(init);
        if !before.contains(s.last()) {
            let after = before.push(s.last());
            assert forall|x: Seq<char>| after.contains(x) <==> (before.contains(x) || x == s.last())
                by {
                if after.contains(x) {
                    let j = choose|j: int| 0 <= j < after.len() && after[j] == x;
                    if j < before.len() {
                        assert(before[j] == x);
                    }
                }
                if before.contains(x) {
                    let j = choose|j: int| 0 <= j < before.len() && before[j] == x;
                    assert(after[j] == x);
                }
                if x == s.last() {
                    assert(after[after.len() - 1] == x);
                }
            }
        }
    }
}

/// A render pass issues one fetch for each distinct symbol of the items and
/// no other: its plan holds every symbol of the items, none twice, and so
/// has as many entries as there are distinct symbols.
pub proof fn lemma_one_fetch_per_symbol(items: Seq<Item>)
    ensures
        first_occurrences(symbols_of(items)).no_duplicates(),
        first_occurrences(symbols_of(items)).to_set() == symbols_of(items).to_set(),
        first_occurrences(symbols_of(items)).len() == symbols_of(items).to_set().len(),
{
    let plan = first_occurrences(symbols_of(items));
    lemma_first_occurrences(symbols_of(items));
    assert(plan.to_set() =~= symbols_of(items).to_set());
    plan.unique_seq_to_set();
}

/// A pass that ended without a failure fetched exactly one quote for each
/// distinct symbol of its items.
pub proof fn lemma_finished_pass_fetched_each_symbol_once(pass: RenderPass)
    requires
        pass.wf(),
        pass.pending() is None,
        pass.failure_view() is None,
    ensures
        pass.quotes_view().len() == symbols_of(pass.items_view()).to_set().len(),
{
    lemma_one_fetch_per_symbol(pass.items_view());
}

/// Why a render pass stopped: the symbol whose fetch failed, and the
/// provider's account of it.
#[derive(Debug)]
pub struct FetchFailure {
    pub symbol: String,
    pub message: String,
}

/// One render pass over a list of items. It names the symbols to fetch one
/// at a time, takes each outcome, stops at the first failure, and once every
/// distinct symbol has its quote lays out the table.
#[derive(Debug)]
pub struct RenderPass {
    items: Vec<Item>,
    plan: Vec<String>,
    quotes: Vec<Quote>,
    failure: Option<FetchFailure>,
}

impl RenderPass {
    pub closed spec fn items_view(&self) -> Seq<Item> {
        self.items@
    }

    /// The distinct symbols, in the order they are fetched.
    pub closed spec fn plan_view(&self) -> Seq<Seq<char>> {
        texts(self.plan@)
    }

    /// The quotes fetched so far, one for each symbol of the plan's prefix.
    pub closed spec fn quotes_view(&self) -> Seq<Quote> {
        self.quotes@
    }

    /// The failed symbol and the provider's message, once a fetch failed.
    pub closed spec fn failure_view(&self) -> Option<(Seq<char>, Seq<char>)> {
        match self.failure {
            Some(f) => Some((f.symbol@, f.message@)),
            None => None,
        }
    }

    pub open spec fn wf(&self) -> bool {
        &&& self.plan_view() == first_occurrences(symbols_of(self.items_view()))
        &&& self.quotes_view().len() <= self.plan_view().len()
    }

    /// The symbol to fetch next: none after a failure or once every symbol
    /// has its quote.
    pub open spec fn pending(&self) -> Option<Seq<char>> {
        if self.failure_view() is None && self.quotes_view().len() < self.plan_view().len() {
            Some(self.plan_view()[self.quotes_view().len() as int])
        } else {
            None
        }
    }

    /// The quote fetched for `symbol`.
    pub open spec fn quote_of(&self, symbol: Seq<char>) -> Quote {
        self.quotes_view()[self.plan_view().index_of(symbol)]
    }

    /// The rows of the finished pass: one per item, in item order.
    pub open spec fn table_rows(&self) -> Seq<Seq<CellView>> {
        self.items_view().map_values(|i: Item| row_view(i, self.quote_of(i.symbol())))
    }

    /// Starts a pass over `items`, with nothing fetched.
    pub fn new(items: Vec<Item>) -> (r: RenderPass)
        ensures
            r.wf(),
            r.items_view() == items@,
            r.quotes_view() == Seq::<Quote>::empty(),
            r.failure_view() is None,
    {
        let plan = fetch_plan(&items);
        RenderPass { items, plan, quotes: Vec::new(), failure: None }
    }

    /// The symbol whose quote is needed next, if any.
    pub fn next_fetch(&self) -> (r: Option<String>)
        requires
            self.wf(),
        ensures
            r matches Some(s) ==> self.pending() == Some(s@),
            r is None ==> self.pending() is None,
    {
        if self.failure.is_none() && self.quotes.len() < self.plan.len() {
            Some(self.plan[self.quotes.len()].clone())
        } else {
            None
        }
    }

    /// Takes the outcome of fetching the pending symbol: a quote is kept,
    /// an error ends the pass.
    pub fn record(&mut self, outcome: Result<Quote, String>)
        requires
            old(self).wf(),
            old(self).pending() is Some,
        ensures
            final(self).wf(),
            final(self).items_view() == old(self).items_view(),
            final(self).plan_view() == old(self).plan_view(),
            match outcome {
                Ok(q) => final(self).quotes_view() == old(self).quotes_view().push(q)
                    && final(self).failure_view() is None,
                Err(m) => final(self).quotes_view() == old(self).quotes_view()
                    && final(self).failure_view() == Some((old(self).pending()->0, m@)),
            },
    {
        match outcome {
            Ok(q) => {
                self.quotes.push(q);
            },
            Err(message) => {
                let symbol = self.plan[self.quotes.len()].clone();
                self.failure = Some(FetchFailure { symbol, message });
            },
        }
    }

    /// The outcome of a pass that needs no more fetches: the failure, if a
    /// fetch failed; else the table, one row per item in item order.
    pub fn finish(&self) -> (r: Result<Table, FetchFailure>)
        requires
            self.wf(),
            self.pending() is None,
        ensures
            match self.failure_view() {
                Some((s, m)) => r matches Err(f) && f.symbol@ == s && f.message@ == m,
                None => r matches Ok(t) && t.titles_view() == portfolio_titles()
                    && t.rows_view() == self.table_rows(),
            },
    {
        match &self.failure {
            Some(f) => {
                return Err(FetchFailure { symbol: f.symbol.clone(), message: f.message.clone() });
            },
            None => {},
        }
        proof {
            lemma_first_occurrences(symbols_of(self.items@));
        }
        let mut table = portfolio_table();
        let mut i: usize = 0;
        while i < self.items.len()
            invariant
                self.wf(),
                self.failure_view() is None,
                self.quotes_view().len() == self.plan_view().len(),
                self.plan_view().no_duplicates(),
                forall|x: Seq<char>|
                    self.plan_view().contains(x) <==> symbols_of(self.items_view()).contains(x),
                i <= self.items@.len(),
                table.titles_view() == portfolio_titles(),
                table.rows_view() == self.table_rows().take(i as int),
            decreases self.items@.len() - i,
        {
            let item = &self.items[i];
            let symbol = item_symbol(item);
            assert(symbols_of(self.items_view())[i as int] == symbol@);
            let k = find(&self.plan, &symbol);
            let k = k.unwrap();
            let ghost plan = self.plan_view();
            assert(plan[k as int] == symbol@);
            assert(plan.index_of(symbol@) == k as int) by {
                let j = plan.index_of(symbol@);
                assert(plan.contains(symbol@));
                assert(0 <= j < plan.len() && plan[j] == symbol@);
            }
            add_item(&mut table, item, &self.quotes[k]);
            assert(table.rows_view() =~= self.table_rows().take(i + 1));
            i = i + 1;
        }
        assert(self.table_rows().take(self.items@.len() as int) =~= self.table_rows());
        Ok(table)
    }
}

/// The rows of a finished pass follow the items: as many rows as items, the
/// row at `i` is that of the item at `i` with its symbol's quote, and it
/// opens with that item's symbol, duplicates included.
pub proof fn lemma_rows_follow_items(pass: RenderPass, i: int)
    requires
        pass.wf(),
        0 <= i < pass.items_view().len(),
    ensures
        pass.table_rows().len() == pass.items_view().len(),
        pass.table_rows()[i] == row_view(
            pass.items_view()[i],
            pass.quote_of(pass.items_view()[i].symbol()),
        ),
        pass.table_rows()[i][0].text == pass.items_view()[i].symbol(),
{
}

/// A quote without a day range gives a full row whose open, low, high,
/// close and volume cells are the placeholder.
pub proof fn lemma_placeholders_without_range(item: Item, q: Quote)
    requires
        q.range is None,
    ensures
        row_view(item, q).len() == 11,
        forall|k: int| 3 <= k < 8 ==> row_view(item, q)[k] == placeholder(),
{
}

/// Every row has the same number of cells as the header has titles.
pub proof fn lemma_row_width(item: Item, q: Quote)
    ensures
        row_view(item, q).len() == portfolio_titles().len(),
{
}

/// The value cell of a holding priced in the quote's currency shows, in
/// bold, (latest price - purchase price) * quantity in minor units, with
/// its sign.
pub proof fn lemma_value_cell(item: Item, q: Quote)
    requires
        item is Price,
        item->Price_1.purchase_price.currency == q.price.currency,
    ensures
        row_view(item, q)[10] == bolded(
            amount_cell(
                (q.price.minor - item->Price_1.purchase_price.minor) * item->Price_1.quantity,
                q.price.currency,
            ),
        ),
{
}

/// A watched item shows the placeholder for purchase price, quantity and
/// value.
pub proof fn lemma_watch_has_no_holding_cells(item: Item, q: Quote)
    requires
        item is Watch,
    ensures
        row_view(item, q)[8] == placeholder(),
        row_view(item, q)[9] == placeholder(),
        row_view(item, q)[10] == placeholder(),
{
}

/// Once a fetch has failed the pass asks for no further fetch, and its
/// outcome is that failure, never a table.
pub proof fn lemma_fail_fast(pass: RenderPass)
    requires
        pass.wf(),
        pass.failure_view() is Some,
    ensures
        pass.pending() is None,
{
}

/// A pass over no items asks for no fetch and lays out a table with no rows.
pub proof fn lemma_empty_pass(pass: RenderPass)
    requires
        pass.wf(),
        pass.items_view().len() == 0,
    ensures
        pass.plan_view().len() == 0,
        pass.pending() is None,
        pass.table_rows().len() == 0,
{
    assert(symbols_of(pass.items_view()) =~= Seq::<Seq<char>>::empty());
}

} // verus!
