use crate::amount::{
    decimal_add, decimal_difference, decimal_div, decimal_lt, decimal_mul, decimal_product,
    decimal_quotient, decimal_sub, decimal_sum, Amount, Dec,
};
use crate::portfolio::{
    distinct, ledger_of, lemma_ledger_entry, Holding, Ledger, Portfolio,
};
use crate::quote::{price_of, quote_usd, quote_views, Quote, QuoteView};
use crate::side::Side;
use crate::text::{chars_of, reads};
use crate::trade::{Trade, TradeView};
use vstd::prelude::*;
use vstd::string::StringExecFns;

verus! {

/// The figures of one asset: what is held and what was paid for it, its price,
/// what it is worth at that price, and the profit or loss not yet realized, as
/// an amount and as a percentage of what was paid. There is no percentage
/// where nothing was paid.
pub struct AssetView {
    pub ticker: Seq<char>,
    pub balance: Dec,
    pub cost_base: Dec,
    pub price: Dec,
    pub value: Dec,
    pub pnl: Dec,
    pub pnl_percent: Option<Dec>,
}

/// The figures of the assets, and the sum of their profits and losses.
pub struct ReportView {
    pub assets: Seq<AssetView>,
    pub total_pnl: Dec,
}

/// Why there is no report.
#[derive(Debug, Clone, Copy, PartialEq, Eq, Structural)]
pub enum ReportFault {
    /// There is no quote for an asset that is held.
    QuoteMissing,
    /// A decimal operation has no result: it overflows.
    Arithmetic,
}

/// A report that was not made: the index of the position it failed on, why,
/// and the position's ticker.
#[derive(Debug)]
pub struct ReportError {
    pub index: usize,
    pub fault: ReportFault,
    pub ticker: String,
}

/// The figures of one asset.
#[derive(Debug)]
pub struct AssetPnl {
    pub ticker: String,
    pub balance: Amount,
    pub cost_base: Amount,
    pub price: Amount,
    pub value: Amount,
    pub pnl: Amount,
    pub pnl_percent: Option<Amount>,
}

impl View for AssetPnl {
    type V = AssetView;

    open spec fn view(&self) -> AssetView {
        AssetView {
            ticker: self.ticker@,
            balance: self.balance@,
            cost_base: self.cost_base@,
            price: self.price@,
            value: self.value@,
            pnl: self.pnl@,
            pnl_percent: crate::amount::view_of(self.pnl_percent),
        }
    }
}

/// The report of unrealized profit and loss.
#[derive(Debug)]
pub struct PnlReport {
    pub assets: Vec<AssetPnl>,
    pub total_pnl: Amount,
}

impl View for PnlReport {
    type V = ReportView;

    open spec fn view(&self) -> ReportView {
        ReportView {
            assets: Seq::new(self.assets@.len(), |i: int| self.assets@[i]@),
            total_pnl: self.total_pnl@,
        }
    }
}

/// The profit as a percentage of what was paid: the profit by the cost base,
/// times 100. Nothing is divided where the cost base is zero: there is no
/// percentage then.
pub open spec fn percent_of(pnl: Dec, cost_base: Dec) -> Option<Option<Dec>> {
    if cost_base.is_zero() {
        Some(None)
    } else {
        match decimal_quotient(pnl, cost_base) {
            Some(q) => match decimal_product(q, Dec::whole(100)) {
                Some(p) => Some(Some(p)),
                None => None,
            },
            None => None,
        }
    }
}

/// The figures of an asset at a price: its value is the balance at the price,
/// its profit or loss the value less the cost base.
pub open spec fn asset_pnl(ticker: Seq<char>, balance: Dec, cost_base: Dec, price: Dec) -> Option<
    AssetView,
> {
    match decimal_product(balance, price) {
        None => None,
        Some(value) => match decimal_difference(value, cost_base) {
            None => None,
            Some(pnl) => match percent_of(pnl, cost_base) {
                None => None,
                Some(pnl_percent) => Some(
                    AssetView { ticker, balance, cost_base, price, value, pnl, pnl_percent },
                ),
            },
        },
    }
}

/// Whether a holding is reported: it is not of the valuation currency, and
/// its balance is not zero.
pub open spec fn is_reported(ticker: Seq<char>, h: Holding, valuation: Seq<char>) -> bool {
    ticker != valuation && !h.balance.is_zero()
}

/// The report of the first `n` positions of a ledger at the given quotes. The
/// error is the index of the first position that has no quote or whose figures
/// overflow.
pub open spec fn report_of(l: Ledger, valuation: Seq<char>, quotes: Seq<QuoteView>, n: int) -> Result<
    ReportView,
    (int, ReportFault),
>
    decreases n,
{
    if n <= 0 {
        Ok(ReportView { assets: Seq::<AssetView>::empty(), total_pnl: Dec::whole(0) })
    } else {
        match report_of(l, valuation, quotes, n - 1) {
            Err(e) => Err(e),
            Ok(report) => {
                let ticker = l.order[n - 1];
                let h = l.holdings[ticker];
                if !is_reported(ticker, h, valuation) {
                    Ok(report)
                } else {
                    match price_of(quotes, quotes.len() as int, ticker) {
                        None => Err((n - 1, ReportFault::QuoteMissing)),
                        Some(price) => match asset_pnl(ticker, h.balance, h.cost_base, price) {
                            None => Err((n - 1, ReportFault::Arithmetic)),
                            Some(asset) => match decimal_sum(report.total_pnl, asset.pnl) {
                                None => Err((n - 1, ReportFault::Arithmetic)),
                                Some(total_pnl) => Ok(
                                    ReportView { assets: report.assets.push(asset), total_pnl },
                                ),
                            },
                        },
                    }
                }
            },
        }
    }
}

proof fn lemma_report_fails_on(
    l: Ledger,
    valuation: Seq<char>,
    quotes: Seq<QuoteView>,
    n: int,
    m: int,
)
    requires
        n <= m,
        report_of(l, valuation, quotes, n) is Err,
    ensures
        report_of(l, valuation, quotes, m) == report_of(l, valuation, quotes, n),
    decreases m - n,
{
    if n < m {
        lemma_report_fails_on(l, valuation, quotes, n, m - 1);
    }
}

/// The figures of an asset at a price, where none of them overflows.
pub fn figures(ticker: &str, balance: Amount, cost_base: Amount, price: Amount) -> (r: Option<
    AssetPnl,
>)
    ensures
        match r {
            Some(a) => asset_pnl(ticker@, balance@, cost_base@, price@) == Some(a@),
            None => asset_pnl(ticker@, balance@, cost_base@, price@) is None,
        },
{
    proof {
        use_type_invariant(&balance);
        use_type_invariant(&cost_base);
        use_type_invariant(&price);
    }
    let value = match decimal_mul(balance, price) {
        Some(v) => v,
        None => return None,
    };
    let pnl = match decimal_sub(value, cost_base) {
        Some(p) => p,
        None => return None,
    };
    let pnl_percent = if cost_base.is_zero() {
        None
    } else {
        let ratio = match decimal_div(pnl, cost_base) {
            Some(q) => q,
            None => return None,
        };
        match decimal_mul(ratio, Amount::from_int(100)) {
            Some(p) => Some(p),
            None => return None,
        }
    };
    Some(
        AssetPnl {
            ticker: String::from_str(ticker),
            balance,
            cost_base,
            price,
            value,
            pnl,
            pnl_percent,
        },
    )
}

impl Portfolio {
    /// The unrealized profit and loss of the portfolio at the given quotes:
    /// the figures of every position that is not of the valuation currency and
    /// not empty, in the order in which the positions were opened, and the sum
    /// of their profits and losses.
    pub fn unrealized_pnl(&self, quotes: &Vec<Quote>) -> (r: Result<PnlReport, ReportError>)
        ensures
            match r {
                Ok(report) => report_of(
                    self@,
                    self.valuation_ticker(),
                    quote_views(quotes@),
                    self@.order.len() as int,
                ) == Ok::<ReportView, (int, ReportFault)>(report@),
                Err(e) => e.index < self@.order.len() && e.ticker@ == self@.order[e.index as int]
                    && report_of(
                    self@,
                    self.valuation_ticker(),
                    quote_views(quotes@),
                    self@.order.len() as int,
                ) == Err::<ReportView, (int, ReportFault)>((e.index as int, e.fault)),
            },
    {
        let positions = self.positions();
        let valuation = chars_of(self.valuation().ticker());
        let mut report = PnlReport { assets: Vec::new(), total_pnl: Amount::zero() };
        let mut i: usize = 0;
        assert(report@.assets =~= Seq::<AssetView>::empty());
        while i < positions.len()
            invariant
                i <= positions@.len(),
                distinct(positions@),
                self@ == ledger_of(positions@),
                valuation@ == self.valuation_ticker(),
                report_of(self@, valuation@, quote_views(quotes@), i as int) == Ok::<
                    ReportView,
                    (int, ReportFault),
                >(report@),
            decreases positions@.len() - i,
        {
            let p = &positions[i];
            proof {
                lemma_ledger_entry(positions@, i as int);
            }
            if !reads(&valuation, p.currency.ticker()) && !p.balance.is_zero() {
                let price = match quote_usd(p.currency.ticker(), quotes) {
                    Ok(price) => price,
                    Err(_) => {
                        proof {
                            lemma_report_fails_on(
                                self@,
                                valuation@,
                                quote_views(quotes@),
                                i as int + 1,
                                positions@.len() as int,
                            );
                        }
                        return Err(
                            ReportError {
                                index: i,
                                fault: ReportFault::QuoteMissing,
                                ticker: p.currency.ticker().to_owned(),
                            },
                        );
                    },
                };
                let asset = figures(p.currency.ticker(), p.balance, p.cost_base, price);
                let total = match &asset {
                    Some(a) => {
                        let total_pnl = report.total_pnl;
                        let pnl = a.pnl;
                        proof {
                            use_type_invariant(&total_pnl);
                            use_type_invariant(&pnl);
                        }
                        decimal_add(total_pnl, pnl)
                    },
                    None => None,
                };
                match (asset, total) {
                    (Some(a), Some(t)) => {
                        proof {
                            let before = report@;
                            assert(Seq::new(
                                report.assets@.push(a).len(),
                                |j: int| report.assets@.push(a)[j]@,
                            ) =~= before.assets.push(a@));
                        }
                        report.assets.push(a);
                        report.total_pnl = t;
                    },
                    _ => {
                        proof {
                            lemma_report_fails_on(
                                self@,
                                valuation@,
                                quote_views(quotes@),
                                i as int + 1,
                                positions@.len() as int,
                            );
                        }
                        return Err(
                            ReportError {
                                index: i,
                                fault: ReportFault::Arithmetic,
                                ticker: p.currency.ticker().to_owned(),
                            },
                        );
                    },
                }
            }
            i = i + 1;
        }
        Ok(report)
    }
}

/// What a book holds of one asset: how much, the average price it was bought
/// at, and the fees paid on its trades.
#[derive(Debug)]
pub struct BookEntry {
    pub ticker: String,
    pub amount: Amount,
    pub avg_price: Amount,
    pub fees: Amount,
}

/// The content of a book entry.
pub struct EntryView {
    pub ticker: Seq<char>,
    pub amount: Dec,
    pub avg_price: Dec,
    pub fees: Dec,
}

impl View for BookEntry {
    type V = EntryView;

    open spec fn view(&self) -> EntryView {
        EntryView {
            ticker: self.ticker@,
            amount: self.amount@,
            avg_price: self.avg_price@,
            fees: self.fees@,
        }
    }
}

/// The contents of the entries of a book.
pub open spec fn entry_views(book: Seq<BookEntry>) -> Seq<EntryView> {
    Seq::new(book.len(), |i: int| book[i]@)
}

/// The index of the first of the first `n` entries that is for `ticker`, or
/// `n` where none of them is.
pub open spec fn entry_index(book: Seq<EntryView>, n: int, ticker: Seq<char>) -> int
    decreases n,
{
    if n <= 0 {
        0
    } else {
        let i = entry_index(book, n - 1, ticker);
        if i < n - 1 {
            i
        } else if book[n - 1].ticker == ticker {
            n - 1
        } else {
            n
        }
    }
}

/// The entry that a trade is entered into: the book's first entry for the
/// trade's base asset, or an empty one where the book has none yet.
pub open spec fn entry_for(book: Seq<EntryView>, ticker: Seq<char>) -> EntryView {
    let i = entry_index(book, book.len() as int, ticker);
    if i < book.len() {
        book[i]
    } else {
        EntryView { ticker, amount: Dec::whole(0), avg_price: Dec::whole(0), fees: Dec::whole(0) }
    }
}

/// The book after an entry took its place in it.
pub open spec fn book_with(book: Seq<EntryView>, entry: EntryView) -> Seq<EntryView> {
    let i = entry_index(book, book.len() as int, entry.ticker);
    if i < book.len() {
        book.update(i, entry)
    } else {
        book.push(entry)
    }
}

/// The average price after a buy: what was held at its average price and what
/// is bought at its price, together, by the unit of what is then held.
pub open spec fn blended_price(e: EntryView, t: TradeView, total: Dec) -> Option<Dec> {
    match (decimal_product(e.amount, e.avg_price), decimal_product(t.amount, t.price)) {
        (Some(held), Some(bought)) => match decimal_sum(held, bought) {
            Some(paid) => decimal_quotient(paid, total),
            None => None,
        },
        _ => None,
    }
}

/// The entry after a trade, and whether the trade was a sale that was left
/// out because it sells more than is held. A buy adds to the amount and moves
/// the average price; a sale that is covered takes from the amount; the fee
/// is added to the fees in every case.
pub open spec fn entry_after(e: EntryView, t: TradeView) -> Option<(EntryView, bool)> {
    match decimal_sum(e.fees, t.fee) {
        None => None,
        Some(fees) => match t.side {
            Side::Buy => match decimal_sum(e.amount, t.amount) {
                None => None,
                Some(amount) => match blended_price(e, t, amount) {
                    None => None,
                    Some(avg_price) => Some(
                        (EntryView { ticker: e.ticker, amount, avg_price, fees }, false),
                    ),
                },
            },
            Side::Sell => if e.amount.lt(t.amount) {
                Some((EntryView { ticker: e.ticker, amount: e.amount, avg_price: e.avg_price, fees }, true))
            } else {
                match decimal_difference(e.amount, t.amount) {
                    None => None,
                    Some(amount) => Some(
                        (EntryView { ticker: e.ticker, amount, avg_price: e.avg_price, fees }, false),
                    ),
                }
            },
        },
    }
}

/// Where the entry for `ticker` stands in the book, if there is one.
fn find_entry(book: &Vec<BookEntry>, ticker: &str) -> (r: Option<usize>)
    ensures
        match r {
            Some(i) => i < book@.len() && book@[i as int].ticker@ == ticker@ && entry_index(
                entry_views(book@),
                book@.len() as int,
                ticker@,
            ) == i,
            None => entry_index(entry_views(book@), book@.len() as int, ticker@) == book@.len(),
        },
{
    let key = chars_of(ticker);
    let mut i: usize = 0;
    while i < book.len()
        invariant
            i <= book@.len(),
            key@ == ticker@,
            entry_index(entry_views(book@), i as int, ticker@) == i,
        decreases book@.len() - i,
    {
        assert(entry_views(book@)[i as int].ticker == book@[i as int].ticker@);
        if reads(&key, book[i].ticker.as_str()) {
            proof {
                lemma_entry_index_stays(entry_views(book@), i as int + 1, book@.len() as int, ticker@);
            }
            return Some(i);
        }
        i = i + 1;
    }
    None
}

/// An index that was found among the first `n` entries is the index among
/// any number of entries from `n` on.
proof fn lemma_entry_index_stays(book: Seq<EntryView>, n: int, m: int, ticker: Seq<char>)
    requires
        0 <= n <= m,
        entry_index(book, n, ticker) < n,
    ensures
        entry_index(book, m, ticker) == entry_index(book, n, ticker),
    decreases m - n,
{
    if n < m {
        lemma_entry_index_stays(book, n, m - 1, ticker);
    }
}

/// Enters a trade into the book, under the base asset of its pair. The result
/// tells whether the trade was a sale that was left out because it sells more
/// than is held: its fee is entered all the same. The book stays as it is
/// where a number overflows, and there is no result then.
pub fn calc_holdings(book: &mut Vec<BookEntry>, tx: &Trade) -> (r: Option<bool>)
    ensures
        match r {
            Some(left_out) => exists|after: EntryView|
                entry_after(entry_for(entry_views(old(book)@), tx@.pair.base), tx@) == Some(
                    (after, left_out),
                ) && entry_views(final(book)@) == book_with(entry_views(old(book)@), after),
            None => entry_after(entry_for(entry_views(old(book)@), tx@.pair.base), tx@) is None
                && *final(book) == *old(book),
        },
{
    let ticker = tx.pair().base();
    let place = find_entry(book, ticker);
    let (held, average, paid_fees) = match place {
        Some(i) => (book[i].amount, book[i].avg_price, book[i].fees),
        None => (Amount::zero(), Amount::zero(), Amount::zero()),
    };
    let amount = tx.amount();
    let price = tx.price();
    let fee = tx.fee();
    proof {
        use_type_invariant(&held);
        use_type_invariant(&average);
        use_type_invariant(&paid_fees);
        use_type_invariant(&amount);
        use_type_invariant(&price);
        use_type_invariant(&fee);
        if place is Some {
            assert(entry_views(book@)[place->0 as int] == book@[place->0 as int]@);
        }
    }
    let fees = match decimal_add(paid_fees, fee) {
        Some(f) => f,
        None => return None,
    };
    let (new_amount, new_average, left_out) = match tx.side() {
        Side::Buy => {
            let total = match decimal_add(held, amount) {
                Some(t) => t,
                None => return None,
            };
            let paid = match (decimal_mul(held, average), decimal_mul(amount, price)) {
                (Some(h), Some(b)) => decimal_add(h, b),
                _ => None,
            };
            let blended = match paid {
                Some(p) => decimal_div(p, total),
                None => None,
            };
            match blended {
                Some(a) => (total, a, false),
                None => return None,
            }
        },
        Side::Sell => if decimal_lt(held, amount) {
            (held, average, true)
        } else {
            match decimal_sub(held, amount) {
                Some(rest) => (rest, average, false),
                None => return None,
            }
        },
    };
    let entry = BookEntry {
        ticker: ticker.to_owned(),
        amount: new_amount,
        avg_price: new_average,
        fees,
    };
    let ghost before = entry_views(book@);
    let ghost after = entry@;
    proof {
        let start = entry_for(before, tx@.pair.base);
        assert(start.ticker == tx@.pair.base);
        assert(start.amount == held@ && start.avg_price == average@ && start.fees == paid_fees@);
        assert(entry_after(start, tx@) == Some((after, left_out)));
        match place {
            Some(i) => {
                assert(entry_views(book@.update(i as int, entry)) =~= before.update(
                    i as int,
                    after,
                ));
            },
            None => {
                assert(entry_views(book@.push(entry)) =~= before.push(after));
            },
        }
    }
    match place {
        Some(i) => {
            book.set(i, entry);
        },
        None => {
            book.push(entry);
        },
    }
    assert(entry_views(book@) == book_with(before, after));
    Some(left_out)
}

/// The report of the first `n` entries of a book at the given quotes: the
/// figures of every entry, where what was paid for it is its amount at its
/// average price. The error is the index of the first entry that has no quote
/// or whose figures overflow.
pub open spec fn holdings_report(book: Seq<EntryView>, quotes: Seq<QuoteView>, n: int) -> Result<
    ReportView,
    (int, ReportFault),
>
    decreases n,
{
    if n <= 0 {
        Ok(ReportView { assets: Seq::<AssetView>::empty(), total_pnl: Dec::whole(0) })
    } else {
        match holdings_report(book, quotes, n - 1) {
            Err(e) => Err(e),
            Ok(report) => {
                let e = book[n - 1];
                match price_of(quotes, quotes.len() as int, e.ticker) {
                    None => Err((n - 1, ReportFault::QuoteMissing)),
                    Some(price) => match decimal_product(e.amount, e.avg_price) {
                        None => Err((n - 1, ReportFault::Arithmetic)),
                        Some(cost_base) => match asset_pnl(e.ticker, e.amount, cost_base, price) {
                            None => Err((n - 1, ReportFault::Arithmetic)),
                            Some(asset) => match decimal_sum(report.total_pnl, asset.pnl) {
                                None => Err((n - 1, ReportFault::Arithmetic)),
                                Some(total_pnl) => Ok(
                                    ReportView { assets: report.assets.push(asset), total_pnl },
                                ),
                            },
                        },
                    },
                }
            },
        }
    }
}

proof fn lemma_holdings_report_fails_on(
    book: Seq<EntryView>,
    quotes: Seq<QuoteView>,
    n: int,
    m: int,
)
    requires
        n <= m,
        holdings_report(book, quotes, n) is Err,
    ensures
        holdings_report(book, quotes, m) == holdings_report(book, quotes, n),
    decreases m - n,
{
    if n < m {
        lemma_holdings_report_fails_on(book, quotes, n, m - 1);
    }
}

/// The figures of one entry of a book at the given quotes.
fn entry_figures(entry: &BookEntry, quotes: &Vec<Quote>) -> (r: Result<AssetPnl, ReportFault>)
    ensures
        match r {
            Ok(a) => price_of(quote_views(quotes@), quotes@.len() as int, entry@.ticker)
                matches Some(price) && decimal_product(entry@.amount, entry@.avg_price)
                matches Some(cost_base) && asset_pnl(entry@.ticker, entry@.amount, cost_base, price)
                == Some(a@),
            Err(ReportFault::QuoteMissing) => price_of(
                quote_views(quotes@),
                quotes@.len() as int,
                entry@.ticker,
            ) is None,
            Err(ReportFault::Arithmetic) => price_of(
                quote_views(quotes@),
                quotes@.len() as int,
                entry@.ticker,
            ) matches Some(price) && (decimal_product(entry@.amount, entry@.avg_price)
                matches Some(cost_base) ==> asset_pnl(entry@.ticker, entry@.amount, cost_base, price)
                is None),
        },
{
    let price = match quote_usd(entry.ticker.as_str(), quotes) {
        Ok(price) => price,
        Err(_) => return Err(ReportFault::QuoteMissing),
    };
    let amount = entry.amount;
    let average = entry.avg_price;
    proof {
        use_type_invariant(&amount);
        use_type_invariant(&average);
    }
    let cost_base = match decimal_mul(amount, average) {
        Some(c) => c,
        None => return Err(ReportFault::Arithmetic),
    };
    match figures(entry.ticker.as_str(), amount, cost_base, price) {
        Some(a) => Ok(a),
        None => Err(ReportFault::Arithmetic),
    }
}

/// The unrealized profit and loss of a book at the given quotes: the figures
/// of every entry, in the order of the entries, and the sum of their profits
/// and losses.
pub fn show_holdings(book: &Vec<BookEntry>, quotes: &Vec<Quote>) -> (r: Result<
    PnlReport,
    ReportError,
>)
    ensures
        match r {
            Ok(report) => holdings_report(
                entry_views(book@),
                quote_views(quotes@),
                book@.len() as int,
            ) == Ok::<ReportView, (int, ReportFault)>(report@),
            Err(e) => e.index < book@.len() && e.ticker@ == book@[e.index as int].ticker@
                && holdings_report(entry_views(book@), quote_views(quotes@), book@.len() as int)
                == Err::<ReportView, (int, ReportFault)>((e.index as int, e.fault)),
        },
{
    let mut report = PnlReport { assets: Vec::new(), total_pnl: Amount::zero() };
    let mut i: usize = 0;
    assert(report@.assets =~= Seq::<AssetView>::empty());
    while i < book.len()
        invariant
            i <= book@.len(),
            holdings_report(entry_views(book@), quote_views(quotes@), i as int) == Ok::<
                ReportView,
                (int, ReportFault),
            >(report@),
        decreases book@.len() - i,
    {
        assert(entry_views(book@)[i as int] == book@[i as int]@);
        let outcome = match entry_figures(&book[i], quotes) {
            Ok(a) => {
                let total_pnl = report.total_pnl;
                let pnl = a.pnl;
                proof {
                    use_type_invariant(&total_pnl);
                    use_type_invariant(&pnl);
                }
                match decimal_add(total_pnl, pnl) {
                    Some(t) => Ok((a, t)),
                    None => Err(ReportFault::Arithmetic),
                }
            },
            Err(f) => Err(f),
        };
        match outcome {
            Ok((a, t)) => {
                proof {
                    let before = report@;
                    assert(Seq::new(
                        report.assets@.push(a).len(),
                        |j: int| report.assets@.push(a)[j]@,
                    ) =~= before.assets.push(a@));
                }
                report.assets.push(a);
                report.total_pnl = t;
            },
            Err(fault) => {
                proof {
                    lemma_holdings_report_fails_on(
                        entry_views(book@),
                        quote_views(quotes@),
                        i as int + 1,
                        book@.len() as int,
                    );
                }
                return Err(ReportError { index: i, fault, ticker: book[i].ticker.clone() });
            },
        }
        i = i + 1;
    }
    Ok(report)
}

} // verus!
