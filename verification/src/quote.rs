use crate::amount::{Amount, Dec};
use crate::text::{chars_of, extend_chars, same_chars, string_of, to_upper, uppercased};
use vstd::prelude::*;
use vstd::string::StringExecFns;

verus! {

/// How long fetched quotes are served before they are fetched again, in seconds.
pub const CACHE_SECONDS: u64 = 60;

/// A row of the price source's table of coins.
#[derive(Debug)]
pub struct CoinRow {
    /// The identifier that the price source knows the coin by.
    pub id: String,
    /// The ticker of the coin, in any case.
    pub symbol: String,
    pub name: String,
}

/// The price of a unit of a currency in US dollars.
#[derive(Debug)]
pub struct Quote {
    pub ticker: String,
    pub price: Amount,
}

/// The price that the price source gave for one of its identifiers.
#[derive(Debug)]
pub struct PricedId {
    pub id: String,
    pub usd: Amount,
}

/// What can go wrong with quotes.
#[derive(Debug, Clone, Copy, PartialEq, Eq, Structural)]
pub enum QuoteFault {
    /// The table of coins holds no row for the ticker.
    TickerNotFound,
    /// The price source answered with an identifier that was not asked for.
    UnknownId,
    /// The price source could not be reached or its answer not be read.
    Fetch,
    /// There is no quote for the ticker.
    QuoteMissing,
}

/// A fault with quotes, and the ticker, identifier or message it is about.
#[derive(Debug)]
pub struct QuoteError {
    pub fault: QuoteFault,
    pub text: String,
}

impl QuoteError {
    pub open spec fn message_spec(self) -> Seq<char> {
        match self.fault {
            QuoteFault::TickerNotFound => "Ticker not found: "@ + self.text@,
            QuoteFault::UnknownId => "unknown id in answer: "@ + self.text@,
            QuoteFault::Fetch => "fetching quotes failed: "@ + self.text@,
            QuoteFault::QuoteMissing => "quote missing: "@ + self.text@,
        }
    }

    pub fn message(&self) -> (r: String)
        ensures
            r@ == self.message_spec(),
    {
        let mut r = match self.fault {
            QuoteFault::TickerNotFound => String::from_str("Ticker not found: "),
            QuoteFault::UnknownId => String::from_str("unknown id in answer: "),
            QuoteFault::Fetch => String::from_str("fetching quotes failed: "),
            QuoteFault::QuoteMissing => String::from_str("quote missing: "),
        };
        r.append(self.text.as_str());
        r
    }
}

/// The texts of a list of strings.
pub open spec fn texts(list: Seq<String>) -> Seq<Seq<char>> {
    Seq::new(list.len(), |i: int| list[i]@)
}

/// The identifier of a ticker in the first `n` rows of the table: that of the
/// last of them whose symbol is the ticker, both in upper case.
pub open spec fn id_of(table: Seq<CoinRow>, n: int, ticker: Seq<char>) -> Option<Seq<char>>
    decreases n,
{
    if n <= 0 {
        None
    } else if to_upper(table[n - 1].symbol@) == to_upper(ticker) {
        Some(table[n - 1].id@)
    } else {
        id_of(table, n - 1, ticker)
    }
}

/// The identifiers of the first `n` tickers, in their order; the error is the
/// index of the first ticker that the table does not hold.
pub open spec fn ids_of(table: Seq<CoinRow>, tickers: Seq<Seq<char>>, n: int) -> Result<
    Seq<Seq<char>>,
    int,
>
    decreases n,
{
    if n <= 0 {
        Ok(Seq::<Seq<char>>::empty())
    } else {
        match ids_of(table, tickers, n - 1) {
            Err(i) => Err(i),
            Ok(ids) => match id_of(table, table.len() as int, tickers[n - 1]) {
                Some(id) => Ok(ids.push(id)),
                None => Err(n - 1),
            },
        }
    }
}

/// The identifier of `ticker` in the table.
pub fn to_id(ticker: &str, table: &Vec<CoinRow>) -> (r: Option<String>)
    ensures
        match r {
            Some(id) => id_of(table@, table@.len() as int, ticker@) == Some(id@),
            None => id_of(table@, table@.len() as int, ticker@) is None,
        },
{
    let key = uppercased(&chars_of(ticker));
    let mut n: usize = table.len();
    while n > 0
        invariant
            n <= table@.len(),
            key@ == to_upper(ticker@),
            id_of(table@, table@.len() as int, ticker@) == id_of(table@, n as int, ticker@),
        decreases n,
    {
        let symbol = uppercased(&chars_of(table[n - 1].symbol.as_str()));
        if same_chars(&symbol, &key) {
            return Some(table[n - 1].id.clone());
        }
        n = n - 1;
    }
    None
}

/// Resolves tickers to the identifiers that the price source knows them by,
/// in the order of the tickers. A ticker that the table does not hold is an
/// error, and the first such ticker is the one reported.
pub fn to_ids(tickers: &Vec<String>, table: &Vec<CoinRow>) -> (r: Result<Vec<String>, QuoteError>)
    ensures
        match r {
            Ok(ids) => ids_of(table@, texts(tickers@), tickers@.len() as int) == Ok::<
                Seq<Seq<char>>,
                int,
            >(texts(ids@)),
            Err(e) => e.fault == QuoteFault::TickerNotFound && exists|i: int|
                0 <= i < tickers@.len() && e.text@ == tickers@[i]@ && ids_of(
                    table@,
                    texts(tickers@),
                    tickers@.len() as int,
                ) == Err::<Seq<Seq<char>>, int>(i),
        },
{
    let mut ids: Vec<String> = Vec::new();
    let mut i: usize = 0;
    assert(texts(ids@) =~= Seq::<Seq<char>>::empty());
    while i < tickers.len()
        invariant
            i <= tickers@.len(),
            ids_of(table@, texts(tickers@), i as int) == Ok::<Seq<Seq<char>>, int>(texts(ids@)),
        decreases tickers@.len() - i,
    {
        assert(texts(tickers@)[i as int] == tickers@[i as int]@);
        match to_id(tickers[i].as_str(), table) {
            Some(id) => {
                assert(texts(ids@.push(id)) =~= texts(ids@).push(id@));
                ids.push(id);
            },
            None => {
                proof {
                    lemma_ids_of_fails_on(
                        table@,
                        texts(tickers@),
                        i as int + 1,
                        tickers@.len() as int,
                    );
                }
                return Err(
                    QuoteError { fault: QuoteFault::TickerNotFound, text: tickers[i].clone() },
                );
            },
        }
        i = i + 1;
    }
    Ok(ids)
}

/// Once one of the first `n` tickers is missing, it is the one reported for
/// any number of tickers from `n` on.
proof fn lemma_ids_of_fails_on(table: Seq<CoinRow>, tickers: Seq<Seq<char>>, n: int, m: int)
    requires
        n <= m,
        ids_of(table, tickers, n) is Err,
    ensures
        ids_of(table, tickers, m) == ids_of(table, tickers, n),
    decreases m - n,
{
    if n < m {
        lemma_ids_of_fails_on(table, tickers, n, m - 1);
    }
}

/// The texts joined, with `sep` between one and the next.
pub open spec fn join(parts: Seq<Seq<char>>, sep: char) -> Seq<char>
    decreases parts.len(),
{
    if parts.len() == 0 {
        Seq::<char>::empty()
    } else if parts.len() == 1 {
        parts[0]
    } else {
        join(parts.drop_last(), sep) + seq![sep] + parts.last()
    }
}

/// The address to ask the price source for the prices of `ids` in US dollars.
pub open spec fn price_url_spec(ids: Seq<Seq<char>>) -> Seq<char> {
    "https://api.coingecko.com/api/v3/simple/price?ids="@ + join(ids, ',')
        + "&vs_currencies=usd"@
}

/// The address to ask the price source for the prices of `ids` in US dollars:
/// the identifiers go into it with commas between them.
pub fn price_url(ids: &Vec<String>) -> (r: String)
    ensures
        r@ == price_url_spec(texts(ids@)),
{
    let mut out: Vec<char> = Vec::new();
    let mut i: usize = 0;
    while i < ids.len()
        invariant
            i <= ids@.len(),
            out@ == join(texts(ids@).take(i as int), ','),
        decreases ids@.len() - i,
    {
        if i > 0 {
            out.push(',');
        }
        extend_chars(&mut out, &chars_of(ids[i].as_str()));
        proof {
            let next = texts(ids@).take(i + 1);
            assert(next.drop_last() == texts(ids@).take(i as int));
            assert(next.last() == ids@[i as int]@);
            assert(out@ =~= join(next, ','));
        }
        i = i + 1;
    }
    assert(texts(ids@).take(ids@.len() as int) == texts(ids@));
    let mut r = String::from_str("https://api.coingecko.com/api/v3/simple/price?ids=");
    r.append(string_of(&out).as_str());
    r.append("&vs_currencies=usd");
    r
}

/// The content of a quote.
pub struct QuoteView {
    pub ticker: Seq<char>,
    pub price: Dec,
}

/// The contents of a list of quotes.
pub open spec fn quote_views(quotes: Seq<Quote>) -> Seq<QuoteView> {
    Seq::new(quotes.len(), |i: int| QuoteView { ticker: quotes[i].ticker@, price: quotes[i].price@ })
}

/// The ticker that was asked for under an identifier: that of the last of the
/// first `n` identifiers that is `id`.
pub open spec fn ticker_of(ids: Seq<Seq<char>>, tickers: Seq<Seq<char>>, n: int, id: Seq<char>) -> Option<
    Seq<char>,
>
    decreases n,
{
    if n <= 0 {
        None
    } else if ids[n - 1] == id {
        Some(tickers[n - 1])
    } else {
        ticker_of(ids, tickers, n - 1, id)
    }
}

/// How many identifiers stand beside a ticker: as many as the shorter of the
/// two lists holds.
pub open spec fn asked(ids: Seq<Seq<char>>, tickers: Seq<Seq<char>>) -> int {
    if ids.len() <= tickers.len() {
        ids.len() as int
    } else {
        tickers.len() as int
    }
}

/// The quotes that the first `n` prices of an answer give: each price under
/// the ticker that its identifier was asked for. The error is the index of the
/// first price whose identifier was not asked for.
pub open spec fn quotes_of(
    answer: Seq<PricedId>,
    ids: Seq<Seq<char>>,
    tickers: Seq<Seq<char>>,
    n: int,
) -> Result<Seq<QuoteView>, int>
    decreases n,
{
    if n <= 0 {
        Ok(Seq::<QuoteView>::empty())
    } else {
        match quotes_of(answer, ids, tickers, n - 1) {
            Err(i) => Err(i),
            Ok(quotes) => match ticker_of(ids, tickers, asked(ids, tickers), answer[n - 1].id@) {
                Some(ticker) => Ok(quotes.push(QuoteView { ticker, price: answer[n - 1].usd@ })),
                None => Err(n - 1),
            },
        }
    }
}

proof fn lemma_quotes_of_fails_on(
    answer: Seq<PricedId>,
    ids: Seq<Seq<char>>,
    tickers: Seq<Seq<char>>,
    n: int,
    m: int,
)
    requires
        n <= m,
        quotes_of(answer, ids, tickers, n) is Err,
    ensures
        quotes_of(answer, ids, tickers, m) == quotes_of(answer, ids, tickers, n),
    decreases m - n,
{
    if n < m {
        lemma_quotes_of_fails_on(answer, ids, tickers, n, m - 1);
    }
}

/// The ticker that was asked for under `id`.
fn ticker_for(id: &str, ids: &Vec<String>, tickers: &Vec<String>) -> (r: Option<String>)
    ensures
        match r {
            Some(t) => ticker_of(
                texts(ids@),
                texts(tickers@),
                asked(texts(ids@), texts(tickers@)),
                id@,
            ) == Some(t@),
            None => ticker_of(
                texts(ids@),
                texts(tickers@),
                asked(texts(ids@), texts(tickers@)),
                id@,
            ) is None,
        },
{
    let key = chars_of(id);
    let mut n: usize = if ids.len() <= tickers.len() {
        ids.len()
    } else {
        tickers.len()
    };
    while n > 0
        invariant
            n <= ids@.len(),
            n <= tickers@.len(),
            key@ == id@,
            ticker_of(texts(ids@), texts(tickers@), asked(texts(ids@), texts(tickers@)), id@) == ticker_of(
                texts(ids@),
                texts(tickers@),
                n as int,
                id@,
            ),
        decreases n,
    {
        assert(texts(ids@)[n - 1] == ids@[n - 1]@);
        assert(texts(tickers@)[n - 1] == tickers@[n - 1]@);
        if same_chars(&chars_of(ids[n - 1].as_str()), &key) {
            return Some(tickers[n - 1].clone());
        }
        n = n - 1;
    }
    None
}

/// Turns the answer of the price source, which speaks of identifiers, into
/// quotes by ticker. `ids` and `tickers` are what was asked for, each ticker
/// at the index of its identifier.
pub fn get_quotes(answer: &Vec<PricedId>, ids: &Vec<String>, tickers: &Vec<String>) -> (r: Result<
    Vec<Quote>,
    QuoteError,
>)
    ensures
        match r {
            Ok(quotes) => quotes_of(answer@, texts(ids@), texts(tickers@), answer@.len() as int)
                == Ok::<Seq<QuoteView>, int>(quote_views(quotes@)),
            Err(e) => e.fault == QuoteFault::UnknownId && exists|i: int|
                0 <= i < answer@.len() && e.text@ == answer@[i].id@ && quotes_of(
                    answer@,
                    texts(ids@),
                    texts(tickers@),
                    answer@.len() as int,
                ) == Err::<Seq<QuoteView>, int>(i),
        },
{
    let mut quotes: Vec<Quote> = Vec::new();
    let mut i: usize = 0;
    assert(quote_views(quotes@) =~= Seq::<QuoteView>::empty());
    while i < answer.len()
        invariant
            i <= answer@.len(),
            quotes_of(answer@, texts(ids@), texts(tickers@), i as int) == Ok::<
                Seq<QuoteView>,
                int,
            >(quote_views(quotes@)),
        decreases answer@.len() - i,
    {
        let found = ticker_for(answer[i].id.as_str(), ids, tickers);
        match found {
            Some(ticker) => {
                let quote = Quote { ticker, price: answer[i].usd };
                assert(quote_views(quotes@.push(quote)) =~= quote_views(quotes@).push(
                    QuoteView { ticker: quote.ticker@, price: quote.price@ },
                ));
                quotes.push(quote);
            },
            None => {
                proof {
                    lemma_quotes_of_fails_on(
                        answer@,
                        texts(ids@),
                        texts(tickers@),
                        i as int + 1,
                        answer@.len() as int,
                    );
                }
                return Err(QuoteError { fault: QuoteFault::UnknownId, text: answer[i].id.clone() });
            },
        }
        i = i + 1;
    }
    Ok(quotes)
}

/// The price of a ticker among the first `n` quotes: that of the last of them
/// that is for the ticker.
pub open spec fn price_of(quotes: Seq<QuoteView>, n: int, ticker: Seq<char>) -> Option<Dec>
    decreases n,
{
    if n <= 0 {
        None
    } else if quotes[n - 1].ticker == ticker {
        Some(quotes[n - 1].price)
    } else {
        price_of(quotes, n - 1, ticker)
    }
}

/// The price of a unit of `ticker` in US dollars, as `quotes` have it.
pub fn quote_usd(ticker: &str, quotes: &Vec<Quote>) -> (r: Result<Amount, QuoteError>)
    ensures
        match r {
            Ok(price) => price_of(quote_views(quotes@), quotes@.len() as int, ticker@) == Some(
                price@,
            ),
            Err(e) => price_of(quote_views(quotes@), quotes@.len() as int, ticker@) is None
                && e.fault == QuoteFault::QuoteMissing && e.text@ == ticker@,
        },
{
    let key = chars_of(ticker);
    let mut n: usize = quotes.len();
    while n > 0
        invariant
            n <= quotes@.len(),
            key@ == ticker@,
            price_of(quote_views(quotes@), quotes@.len() as int, ticker@) == price_of(
                quote_views(quotes@),
                n as int,
                ticker@,
            ),
        decreases n,
    {
        assert(quote_views(quotes@)[n - 1].ticker == quotes@[n - 1].ticker@);
        assert(quote_views(quotes@)[n - 1].price == quotes@[n - 1].price@);
        if same_chars(&chars_of(quotes[n - 1].ticker.as_str()), &key) {
            return Ok(quotes[n - 1].price);
        }
        n = n - 1;
    }
    Err(QuoteError { fault: QuoteFault::QuoteMissing, text: String::from_str(ticker) })
}

/// A copy of a list of quotes.
pub fn copy_quotes(quotes: &Vec<Quote>) -> (r: Vec<Quote>)
    ensures
        quote_views(r@) == quote_views(quotes@),
{
    let mut r: Vec<Quote> = Vec::new();
    let mut i: usize = 0;
    while i < quotes.len()
        invariant
            i <= quotes@.len(),
            quote_views(r@) == quote_views(quotes@).take(i as int),
        decreases quotes@.len() - i,
    {
        let q = Quote { ticker: quotes[i].ticker.clone(), price: quotes[i].price };
        proof {
            let view = QuoteView { ticker: q.ticker@, price: q.price@ };
            assert(view == quote_views(quotes@)[i as int]);
            assert(quote_views(r@.push(q)) =~= quote_views(r@).push(view));
            assert(quote_views(quotes@).take(i + 1) =~= quote_views(quotes@).take(i as int).push(
                view,
            ));
        }
        r.push(q);
        i = i + 1;
    }
    assert(quote_views(quotes@).take(quotes@.len() as int) == quote_views(quotes@));
    r
}

/// What a cache of quotes holds: nothing yet, or the quotes of the last
/// refresh and the time of it, in seconds of a clock that never runs back.
pub struct CacheView {
    pub filled: bool,
    pub quotes: Seq<QuoteView>,
    pub last_updated: nat,
}

/// Whether, at the time `now`, the quotes have to be fetched: the cache is
/// empty, or its quotes are as old as the cache keeps them or older.
pub open spec fn is_stale(cache: CacheView, now: nat) -> bool {
    !cache.filled || now - cache.last_updated >= CACHE_SECONDS
}

/// What a caller of the cache has to do next.
#[derive(Debug)]
pub enum CacheAction {
    /// The cached quotes are fresh: here is a copy of them.
    Serve(Vec<Quote>),
    /// The quotes have to be fetched, and the outcome handed to `refresh`.
    Fetch,
}

/// Quotes kept for a while, so that they are not fetched for every question.
#[derive(Debug)]
pub struct QuoteCache {
    filled: bool,
    quotes: Vec<Quote>,
    last_updated: u64,
}

impl View for QuoteCache {
    type V = CacheView;

    closed spec fn view(&self) -> CacheView {
        CacheView {
            filled: self.filled,
            quotes: quote_views(self.quotes@),
            last_updated: self.last_updated as nat,
        }
    }
}

impl QuoteCache {
    /// An empty cache.
    pub fn new() -> (r: QuoteCache)
        ensures
            r@ == (CacheView { filled: false, quotes: Seq::<QuoteView>::empty(), last_updated: 0 }),
    {
        assert(quote_views(Seq::<Quote>::empty()) =~= Seq::<QuoteView>::empty());
        QuoteCache { filled: false, quotes: Vec::new(), last_updated: 0 }
    }

    /// Whether the quotes have to be fetched at the time `now`.
    pub fn needs_refresh(&self, now: u64) -> (r: bool)
        ensures
            r == is_stale(self@, now as nat),
    {
        !self.filled || (now >= self.last_updated && now - self.last_updated >= CACHE_SECONDS)
    }

    /// What to do at the time `now` to have quotes: serve the cached ones
    /// where they are fresh, fetch where they are not. The cache stays as it is.
    pub fn get_cached_quotes(&self, now: u64) -> (r: CacheAction)
        ensures
            match r {
                CacheAction::Serve(quotes) => !is_stale(self@, now as nat) && quote_views(quotes@)
                    == self@.quotes,
                CacheAction::Fetch => is_stale(self@, now as nat),
            },
    {
        if self.needs_refresh(now) {
            CacheAction::Fetch
        } else {
            CacheAction::Serve(copy_quotes(&self.quotes))
        }
    }

    /// Takes the outcome of a fetch made at the time `now`. Quotes replace the
    /// cached ones as a whole, and a copy of them is returned; a failure leaves
    /// the cache as it was and is returned as it is.
    pub fn refresh(&mut self, fetched: Result<Vec<Quote>, QuoteError>, now: u64) -> (r: Result<
        Vec<Quote>,
        QuoteError,
    >)
        ensures
            match (fetched, r) {
                (Ok(quotes), Ok(served)) => final(self)@ == (CacheView {
                    filled: true,
                    quotes: quote_views(quotes@),
                    last_updated: now as nat,
                }) && quote_views(served@) == quote_views(quotes@),
                (Err(e), Err(f)) => *final(self) == *old(self) && f == e,
                _ => false,
            },
    {
        match fetched {
            Ok(quotes) => {
                let served = copy_quotes(&quotes);
                self.filled = true;
                self.quotes = quotes;
                self.last_updated = now;
                Ok(served)
            },
            Err(e) => Err(e),
        }
    }
}

} // verus!
