use crate::amount::{
    decimal_add, decimal_lt, decimal_difference, decimal_div, decimal_mul, decimal_product, decimal_quotient,
    decimal_sub, decimal_sum, Amount, Dec,
};
use crate::currency::Currency;
use crate::trade::{
    line_views, parse_log, read_trades_from_csv, trade_views, LogError, Trade, TradeView,
};
use crate::fault::{Fault, Field};
use crate::tx::{cost_of, exchange_of, fee_is_covered, Tx, TxFault, TxView};
use vstd::prelude::*;
use vstd::string::StringExecFns;

verus! {

/// What a ledger holds of one currency: how much, and what was paid for it in
/// the valuation currency.
pub struct Holding {
    pub balance: Dec,
    pub cost_base: Dec,
}

/// The holdings of a portfolio: what is held by ticker, and the tickers in the
/// order in which their positions were opened.
pub struct Ledger {
    pub holdings: Map<Seq<char>, Holding>,
    pub order: Seq<Seq<char>>,
}

impl Ledger {
    /// The ledger without positions.
    pub open spec fn empty() -> Ledger {
        Ledger { holdings: Map::<Seq<char>, Holding>::empty(), order: Seq::<Seq<char>>::empty() }
    }

    /// Whether a position was opened for the ticker.
    pub open spec fn holds(self, ticker: Seq<char>) -> bool {
        self.holdings.dom().contains(ticker)
    }

    /// The ledger with `holding` as what is held of `ticker`: in the place of
    /// the ticker's position, or as a new position after all the others.
    pub open spec fn put(self, ticker: Seq<char>, holding: Holding) -> Ledger {
        Ledger {
            holdings: self.holdings.insert(ticker, holding),
            order: if self.holds(ticker) {
                self.order
            } else {
                self.order.push(ticker)
            },
        }
    }
}

/// Why a deposit or an exchange was not made.
#[derive(Debug, Clone, Copy, PartialEq, Eq, Structural)]
pub enum LedgerFault {
    /// The position holds less than is to be sold.
    InsufficientBalance,
    /// A decimal operation has no result: it overflows or divides by zero.
    Arithmetic,
}

/// A deposit or an exchange that was not made, with the position it failed on:
/// its currency, what it holds and what was asked of it.
#[derive(Debug)]
pub struct LedgerError {
    pub fault: LedgerFault,
    pub currency: Currency,
    pub balance: Amount,
    pub needed: Amount,
}

impl LedgerError {
    pub open spec fn message_spec(self) -> Seq<char> {
        match self.fault {
            LedgerFault::InsufficientBalance => "Insufficient balance: "@ + self.currency@
                + " holds "@ + self.balance@.text() + ", needed "@ + self.needed@.text(),
            LedgerFault::Arithmetic => "decimal overflow on "@ + self.currency@,
        }
    }

    /// The text of the error: the position and what was asked of it.
    pub fn message(&self) -> (r: String)
        ensures
            r@ == self.message_spec(),
    {
        match self.fault {
            LedgerFault::InsufficientBalance => {
                let mut r = String::from_str("Insufficient balance: ");
                r.append(self.currency.ticker());
                r.append(" holds ");
                r.append(self.balance.to_text().as_str());
                r.append(", needed ");
                r.append(self.needed.to_text().as_str());
                r
            },
            LedgerFault::Arithmetic => {
                let mut r = String::from_str("decimal overflow on ");
                r.append(self.currency.ticker());
                r
            },
        }
    }
}

/// The holding of a ticker: what the ledger has for it, or nothing of it yet.
pub open spec fn holding_of(l: Ledger, ticker: Seq<char>) -> Holding {
    if l.holds(ticker) {
        l.holdings[ticker]
    } else {
        Holding { balance: Dec::whole(0), cost_base: Dec::whole(0) }
    }
}

/// The ledger after `amount` of `currency` came in. The cost base grows by the
/// amount itself for the valuation currency, and by the amount at the price
/// `quote` for any other.
pub open spec fn deposit_into(
    l: Ledger,
    valuation: Seq<char>,
    currency: Seq<char>,
    amount: Dec,
    quote: Dec,
) -> Result<Ledger, LedgerFault> {
    let h = holding_of(l, currency);
    let cost = if currency == valuation {
        Some(amount)
    } else {
        decimal_product(amount, quote)
    };
    match (decimal_sum(h.balance, amount), cost) {
        (Some(balance), Some(c)) => match decimal_sum(h.cost_base, c) {
            Some(cost_base) => Ok(l.put(currency, Holding { balance, cost_base })),
            None => Err(LedgerFault::Arithmetic),
        },
        _ => Err(LedgerFault::Arithmetic),
    }
}

/// The part of a holding's cost base that leaves with `size` of it: `size` at
/// the holding's average cost, which is 1 for the valuation currency.
pub open spec fn removed_cost(h: Holding, is_valuation: bool, size: Dec) -> Option<Dec> {
    let average = if is_valuation {
        Some(Dec::whole(1))
    } else {
        decimal_quotient(h.cost_base, h.balance)
    };
    match average {
        Some(a) => decimal_product(a, size),
        None => None,
    }
}

/// The ledger after an exchange. What is sold leaves its position with its
/// share of the cost base, and that share is what the bought position's cost
/// base grows by. Nothing is exchanged where the position holds less than is
/// to be sold.
pub open spec fn apply_exchange(l: Ledger, valuation: Seq<char>, tx: TxView) -> Result<
    Ledger,
    LedgerFault,
> {
    let sell = holding_of(l, tx.sell);
    if sell.balance.lt(tx.sell_size) {
        Err(LedgerFault::InsufficientBalance)
    } else {
        match removed_cost(sell, tx.sell == valuation, tx.sell_size) {
            None => Err(LedgerFault::Arithmetic),
            Some(removed) => match (
                decimal_difference(sell.balance, tx.sell_size),
                decimal_difference(sell.cost_base, removed),
            ) {
                (Some(balance), Some(cost_base)) => {
                    let sold = l.put(tx.sell, Holding { balance, cost_base });
                    let buy = holding_of(sold, tx.buy);
                    match (
                        decimal_sum(buy.balance, tx.buy_size),
                        decimal_sum(buy.cost_base, removed),
                    ) {
                        (Some(balance), Some(cost_base)) => Ok(
                            sold.put(tx.buy, Holding { balance, cost_base }),
                        ),
                        _ => Err(LedgerFault::Arithmetic),
                    }
                },
                _ => Err(LedgerFault::Arithmetic),
            },
        }
    }
}

/// An exchange changes what is held of the two currencies it names and of no
/// other, keeps the positions that were open in their order, and is refused
/// exactly where the sold position holds less than is to be sold or a number
/// overflows.
pub proof fn lemma_exchange_touches_two_positions(l: Ledger, valuation: Seq<char>, tx: TxView)
    ensures
        apply_exchange(l, valuation, tx) matches Ok(after) ==> {
            &&& forall|t: Seq<char>|
                t != tx.sell && t != tx.buy ==> after.holds(t) == l.holds(t) && holding_of(after, t)
                    == holding_of(l, t)
            &&& after.holds(tx.sell) && after.holds(tx.buy)
            &&& l.order.is_prefix_of(after.order)
        },
        holding_of(l, tx.sell).balance.lt(tx.sell_size) <==> apply_exchange(l, valuation, tx)
            == Err::<Ledger, LedgerFault>(LedgerFault::InsufficientBalance),
{
}

/// No balance of the ledger is negative.
pub open spec fn balances_non_negative(l: Ledger) -> bool {
    forall|t: Seq<char>| l.holds(t) ==> (#[trigger] l.holdings[t]).balance.mantissa >= 0
}

/// No cost base of the ledger is negative.
pub open spec fn costs_non_negative(l: Ledger) -> bool {
    forall|t: Seq<char>| l.holds(t) ==> (#[trigger] l.holdings[t]).cost_base.mantissa >= 0
}

/// The cost that leaves the sold position with an exchange is no more than the
/// position's cost base.
pub open spec fn cost_is_covered(l: Ledger, valuation: Seq<char>, tx: TxView) -> bool {
    let sell = holding_of(l, tx.sell);
    removed_cost(sell, tx.sell == valuation, tx.sell_size) matches Some(removed) && removed.le(
        sell.cost_base,
    )
}

/// Why a trade of a replay was not applied.
#[derive(Debug, Clone, Copy, PartialEq, Eq, Structural)]
pub enum ReplayFault {
    /// The trade stands for no exchange.
    Exchange(TxFault),
    /// The ledger did not take the trade's funds or its exchange.
    Ledger(LedgerFault),
}

/// A replay that stopped: the index of the trade it stopped at, and why.
#[derive(Debug)]
pub struct ReplayError {
    pub index: usize,
    pub fault: ReplayFault,
}

/// Why a portfolio was not built from a trade log.
#[derive(Debug)]
pub enum CsvError {
    /// A line of the log was refused.
    Log(LogError),
    /// A trade of the log was not applied.
    Replay(ReplayError),
}

/// The ledger that a trade's exchange is applied to. In a funded replay, a
/// trade that is quoted in the valuation currency first brings its own cost
/// (amount times price, plus the fee) into the ledger as a deposit; otherwise
/// the ledger is taken as it stands.
pub open spec fn ledger_before(l: Ledger, valuation: Seq<char>, t: TradeView, funded: bool) -> Result<
    Ledger,
    ReplayFault,
> {
    if funded && t.pair.quote.ticker_spec() == valuation {
        match cost_of(t) {
            None => Err(ReplayFault::Exchange(TxFault::Arithmetic)),
            Some(cost) => match deposit_into(l, valuation, valuation, cost, Dec::whole(1)) {
                Ok(l1) => Ok(l1),
                Err(f) => Err(ReplayFault::Ledger(f)),
            },
        }
    } else {
        Ok(l)
    }
}

/// The ledger after one trade: the trade's exchange, applied to the ledger
/// that `ledger_before` gives.
pub open spec fn step(l: Ledger, valuation: Seq<char>, t: TradeView, funded: bool) -> Result<
    Ledger,
    ReplayFault,
> {
    match ledger_before(l, valuation, t, funded) {
        Err(f) => Err(f),
        Ok(l1) => match exchange_of(t) {
            Err(f) => Err(ReplayFault::Exchange(f)),
            Ok(tx) => match apply_exchange(l1, valuation, tx) {
                Ok(l2) => Ok(l2),
                Err(f) => Err(ReplayFault::Ledger(f)),
            },
        },
    }
}

/// The ledger after the trades, applied in their order. The replay stops at
/// the first trade that cannot be applied; the error is its index and why.
pub open spec fn replay_of(l: Ledger, valuation: Seq<char>, trades: Seq<TradeView>, funded: bool) -> Result<
    Ledger,
    (int, ReplayFault),
>
    decreases trades.len(),
{
    if trades.len() == 0 {
        Ok(l)
    } else {
        match replay_of(l, valuation, trades.drop_last(), funded) {
            Err(e) => Err(e),
            Ok(l1) => match step(l1, valuation, trades.last(), funded) {
                Ok(l2) => Ok(l2),
                Err(f) => Err((trades.len() - 1, f)),
            },
        }
    }
}

/// The trade's fee is covered, and so is the cost that its exchange removes
/// from the position it sells from.
pub open spec fn step_keeps_signs(l: Ledger, valuation: Seq<char>, t: TradeView, funded: bool) -> bool {
    &&& fee_is_covered(t)
    &&& ledger_before(l, valuation, t, funded) matches Ok(l1) ==> (exchange_of(t) matches Ok(tx)
        ==> cost_is_covered(l1, valuation, tx))
}

/// Every step of the replay keeps the signs.
pub open spec fn replay_keeps_signs(
    l: Ledger,
    valuation: Seq<char>,
    trades: Seq<TradeView>,
    funded: bool,
) -> bool
    decreases trades.len(),
{
    trades.len() == 0 || (replay_keeps_signs(l, valuation, trades.drop_last(), funded) && (
    replay_of(l, valuation, trades.drop_last(), funded) matches Ok(l1) ==> step_keeps_signs(
        l1,
        valuation,
        trades.last(),
        funded,
    )))
}

/// The portfolio that a trade log gives, read at the time `now`: its trades,
/// replayed with their funds into an empty ledger valued in US dollars.
pub open spec fn ledger_of_log(lines: Seq<Seq<char>>, now: int) -> Result<Ledger, CsvFault> {
    match parse_log(lines, now) {
        Err((line, field, fault)) => Err(CsvFault::Log(line, field, fault)),
        Ok(trades) => match replay_of(Ledger::empty(), "USD"@, trades, true) {
            Ok(l) => Ok(l),
            Err((index, fault)) => Err(CsvFault::Replay(index, fault)),
        },
    }
}

/// Why a trade log gives no portfolio: the line that was refused, with the
/// field and its fault, or the trade that was not applied, and why.
pub enum CsvFault {
    Log(int, Field, Fault),
    Replay(int, ReplayFault),
}

impl CsvError {
    pub open spec fn fault(self) -> CsvFault {
        match self {
            CsvError::Log(e) => CsvFault::Log(e.line as int, e.error.field, e.error.fault),
            CsvError::Replay(e) => CsvFault::Replay(e.index as int, e.fault),
        }
    }
}

/// A ledger entry: a currency, how much of it is held, and what was paid for that.
#[derive(Debug)]
pub struct Position {
    pub currency: Currency,
    pub balance: Amount,
    pub cost_base: Amount,
}

impl PartialEq for Position {
    /// Two positions are equal when they are of the same currency and agree in
    /// balance and cost base, compared as numbers.
    fn eq(&self, other: &Position) -> (r: bool) {
        self.currency == other.currency && self.balance == other.balance && self.cost_base
            == other.cost_base
    }
}

impl vstd::std_specs::cmp::PartialEqSpecImpl for Position {
    open spec fn obeys_eq_spec() -> bool {
        true
    }

    open spec fn eq_spec(&self, other: &Position) -> bool {
        &&& self.currency@ == other.currency@
        &&& self.balance@.same_number(other.balance@)
        &&& self.cost_base@.same_number(other.cost_base@)
    }
}

impl Position {
    /// The empty position of a currency.
    pub fn new(currency: Currency) -> (r: Position)
        ensures
            r.currency@ == currency@,
            r.balance@ == Dec::whole(0),
            r.cost_base@ == Dec::whole(0),
    {
        Position { currency, balance: Amount::zero(), cost_base: Amount::zero() }
    }

    pub open spec fn holding(self) -> Holding {
        Holding { balance: self.balance@, cost_base: self.cost_base@ }
    }
}

/// The index of the first position of `ticker`, or the number of positions
/// where there is none.
pub open spec fn index_of(positions: Seq<Position>, ticker: Seq<char>) -> int
    decreases positions.len(),
{
    if positions.len() == 0 || positions[0].currency@ == ticker {
        0
    } else {
        1 + index_of(positions.drop_first(), ticker)
    }
}

/// No two positions have the same currency.
pub open spec fn distinct(positions: Seq<Position>) -> bool {
    forall|i: int, j: int|
        0 <= i < j < positions.len() ==> (#[trigger] positions[i]).currency@ != (
        #[trigger] positions[j]).currency@
}

/// The ledger that a list of positions is.
pub open spec fn ledger_of(positions: Seq<Position>) -> Ledger {
    Ledger {
        holdings: Map::new(
            |t: Seq<char>| index_of(positions, t) < positions.len(),
            |t: Seq<char>| positions[index_of(positions, t)].holding(),
        ),
        order: Seq::new(positions.len(), |i: int| positions[i].currency@),
    }
}

proof fn lemma_index_of(positions: Seq<Position>, ticker: Seq<char>)
    ensures
        0 <= index_of(positions, ticker) <= positions.len(),
        index_of(positions, ticker) < positions.len() ==> positions[index_of(
            positions,
            ticker,
        )].currency@ == ticker,
        forall|j: int| 0 <= j < index_of(positions, ticker) ==> positions[j].currency@ != ticker,
    decreases positions.len(),
{
    if positions.len() == 0 || positions[0].currency@ == ticker {
    } else {
        lemma_index_of(positions.drop_first(), ticker);
        let k = index_of(positions.drop_first(), ticker);
        assert forall|j: int| 0 <= j < 1 + k implies positions[j].currency@ != ticker by {
            if j > 0 {
                assert(positions.drop_first()[j - 1] == positions[j]);
            }
        }
        if 1 + k < positions.len() {
            assert(positions.drop_first()[k] == positions[1 + k]);
        }
    }
}

proof fn lemma_index_of_is(positions: Seq<Position>, ticker: Seq<char>, i: int)
    requires
        0 <= i <= positions.len(),
        forall|j: int| 0 <= j < i ==> positions[j].currency@ != ticker,
        i < positions.len() ==> positions[i].currency@ == ticker,
    ensures
        index_of(positions, ticker) == i,
{
    lemma_index_of(positions, ticker);
}

/// The ledger holds of the currency of each position what the position holds.
pub(crate) proof fn lemma_ledger_entry(positions: Seq<Position>, i: int)
    requires
        0 <= i < positions.len(),
        distinct(positions),
    ensures
        ledger_of(positions).order[i] == positions[i].currency@,
        ledger_of(positions).holds(positions[i].currency@),
        ledger_of(positions).holdings[positions[i].currency@] == positions[i].holding(),
{
    let t = positions[i].currency@;
    lemma_index_of(positions, t);
    let k = index_of(positions, t);
    if k < i {
        assert(positions[k].currency@ != positions[i].currency@);
    }
}

/// Putting a position of the same currency in the place of one changes the
/// ledger at that currency alone.
proof fn lemma_ledger_after_set(positions: Seq<Position>, i: int, p: Position)
    requires
        0 <= i < positions.len(),
        distinct(positions),
        p.currency@ == positions[i].currency@,
    ensures
        distinct(positions.update(i, p)),
        ledger_of(positions.update(i, p)) == ledger_of(positions).put(p.currency@, p.holding()),
{
    let after = positions.update(i, p);
    assert(distinct(after));
    assert forall|t: Seq<char>| index_of(after, t) == index_of(positions, t) by {
        lemma_index_of(positions, t);
        let k = index_of(positions, t);
        assert forall|j: int| 0 <= j < k implies after[j].currency@ != t by {
            assert(positions[j].currency@ != t);
        }
        lemma_index_of_is(after, t, k);
    }
    lemma_index_of(positions, p.currency@);
    assert(index_of(positions, p.currency@) == i) by {
        let k = index_of(positions, p.currency@);
        if k < i {
            assert(positions[k].currency@ != positions[i].currency@);
        }
    }
    let expected = ledger_of(positions).put(p.currency@, p.holding());
    assert forall|t: Seq<char>|
        ledger_of(after).holdings.dom().contains(t) implies #[trigger] ledger_of(
        after,
    ).holdings[t] == expected.holdings[t] by {
        lemma_index_of(positions, t);
        if t != p.currency@ {
            assert(index_of(positions, t) != i);
        }
    }
    assert(ledger_of(after).holdings =~= expected.holdings);
    assert(ledger_of(positions).holds(p.currency@));
    assert(ledger_of(after).order =~= expected.order);
}

/// Adding a position of a currency that has none yet changes the ledger at that
/// currency alone.
proof fn lemma_ledger_after_push(positions: Seq<Position>, p: Position)
    requires
        distinct(positions),
        index_of(positions, p.currency@) == positions.len(),
    ensures
        distinct(positions.push(p)),
        ledger_of(positions.push(p)) == ledger_of(positions).put(p.currency@, p.holding()),
{
    let after = positions.push(p);
    lemma_index_of(positions, p.currency@);
    assert(distinct(after));
    assert forall|t: Seq<char>|
        index_of(after, t) == (if t == p.currency@ {
            positions.len() as int
        } else if index_of(positions, t) < positions.len() {
            index_of(positions, t)
        } else {
            after.len() as int
        }) by {
        lemma_index_of(positions, t);
        let k = index_of(positions, t);
        assert forall|j: int| 0 <= j < k implies after[j].currency@ != t by {
            assert(positions[j].currency@ != t);
        }
        if t == p.currency@ {
            lemma_index_of_is(after, t, positions.len() as int);
        } else if k < positions.len() {
            lemma_index_of_is(after, t, k);
        } else {
            lemma_index_of_is(after, t, after.len() as int);
        }
    }
    let expected = ledger_of(positions).put(p.currency@, p.holding());
    assert forall|t: Seq<char>|
        ledger_of(after).holdings.dom().contains(t) == expected.holdings.dom().contains(t) by {
        let k = index_of(after, t);
    }
    assert forall|t: Seq<char>|
        ledger_of(after).holdings.dom().contains(t) implies #[trigger] ledger_of(
        after,
    ).holdings[t] == expected.holdings[t] by {
        let k = index_of(after, t);
        lemma_index_of(positions, t);
    }
    assert(ledger_of(after).holdings =~= expected.holdings);
    assert(!ledger_of(positions).holds(p.currency@));
    assert(ledger_of(after).order =~= expected.order);
}

/// Where the position of `ticker` stands, if there is one.
fn find(positions: &Vec<Position>, ticker: &str) -> (r: Option<usize>)
    ensures
        match r {
            Some(i) => i < positions@.len() && index_of(positions@, ticker@) == i,
            None => index_of(positions@, ticker@) == positions@.len(),
        },
{
    let mut i: usize = 0;
    while i < positions.len()
        invariant
            i <= positions@.len(),
            forall|j: int| 0 <= j < i ==> positions@[j].currency@ != ticker@,
        decreases positions@.len() - i,
    {
        if crate::text::reads(&crate::text::chars_of(positions[i].currency.ticker()), ticker) {
            proof {
                lemma_index_of_is(positions@, ticker@, i as int);
            }
            return Some(i);
        }
        i = i + 1;
    }
    proof {
        lemma_index_of_is(positions@, ticker@, i as int);
    }
    None
}

/// The positions of an owner, one for each currency that was ever held, valued
/// in one currency.
#[derive(Debug)]
pub struct Portfolio {
    positions: Vec<Position>,
    valuation: Currency,
}

impl View for Portfolio {
    type V = Ledger;

    closed spec fn view(&self) -> Ledger {
        ledger_of(self.positions@)
    }
}

impl Portfolio {
    #[verifier::type_invariant]
    pub closed spec fn inv(self) -> bool {
        distinct(self.positions@)
    }

    /// The ticker of the currency in which the portfolio is valued.
    pub closed spec fn valuation_ticker(self) -> Seq<char> {
        self.valuation@
    }

    /// An empty portfolio valued in US dollars.
    pub fn new() -> (r: Portfolio)
        ensures
            r@ == Ledger::empty(),
            r.valuation_ticker() == "USD"@,
    {
        let r = Portfolio { positions: Vec::new(), valuation: Currency::default() };
        assert(r@.holdings =~= Ledger::empty().holdings);
        assert(r@.order =~= Ledger::empty().order);
        r
    }

    /// An empty portfolio valued in `valuation`.
    pub fn with_valuation(valuation: Currency) -> (r: Portfolio)
        ensures
            r@ == Ledger::empty(),
            r.valuation_ticker() == valuation@,
    {
        let r = Portfolio { positions: Vec::new(), valuation };
        assert(r@.holdings =~= Ledger::empty().holdings);
        assert(r@.order =~= Ledger::empty().order);
        r
    }

    pub fn valuation(&self) -> (r: &Currency)
        ensures
            r@ == self.valuation_ticker(),
    {
        &self.valuation
    }

    /// The positions in the order in which they were opened: one for each
    /// ticker of the ledger, with what the ledger holds of it.
    pub fn positions(&self) -> (r: &Vec<Position>)
        ensures
            distinct(r@),
            self@ == ledger_of(r@),
    {
        proof {
            use_type_invariant(self);
        }
        &self.positions
    }

    /// The position of `currency`, if one was ever opened.
    pub fn get(&self, currency: &Currency) -> (r: Option<&Position>)
        ensures
            r is Some == self@.holds(currency@),
            r matches Some(p) ==> p.currency@ == currency@ && p.holding()
                == self@.holdings[currency@],
    {
        match find(&self.positions, currency.ticker()) {
            Some(i) => {
                proof {
                    lemma_index_of(self.positions@, currency@);
                }
                Some(&self.positions[i])
            },
            None => None,
        }
    }

    /// Sets what the ledger holds of `currency`.
    fn put(&mut self, currency: Currency, balance: Amount, cost_base: Amount)
        ensures
            final(self)@ == old(self)@.put(
                currency@,
                Holding { balance: balance@, cost_base: cost_base@ },
            ),
            final(self).valuation_ticker() == old(self).valuation_ticker(),
    {
        proof {
            use_type_invariant(&*self);
        }
        let mut taken = Portfolio { positions: Vec::new(), valuation: Currency::default() };
        core::mem::swap(self, &mut taken);
        let Portfolio { mut positions, valuation } = taken;
        let p = Position { currency, balance, cost_base };
        match find(&positions, p.currency.ticker()) {
            Some(i) => {
                proof {
                    lemma_index_of(positions@, p.currency@);
                    lemma_ledger_after_set(positions@, i as int, p);
                }
                positions.set(i, p);
            },
            None => {
                proof {
                    lemma_ledger_after_push(positions@, p);
                }
                positions.push(p);
            },
        }
        *self = Portfolio { positions, valuation };
    }

    /// What the portfolio holds of `currency`: its position's balance and cost
    /// base, or zero of both where it has none.
    fn holding(&self, currency: &Currency) -> (r: (Amount, Amount))
        ensures
            holding_of(self@, currency@) == (Holding { balance: r.0@, cost_base: r.1@ }),
            r.0@.wf(),
            r.1@.wf(),
    {
        match self.get(currency) {
            Some(p) => {
                proof {
                    use_type_invariant(&p.balance);
                    use_type_invariant(&p.cost_base);
                }
                (p.balance, p.cost_base)
            },
            None => (Amount::zero(), Amount::zero()),
        }
    }

    /// Takes `amount` of `currency` into the portfolio. The cost base of the
    /// position grows by the amount itself where the currency is the valuation
    /// currency, and by the amount at the price `quote` where it is another.
    /// The portfolio stays as it is where a number overflows.
    pub fn deposit(&mut self, currency: Currency, amount: Amount, quote: Amount) -> (r: Result<
        (),
        LedgerError,
    >)
        ensures
            final(self).valuation_ticker() == old(self).valuation_ticker(),
            match r {
                Ok(()) => deposit_into(
                    old(self)@,
                    old(self).valuation_ticker(),
                    currency@,
                    amount@,
                    quote@,
                ) == Ok::<Ledger, LedgerFault>(final(self)@),
                Err(e) => deposit_into(
                    old(self)@,
                    old(self).valuation_ticker(),
                    currency@,
                    amount@,
                    quote@,
                ) == Err::<Ledger, LedgerFault>(e.fault) && *final(self) == *old(self),
            },
            r matches Err(e) ==> e.currency@ == currency@ && e.needed@ == amount@ && e.balance@
                == holding_of(old(self)@, currency@).balance,
            r is Ok && amount@.mantissa >= 0 && balances_non_negative(old(self)@)
                ==> balances_non_negative(final(self)@),
            r is Ok && amount@.mantissa >= 0 && quote@.mantissa >= 0 && costs_non_negative(
                old(self)@,
            ) ==> costs_non_negative(final(self)@),
    {
        proof {
            use_type_invariant(&amount);
            use_type_invariant(&quote);
        }
        let (held, paid) = self.holding(&currency);
        let balance = match decimal_add(held, amount) {
            Some(b) => b,
            None => return Err(
                LedgerError {
                    fault: LedgerFault::Arithmetic,
                    currency,
                    balance: held,
                    needed: amount,
                },
            ),
        };
        let cost = if currency == self.valuation {
            amount
        } else {
            match decimal_mul(amount, quote) {
                Some(c) => c,
                None => return Err(
                    LedgerError {
                        fault: LedgerFault::Arithmetic,
                        currency,
                        balance: held,
                        needed: amount,
                    },
                ),
            }
        };
        let cost_base = match decimal_add(paid, cost) {
            Some(c) => c,
            None => return Err(
                LedgerError {
                    fault: LedgerFault::Arithmetic,
                    currency,
                    balance: held,
                    needed: amount,
                },
            ),
        };
        self.put(currency, balance, cost_base);
        Ok(())
    }

    /// Makes an exchange: what is sold leaves its position together with its
    /// share of the position's cost base, at the average cost of the position,
    /// and what is bought enters its position with that share as its cost.
    /// Where the sold position holds less than is to be sold, or a number
    /// overflows, the portfolio stays as it is.
    pub fn add_tx(&mut self, tx: Tx) -> (r: Result<(), LedgerError>)
        ensures
            final(self).valuation_ticker() == old(self).valuation_ticker(),
            match r {
                Ok(()) => apply_exchange(old(self)@, old(self).valuation_ticker(), tx@) == Ok::<
                    Ledger,
                    LedgerFault,
                >(final(self)@),
                Err(e) => apply_exchange(old(self)@, old(self).valuation_ticker(), tx@) == Err::<
                    Ledger,
                    LedgerFault,
                >(e.fault) && *final(self) == *old(self),
            },
            holding_of(old(self)@, tx@.sell).balance.lt(tx@.sell_size) <==> (r matches Err(e)
                && e.fault == LedgerFault::InsufficientBalance),
            r matches Err(e) ==> e.currency@ == tx@.sell && e.needed@ == tx@.sell_size
                && e.balance@ == holding_of(old(self)@, tx@.sell).balance,
            r is Ok && tx@.buy_size.mantissa >= 0 && balances_non_negative(old(self)@)
                ==> balances_non_negative(final(self)@),
            r is Ok && tx@.sell_size.mantissa >= 0 && balances_non_negative(old(self)@)
                && costs_non_negative(old(self)@) && cost_is_covered(
                old(self)@,
                old(self).valuation_ticker(),
                tx@,
            ) ==> costs_non_negative(final(self)@),
    {
        let Tx { buy, buy_size, sell, sell_size } = tx;
        proof {
            use_type_invariant(&buy_size);
            use_type_invariant(&sell_size);
        }
        let (held, paid) = self.holding(&sell);
        if decimal_lt(held, sell_size) {
            return Err(
                LedgerError {
                    fault: LedgerFault::InsufficientBalance,
                    currency: sell,
                    balance: held,
                    needed: sell_size,
                },
            );
        }
        let average = if sell == self.valuation {
            Some(Amount::one())
        } else {
            decimal_div(paid, held)
        };
        let removed = match average {
            Some(a) => {
                proof {
                    use_type_invariant(&a);
                }
                decimal_mul(a, sell_size)
            },
            None => None,
        };
        let removed = match removed {
            Some(c) => c,
            None => return Err(
                LedgerError {
                    fault: LedgerFault::Arithmetic,
                    currency: sell,
                    balance: held,
                    needed: sell_size,
                },
            ),
        };
        let sold_balance = decimal_sub(held, sell_size);
        let sold_cost = decimal_sub(paid, removed);
        let (sold_balance, sold_cost) = match (sold_balance, sold_cost) {
            (Some(b), Some(c)) => (b, c),
            _ => return Err(
                LedgerError {
                    fault: LedgerFault::Arithmetic,
                    currency: sell,
                    balance: held,
                    needed: sell_size,
                },
            ),
        };
        let (had, cost) = if buy == sell {
            (sold_balance, sold_cost)
        } else {
            self.holding(&buy)
        };
        let bought_balance = decimal_add(had, buy_size);
        let bought_cost = decimal_add(cost, removed);
        let (bought_balance, bought_cost) = match (bought_balance, bought_cost) {
            (Some(b), Some(c)) => (b, c),
            _ => return Err(
                LedgerError {
                    fault: LedgerFault::Arithmetic,
                    currency: sell,
                    balance: held,
                    needed: sell_size,
                },
            ),
        };
        self.put(sell, sold_balance, sold_cost);
        self.put(buy, bought_balance, bought_cost);
        Ok(())
    }

    /// Applies one trade: its funds, in a funded replay, then its exchange.
    /// The portfolio stays as it is where the trade cannot be applied.
    fn apply_trade(&mut self, trade: &Trade, funded: bool) -> (r: Result<(), ReplayFault>)
        ensures
            final(self).valuation_ticker() == old(self).valuation_ticker(),
            match r {
                Ok(()) => step(old(self)@, old(self).valuation_ticker(), trade@, funded) == Ok::<
                    Ledger,
                    ReplayFault,
                >(final(self)@),
                Err(f) => step(old(self)@, old(self).valuation_ticker(), trade@, funded) == Err::<
                    Ledger,
                    ReplayFault,
                >(f) && final(self)@ == old(self)@,
            },
            r is Ok && balances_non_negative(old(self)@) && costs_non_negative(old(self)@)
                && step_keeps_signs(old(self)@, old(self).valuation_ticker(), trade@, funded)
                ==> balances_non_negative(final(self)@) && costs_non_negative(final(self)@),
    {
        let mut funds: Option<Amount> = None;
        if funded && Currency::of_quote(trade.pair().quote()) == self.valuation {
            let amount = trade.amount();
            let price = trade.price();
            let fee = trade.fee();
            proof {
                use_type_invariant(&amount);
                use_type_invariant(&price);
                use_type_invariant(&fee);
            }
            let cost = match decimal_mul(amount, price) {
                Some(gross) => decimal_add(gross, fee),
                None => None,
            };
            match cost {
                Some(c) => {
                    funds = Some(c);
                },
                None => {
                    return Err(ReplayFault::Exchange(TxFault::Arithmetic));
                },
            }
        }
        match funds {
            None => {
                let tx = match trade.to_tx() {
                    Ok(tx) => tx,
                    Err(e) => {
                        return Err(ReplayFault::Exchange(e.fault));
                    },
                };
                match self.add_tx(tx) {
                    Ok(()) => Ok(()),
                    Err(e) => Err(ReplayFault::Ledger(e.fault)),
                }
            },
            Some(cost) => {
                // The funds and the exchange enter a copy, so that the
                // portfolio stays as it is where the exchange fails.
                let mut trial = self.duplicate();
                let valuation = trial.valuation.clone();
                match trial.deposit(valuation, cost, Amount::one()) {
                    Ok(()) => {},
                    Err(e) => {
                        return Err(ReplayFault::Ledger(e.fault));
                    },
                }
                let tx = match trade.to_tx() {
                    Ok(tx) => tx,
                    Err(e) => {
                        return Err(ReplayFault::Exchange(e.fault));
                    },
                };
                match trial.add_tx(tx) {
                    Ok(()) => {},
                    Err(e) => {
                        return Err(ReplayFault::Ledger(e.fault));
                    },
                }
                *self = trial;
                Ok(())
            },
        }
    }

    /// A copy of the portfolio.
    pub fn duplicate(&self) -> (r: Portfolio)
        ensures
            r@ == self@,
            r.valuation_ticker() == self.valuation_ticker(),
    {
        proof {
            use_type_invariant(self);
        }
        let mut positions: Vec<Position> = Vec::new();
        let mut i: usize = 0;
        while i < self.positions.len()
            invariant
                i <= self.positions@.len(),
                positions@.len() == i,
                forall|j: int|
                    0 <= j < i ==> (#[trigger] positions@[j]).currency@
                        == self.positions@[j].currency@ && positions@[j].holding()
                        == self.positions@[j].holding(),
            decreases self.positions@.len() - i,
        {
            let p = &self.positions[i];
            positions.push(
                Position { currency: p.currency.clone(), balance: p.balance, cost_base: p.cost_base },
            );
            i = i + 1;
        }
        proof {
            lemma_same_ledger(self.positions@, positions@);
        }
        Portfolio { positions, valuation: self.valuation.clone() }
    }

    /// Replays trades: each trade's exchange is applied to the ledger, in the
    /// order of the trades. The replay stops at the first trade that cannot be
    /// applied and leaves the ledger as the trades before it made it.
    pub fn replay(&mut self, trades: &Vec<Trade>) -> (r: Result<(), ReplayError>)
        ensures
            final(self).valuation_ticker() == old(self).valuation_ticker(),
            match r {
                Ok(()) => replay_of(
                    old(self)@,
                    old(self).valuation_ticker(),
                    trade_views(trades@),
                    false,
                ) == Ok::<Ledger, (int, ReplayFault)>(final(self)@),
                Err(e) => e.index < trades@.len() && replay_of(
                    old(self)@,
                    old(self).valuation_ticker(),
                    trade_views(trades@),
                    false,
                ) == Err::<Ledger, (int, ReplayFault)>((e.index as int, e.fault)) && replay_of(
                    old(self)@,
                    old(self).valuation_ticker(),
                    trade_views(trades@).take(e.index as int),
                    false,
                ) == Ok::<Ledger, (int, ReplayFault)>(final(self)@),
            },
            r is Ok && balances_non_negative(old(self)@) && costs_non_negative(old(self)@)
                && replay_keeps_signs(
                old(self)@,
                old(self).valuation_ticker(),
                trade_views(trades@),
                false,
            ) ==> balances_non_negative(final(self)@) && costs_non_negative(final(self)@),
    {
        self.run(trades, false)
    }

    /// Replays trades as `replay` does, and lets each trade that is quoted in
    /// the valuation currency bring its own cost into the ledger first.
    pub fn replay_funded(&mut self, trades: &Vec<Trade>) -> (r: Result<(), ReplayError>)
        ensures
            final(self).valuation_ticker() == old(self).valuation_ticker(),
            match r {
                Ok(()) => replay_of(
                    old(self)@,
                    old(self).valuation_ticker(),
                    trade_views(trades@),
                    true,
                ) == Ok::<Ledger, (int, ReplayFault)>(final(self)@),
                Err(e) => e.index < trades@.len() && replay_of(
                    old(self)@,
                    old(self).valuation_ticker(),
                    trade_views(trades@),
                    true,
                ) == Err::<Ledger, (int, ReplayFault)>((e.index as int, e.fault)) && replay_of(
                    old(self)@,
                    old(self).valuation_ticker(),
                    trade_views(trades@).take(e.index as int),
                    true,
                ) == Ok::<Ledger, (int, ReplayFault)>(final(self)@),
            },
            r is Ok && balances_non_negative(old(self)@) && costs_non_negative(old(self)@)
                && replay_keeps_signs(
                old(self)@,
                old(self).valuation_ticker(),
                trade_views(trades@),
                true,
            ) ==> balances_non_negative(final(self)@) && costs_non_negative(final(self)@),
    {
        self.run(trades, true)
    }

    fn run(&mut self, trades: &Vec<Trade>, funded: bool) -> (r: Result<(), ReplayError>)
        ensures
            final(self).valuation_ticker() == old(self).valuation_ticker(),
            match r {
                Ok(()) => replay_of(
                    old(self)@,
                    old(self).valuation_ticker(),
                    trade_views(trades@),
                    funded,
                ) == Ok::<Ledger, (int, ReplayFault)>(final(self)@),
                Err(e) => e.index < trades@.len() && replay_of(
                    old(self)@,
                    old(self).valuation_ticker(),
                    trade_views(trades@),
                    funded,
                ) == Err::<Ledger, (int, ReplayFault)>((e.index as int, e.fault)) && replay_of(
                    old(self)@,
                    old(self).valuation_ticker(),
                    trade_views(trades@).take(e.index as int),
                    funded,
                ) == Ok::<Ledger, (int, ReplayFault)>(final(self)@),
            },
            r is Ok && balances_non_negative(old(self)@) && costs_non_negative(old(self)@)
                && replay_keeps_signs(
                old(self)@,
                old(self).valuation_ticker(),
                trade_views(trades@),
                funded,
            ) ==> balances_non_negative(final(self)@) && costs_non_negative(final(self)@),
    {
        let ghost start = self@;
        let ghost valuation = self.valuation_ticker();
        let ghost views = trade_views(trades@);
        let mut i: usize = 0;
        assert(views.take(0) =~= Seq::<TradeView>::empty());
        while i < trades.len()
            invariant
                i <= trades@.len(),
                views == trade_views(trades@),
                start == old(self)@,
                valuation == old(self).valuation_ticker(),
                valuation == self.valuation_ticker(),
                replay_of(start, valuation, views.take(i as int), funded) == Ok::<
                    Ledger,
                    (int, ReplayFault),
                >(self@),
                balances_non_negative(start) && costs_non_negative(start) && replay_keeps_signs(
                    start,
                    valuation,
                    views.take(i as int),
                    funded,
                ) ==> balances_non_negative(self@) && costs_non_negative(self@),
            decreases trades@.len() - i,
        {
            let ghost prefix = views.take(i as int);
            let ghost next = views.take(i + 1);
            proof {
                assert(next.drop_last() == prefix);
                assert(next.last() == trades@[i as int]@);
            }
            match self.apply_trade(&trades[i], funded) {
                Ok(()) => {},
                Err(fault) => {
                    proof {
                        lemma_replay_fails_on(start, valuation, views, funded, i + 1);
                    }
                    return Err(ReplayError { index: i, fault });
                },
            }
            proof {
                if balances_non_negative(start) && costs_non_negative(start) && replay_keeps_signs(
                    start,
                    valuation,
                    views,
                    funded,
                ) {
                    lemma_keeps_signs_prefix(start, valuation, views, funded, i + 1);
                }
            }
            i = i + 1;
        }
        assert(views.take(trades@.len() as int) == views);
        Ok(())
    }

    /// Builds the portfolio of a trade log from its lines, read at the time
    /// `now`: the trades are replayed, with their funds, into an empty
    /// portfolio valued in US dollars.
    pub fn from_csv(lines: &Vec<String>, now: i64) -> (r: Result<Portfolio, CsvError>)
        ensures
            match r {
                Ok(p) => ledger_of_log(line_views(lines@), now as int) == Ok::<Ledger, CsvFault>(
                    p@,
                ) && p.valuation_ticker() == "USD"@,
                Err(e) => ledger_of_log(line_views(lines@), now as int) == Err::<
                    Ledger,
                    CsvFault,
                >(e.fault()),
            },
    {
        let trades = match read_trades_from_csv(lines, now) {
            Ok(trades) => trades,
            Err(e) => return Err(CsvError::Log(e)),
        };
        let mut portfolio = Portfolio::new();
        match portfolio.replay_funded(&trades) {
            Ok(()) => Ok(portfolio),
            Err(e) => Err(CsvError::Replay(e)),
        }
    }
}

/// Two lists of positions that agree on every currency and holding are the
/// same ledger.
proof fn lemma_same_ledger(a: Seq<Position>, b: Seq<Position>)
    requires
        a.len() == b.len(),
        forall|j: int|
            0 <= j < a.len() ==> (#[trigger] b[j]).currency@ == a[j].currency@ && b[j].holding()
                == a[j].holding(),
    ensures
        ledger_of(a) == ledger_of(b),
        distinct(a) ==> distinct(b),
{
    assert forall|t: Seq<char>| index_of(a, t) == index_of(b, t) by {
        lemma_index_of(a, t);
        let k = index_of(a, t);
        assert forall|j: int| 0 <= j < k implies b[j].currency@ != t by {
            assert(b[j].currency@ == a[j].currency@);
        }
        if k < a.len() {
            assert(b[k].currency@ == a[k].currency@);
        }
        lemma_index_of_is(b, t, k);
    }
    assert forall|t: Seq<char>|
        ledger_of(a).holdings.dom().contains(t) implies #[trigger] ledger_of(a).holdings[t]
        == ledger_of(b).holdings[t] by {
        lemma_index_of(a, t);
        let k = index_of(a, t);
        assert(b[k].holding() == a[k].holding());
    }
    assert(ledger_of(a).holdings =~= ledger_of(b).holdings);
    assert(ledger_of(a).order =~= ledger_of(b).order);
    if distinct(a) {
        assert forall|i: int, j: int| 0 <= i < j < b.len() implies (#[trigger] b[i]).currency@ != (
        #[trigger] b[j]).currency@ by {
            assert(a[i].currency@ != a[j].currency@);
        }
    }
}

/// Once the replay of the first `n` trades fails, the replay of all of them
/// fails in the same way.
proof fn lemma_replay_fails_on(
    l: Ledger,
    valuation: Seq<char>,
    trades: Seq<TradeView>,
    funded: bool,
    n: int,
)
    requires
        0 <= n <= trades.len(),
        replay_of(l, valuation, trades.take(n), funded) is Err,
    ensures
        replay_of(l, valuation, trades, funded) == replay_of(l, valuation, trades.take(n), funded),
    decreases trades.len() - n,
{
    if n < trades.len() {
        assert(trades.take(n + 1).drop_last() == trades.take(n));
        lemma_replay_fails_on(l, valuation, trades, funded, n + 1);
    } else {
        assert(trades.take(n) == trades);
    }
}

/// Where every step of a replay keeps the signs, so does every step of the
/// replay of its first `n` trades.
proof fn lemma_keeps_signs_prefix(
    l: Ledger,
    valuation: Seq<char>,
    trades: Seq<TradeView>,
    funded: bool,
    n: int,
)
    requires
        0 <= n <= trades.len(),
        replay_keeps_signs(l, valuation, trades, funded),
    ensures
        replay_keeps_signs(l, valuation, trades.take(n), funded),
    decreases trades.len() - n,
{
    if n < trades.len() {
        lemma_keeps_signs_prefix(l, valuation, trades, funded, n + 1);
        assert(trades.take(n + 1).drop_last() == trades.take(n));
    } else {
        assert(trades.take(n) == trades);
    }
}

} // verus!
