use crate::amount::{
    decimal_add, decimal_difference, decimal_div, decimal_lt, decimal_mul, decimal_product,
    decimal_quotient, decimal_sub, decimal_sum, Amount, Dec,
};
use crate::side::Side;
use crate::trade::{trade_views, Trade, TradeView};
use crate::trading_pair::{PairView, TradingPair};
use vstd::prelude::*;
use vstd::string::StringExecFns;

verus! {

/// What is held of the base asset of a pair, and the average price it was
/// bought at.
pub struct PairState {
    pub holdings: Dec,
    pub average_price: Dec,
}

/// Why a trade does not enter a pair's position.
#[derive(Debug, Clone, Copy, PartialEq, Eq, Structural)]
pub enum PositionFault {
    /// The trade is of another pair.
    PairMismatch,
    /// The trade sells more than is held.
    Oversell,
    /// A decimal operation has no result: it overflows or divides by zero.
    Arithmetic,
}

/// A trade that did not enter a pair's position: its index among the trades,
/// why, the amount of the trade and what was held when it came.
#[derive(Debug)]
pub struct PositionError {
    pub index: usize,
    pub fault: PositionFault,
    pub amount: Amount,
    pub holdings: Amount,
}

impl PositionError {
    pub open spec fn message_spec(self) -> Seq<char> {
        match self.fault {
            PositionFault::PairMismatch => "trading pair mismatch"@,
            PositionFault::Oversell => "sell amount bigger than holdings: "@ + self.amount@.text()
                + " > "@ + self.holdings@.text(),
            PositionFault::Arithmetic => "decimal overflow"@,
        }
    }

    pub fn message(&self) -> (r: String)
        ensures
            r@ == self.message_spec(),
    {
        match self.fault {
            PositionFault::PairMismatch => String::from_str("trading pair mismatch"),
            PositionFault::Oversell => {
                let mut r = String::from_str("sell amount bigger than holdings: ");
                r.append(self.amount.to_text().as_str());
                r.append(" > ");
                r.append(self.holdings.to_text().as_str());
                r
            },
            PositionFault::Arithmetic => String::from_str("decimal overflow"),
        }
    }
}

/// The average price after a buy: what was held at its average price and what
/// is bought at its price, together, by the unit of what is then held.
pub open spec fn average_after_buy(state: PairState, t: TradeView) -> Option<Dec> {
    match (
        decimal_product(state.holdings, state.average_price),
        decimal_product(t.amount, t.price),
        decimal_sum(state.holdings, t.amount),
    ) {
        (Some(held), Some(bought), Some(total)) => match decimal_sum(held, bought) {
            Some(paid) => decimal_quotient(paid, total),
            None => None,
        },
        _ => None,
    }
}

/// The position after a trade. A buy adds to the holdings and moves the
/// average price; a sale takes from the holdings, which must cover it, and
/// leaves the average price.
pub open spec fn take_trade(state: PairState, t: TradeView) -> Result<PairState, PositionFault> {
    match t.side {
        Side::Buy => match (average_after_buy(state, t), decimal_sum(state.holdings, t.amount)) {
            (Some(average_price), Some(holdings)) => Ok(PairState { holdings, average_price }),
            _ => Err(PositionFault::Arithmetic),
        },
        Side::Sell => if state.holdings.lt(t.amount) {
            Err(PositionFault::Oversell)
        } else {
            match decimal_difference(state.holdings, t.amount) {
                Some(holdings) => Ok(PairState { holdings, average_price: state.average_price }),
                None => Err(PositionFault::Arithmetic),
            }
        },
    }
}

/// The position of a pair after the first `n` of the trades, taken in their
/// order from an empty position. The error is the index of the first trade
/// that does not enter, and why.
pub open spec fn position_after(pair: PairView, trades: Seq<TradeView>, n: int) -> Result<
    PairState,
    (int, PositionFault),
>
    decreases n,
{
    if n <= 0 {
        Ok(PairState { holdings: Dec::whole(0), average_price: Dec::whole(0) })
    } else {
        match position_after(pair, trades, n - 1) {
            Err(e) => Err(e),
            Ok(state) => if trades[n - 1].pair != pair {
                Err((n - 1, PositionFault::PairMismatch))
            } else {
                match take_trade(state, trades[n - 1]) {
                    Ok(next) => Ok(next),
                    Err(f) => Err((n - 1, f)),
                }
            },
        }
    }
}

proof fn lemma_position_fails_on(pair: PairView, trades: Seq<TradeView>, n: int, m: int)
    requires
        n <= m,
        position_after(pair, trades, n) is Err,
    ensures
        position_after(pair, trades, m) == position_after(pair, trades, n),
    decreases m - n,
{
    if n < m {
        lemma_position_fails_on(pair, trades, n, m - 1);
    }
}

/// The position in one trading pair: the holdings of its base asset and the
/// average price they were bought at.
#[derive(Debug)]
pub struct PairPosition {
    pair: TradingPair,
    holdings: Amount,
    average_price: Amount,
}

impl PairPosition {
    pub closed spec fn pair_view(self) -> PairView {
        self.pair@
    }

    pub closed spec fn state(self) -> PairState {
        PairState { holdings: self.holdings@, average_price: self.average_price@ }
    }

    /// The empty position of a pair.
    pub fn new(pair: TradingPair) -> (r: PairPosition)
        ensures
            r.pair_view() == pair@,
            r.state() == (PairState { holdings: Dec::whole(0), average_price: Dec::whole(0) }),
    {
        PairPosition { pair, holdings: Amount::zero(), average_price: Amount::zero() }
    }

    pub fn pair(&self) -> (r: &TradingPair)
        ensures
            r@ == self.pair_view(),
    {
        &self.pair
    }

    pub fn holdings(&self) -> (r: Amount)
        ensures
            r@ == self.state().holdings,
    {
        self.holdings
    }

    pub fn average_price(&self) -> (r: Amount)
        ensures
            r@ == self.state().average_price,
    {
        self.average_price
    }

    /// Sets the position to what the trades make of an empty one, taken in
    /// their order. Without trades, and where a trade does not enter, the
    /// position stays as it is.
    pub fn from_trades(&mut self, trades: Vec<Trade>) -> (r: Result<(), PositionError>)
        ensures
            final(self).pair_view() == old(self).pair_view(),
            match r {
                Ok(()) => if trades@.len() == 0 {
                    final(self).state() == old(self).state()
                } else {
                    position_after(
                        old(self).pair_view(),
                        trade_views(trades@),
                        trades@.len() as int,
                    ) == Ok::<PairState, (int, PositionFault)>(final(self).state())
                },
                Err(e) => position_after(
                    old(self).pair_view(),
                    trade_views(trades@),
                    trades@.len() as int,
                ) == Err::<PairState, (int, PositionFault)>((e.index as int, e.fault))
                    && final(self).state() == old(self).state() && e.index < trades@.len()
                    && e.amount@ == trades@[e.index as int]@.amount && (position_after(
                    old(self).pair_view(),
                    trade_views(trades@),
                    e.index as int,
                ) matches Ok(state) && e.holdings@ == state.holdings),
            },
    {
        if trades.len() == 0 {
            return Ok(());
        }
        let ghost views = trade_views(trades@);
        let mut holding = Amount::zero();
        let mut average = Amount::zero();
        let mut i: usize = 0;
        while i < trades.len()
            invariant
                i <= trades@.len(),
                views == trade_views(trades@),
                *self == *old(self),
                position_after(self.pair_view(), views, i as int) == Ok::<
                    PairState,
                    (int, PositionFault),
                >(PairState { holdings: holding@, average_price: average@ }),
            decreases trades@.len() - i,
        {
            let trade = &trades[i];
            assert(views[i as int] == trade@);
            let amount = trade.amount();
            let price = trade.price();
            proof {
                use_type_invariant(&amount);
                use_type_invariant(&price);
                use_type_invariant(&holding);
                use_type_invariant(&average);
            }
            let outcome = if *trade.pair() != self.pair {
                Err(PositionFault::PairMismatch)
            } else {
                match trade.side() {
                    Side::Buy => {
                        let held = decimal_mul(holding, average);
                        let bought = decimal_mul(amount, price);
                        let total = decimal_add(holding, amount);
                        let paid = match (held, bought) {
                            (Some(h), Some(b)) => decimal_add(h, b),
                            _ => None,
                        };
                        match (paid, total) {
                            (Some(p), Some(t)) => match decimal_div(p, t) {
                                Some(a) => Ok((t, a)),
                                None => Err(PositionFault::Arithmetic),
                            },
                            _ => Err(PositionFault::Arithmetic),
                        }
                    },
                    Side::Sell => if decimal_lt(holding, amount) {
                        Err(PositionFault::Oversell)
                    } else {
                        match decimal_sub(holding, amount) {
                            Some(h) => Ok((h, average)),
                            None => Err(PositionFault::Arithmetic),
                        }
                    },
                }
            };
            match outcome {
                Ok((h, a)) => {
                    holding = h;
                    average = a;
                },
                Err(fault) => {
                    proof {
                        lemma_position_fails_on(
                            self.pair_view(),
                            views,
                            i as int + 1,
                            trades@.len() as int,
                        );
                    }
                    return Err(PositionError { index: i, fault, amount, holdings: holding });
                },
            }
            i = i + 1;
        }
        self.holdings = holding;
        self.average_price = average;
        Ok(())
    }
}

} // verus!
