use crate::amount::{
    decimal_add, decimal_mul, decimal_parsed, decimal_product, decimal_sub, decimal_sum,
    decimal_difference, Amount, Dec,
};
use crate::currency::{classify, normalize, Currency};
use crate::side::Side;
use crate::text::{chars_of, parts_view, string_of, to_upper, uppercased, words, words_of};
use crate::trade::{Trade, TradeView};
use vstd::prelude::*;
use vstd::string::StringExecFns;

verus! {

/// What can keep an exchange from being made.
#[derive(Debug, Clone, Copy, PartialEq, Eq, Structural)]
pub enum TxFault {
    /// The registry does not hold the ticker.
    UnsupportedTicker,
    /// A decimal operation has no result: it overflows.
    Arithmetic,
    /// The text holds no number.
    MissingBuyAmount,
    /// The text holds one number only.
    MissingSellAmount,
    /// The text is too short to hold a ticker where one is looked for.
    MissingTicker,
}

/// An exchange that was not made: what kept it, and the ticker or text at fault.
#[derive(Debug)]
pub struct TxError {
    pub fault: TxFault,
    pub text: String,
}

impl TxError {
    pub open spec fn message_spec(self) -> Seq<char> {
        match self.fault {
            TxFault::UnsupportedTicker => "Unsupported ticker '"@ + self.text@
                + "'. Valid examples: BTC, ETH, USD, USDC"@,
            TxFault::Arithmetic => "decimal overflow"@,
            TxFault::MissingBuyAmount => "missing buy amount"@,
            TxFault::MissingSellAmount => "missing sell amount"@,
            TxFault::MissingTicker => "missing ticker"@,
        }
    }

    pub fn message(&self) -> (r: String)
        ensures
            r@ == self.message_spec(),
    {
        match self.fault {
            TxFault::UnsupportedTicker => {
                let mut r = String::from_str("Unsupported ticker '");
                r.append(self.text.as_str());
                r.append("'. Valid examples: BTC, ETH, USD, USDC");
                r
            },
            TxFault::Arithmetic => String::from_str("decimal overflow"),
            TxFault::MissingBuyAmount => String::from_str("missing buy amount"),
            TxFault::MissingSellAmount => String::from_str("missing sell amount"),
            TxFault::MissingTicker => String::from_str("missing ticker"),
        }
    }
}

/// An exchange: `sell_size` of the currency `sell` is given, `buy_size` of the
/// currency `buy` is received.
#[derive(Debug)]
pub struct Tx {
    pub buy: Currency,
    pub buy_size: Amount,
    pub sell: Currency,
    pub sell_size: Amount,
}

/// The content of an exchange.
pub struct TxView {
    pub buy: Seq<char>,
    pub buy_size: Dec,
    pub sell: Seq<char>,
    pub sell_size: Dec,
}

impl View for Tx {
    type V = TxView;

    open spec fn view(&self) -> TxView {
        TxView {
            buy: self.buy@,
            buy_size: self.buy_size@,
            sell: self.sell@,
            sell_size: self.sell_size@,
        }
    }
}

impl PartialEq for Tx {
    /// Two exchanges are equal when they agree in both currencies and in both
    /// sizes, compared as numbers.
    fn eq(&self, other: &Tx) -> (r: bool) {
        self.buy == other.buy && self.buy_size == other.buy_size && self.sell == other.sell
            && self.sell_size == other.sell_size
    }
}

impl vstd::std_specs::cmp::PartialEqSpecImpl for Tx {
    open spec fn obeys_eq_spec() -> bool {
        true
    }

    open spec fn eq_spec(&self, other: &Tx) -> bool {
        &&& self@.buy == other@.buy
        &&& self@.buy_size.same_number(other@.buy_size)
        &&& self@.sell == other@.sell
        &&& self@.sell_size.same_number(other@.sell_size)
    }
}

impl Clone for Tx {
    fn clone(&self) -> (r: Tx)
        ensures
            r@ == self@,
    {
        Tx {
            buy: self.buy.clone(),
            buy_size: self.buy_size,
            sell: self.sell.clone(),
            sell_size: self.sell_size,
        }
    }
}

/// What a buy costs in the quote currency: amount times price, plus the fee.
pub open spec fn cost_of(t: TradeView) -> Option<Dec> {
    match decimal_product(t.amount, t.price) {
        Some(p) => decimal_sum(p, t.fee),
        None => None,
    }
}

/// What a sale brings in the quote currency: amount times price, less the fee.
pub open spec fn proceeds_of(t: TradeView) -> Option<Dec> {
    match decimal_product(t.amount, t.price) {
        Some(p) => decimal_difference(p, t.fee),
        None => None,
    }
}

/// The exchange that a trade stands for. A buy gives its cost in the quote
/// currency for the amount of the base asset; a sale gives the amount of the
/// base asset for its proceeds in the quote currency.
pub open spec fn exchange_of(t: TradeView) -> Result<TxView, TxFault> {
    let base = normalize(t.pair.base);
    let quote = t.pair.quote.ticker_spec();
    match t.side {
        Side::Buy => if classify(base) is None {
            Err(TxFault::UnsupportedTicker)
        } else {
            match cost_of(t) {
                None => Err(TxFault::Arithmetic),
                Some(c) => Ok(TxView { buy: base, buy_size: t.amount, sell: quote, sell_size: c }),
            }
        },
        Side::Sell => match proceeds_of(t) {
            None => Err(TxFault::Arithmetic),
            Some(p) => if classify(base) is None {
                Err(TxFault::UnsupportedTicker)
            } else {
                Ok(TxView { buy: quote, buy_size: p, sell: base, sell_size: t.amount })
            },
        },
    }
}

/// The fee of a sale is no more than the sale brings.
pub open spec fn fee_is_covered(t: TradeView) -> bool {
    t.side == Side::Sell ==> (decimal_product(t.amount, t.price) matches Some(gross) && t.fee.le(
        gross,
    ))
}

/// The index of the first text from `from` on that the decimal parser reads,
/// or the length of `tokens` where it reads none of them.
pub open spec fn first_number(tokens: Seq<Seq<char>>, from: int) -> int
    decreases tokens.len() - from,
{
    if from < 0 || from >= tokens.len() {
        tokens.len() as int
    } else if decimal_parsed(tokens[from]) is Some {
        from
    } else {
        first_number(tokens, from + 1)
    }
}

/// The exchange that a text such as `0.01 btc for 100.0 usd` writes: the first
/// two of its words that are numbers are what is bought and what is sold, its
/// second word is the currency bought and its fifth the currency sold.
pub open spec fn parse_tx(s: Seq<char>) -> Result<TxView, TxFault> {
    let tokens = words(s);
    let i = first_number(tokens, 0);
    let j = first_number(tokens, i + 1);
    if i >= tokens.len() {
        Err(TxFault::MissingBuyAmount)
    } else if j >= tokens.len() {
        Err(TxFault::MissingSellAmount)
    } else if tokens.len() < 2 {
        Err(TxFault::MissingTicker)
    } else if classify(normalize(to_upper(tokens[1]))) is None {
        Err(TxFault::UnsupportedTicker)
    } else if tokens.len() < 5 {
        Err(TxFault::MissingTicker)
    } else if classify(normalize(to_upper(tokens[4]))) is None {
        Err(TxFault::UnsupportedTicker)
    } else {
        Ok(
            TxView {
                buy: normalize(to_upper(tokens[1])),
                buy_size: decimal_parsed(tokens[i])->0,
                sell: normalize(to_upper(tokens[4])),
                sell_size: decimal_parsed(tokens[j])->0,
            },
        )
    }
}

/// The first number among `tokens` from `from` on, with its index.
fn find_number(tokens: &Vec<Vec<char>>, from: usize) -> (r: Option<(usize, Amount)>)
    requires
        from <= tokens.len(),
    ensures
        match r {
            Some((i, a)) => i < tokens.len() && first_number(parts_view(tokens@), from as int) == i
                && decimal_parsed(parts_view(tokens@)[i as int]) == Some(a@),
            None => first_number(parts_view(tokens@), from as int) == tokens.len(),
        },
{
    let mut i: usize = from;
    while i < tokens.len()
        invariant
            from <= i <= tokens.len(),
            first_number(parts_view(tokens@), from as int) == first_number(
                parts_view(tokens@),
                i as int,
            ),
        decreases tokens.len() - i,
    {
        let text = string_of(&tokens[i]);
        assert(parts_view(tokens@)[i as int] == tokens@[i as int]@);
        match Amount::parse(text.as_str()) {
            Some(a) => {
                return Some((i, a));
            },
            None => {},
        }
        i = i + 1;
    }
    None
}

impl Tx {
    /// Reads an exchange from a text such as `0.01 btc for 100.0 usd` (a
    /// buy of bitcoin) or `10000 usd for 1 btc` (a sale of it).
    pub fn parse(s: &str) -> (r: Result<Tx, TxError>)
        ensures
            match r {
                Ok(tx) => parse_tx(s@) == Ok::<TxView, TxFault>(tx@),
                Err(e) => parse_tx(s@) == Err::<TxView, TxFault>(e.fault) && (e.fault
                    != TxFault::UnsupportedTicker ==> e.text@ == s@),
            },
    {
        let tokens = words_of(&chars_of(s));
        assert(tokens@.len() == parts_view(tokens@).len());
        let (i, buy_size) = match find_number(&tokens, 0) {
            Some(found) => found,
            None => return Err(
                TxError { fault: TxFault::MissingBuyAmount, text: String::from_str(s) },
            ),
        };
        let (j, sell_size) = match find_number(&tokens, i + 1) {
            Some(found) => found,
            None => return Err(
                TxError { fault: TxFault::MissingSellAmount, text: String::from_str(s) },
            ),
        };
        if tokens.len() < 2 {
            return Err(TxError { fault: TxFault::MissingTicker, text: String::from_str(s) });
        }
        assert(parts_view(tokens@)[1] == tokens@[1]@);
        let buy = match Currency::new(string_of(&uppercased(&tokens[1])).as_str()) {
            Ok(c) => c,
            Err(e) => return Err(TxError { fault: TxFault::UnsupportedTicker, text: e.ticker }),
        };
        if tokens.len() < 5 {
            return Err(TxError { fault: TxFault::MissingTicker, text: String::from_str(s) });
        }
        assert(parts_view(tokens@)[4] == tokens@[4]@);
        let sell = match Currency::new(string_of(&uppercased(&tokens[4])).as_str()) {
            Ok(c) => c,
            Err(e) => return Err(TxError { fault: TxFault::UnsupportedTicker, text: e.ticker }),
        };
        Ok(Tx { buy, buy_size, sell, sell_size })
    }
}

impl Trade {
    /// The exchange that the trade stands for. What it sells is never
    /// negative, and neither is what it buys, unless the trade is a sale whose
    /// fee is more than it brings.
    pub fn to_tx(&self) -> (r: Result<Tx, TxError>)
        ensures
            match r {
                Ok(tx) => exchange_of(self@) == Ok::<TxView, TxFault>(tx@),
                Err(e) => exchange_of(self@) == Err::<TxView, TxFault>(e.fault),
            },
            r matches Ok(tx) ==> tx@.sell_size.mantissa >= 0 && (fee_is_covered(self@)
                ==> tx@.buy_size.mantissa >= 0),
            r matches Err(e) ==> e.text@ == (match e.fault {
                TxFault::UnsupportedTicker => normalize(self@.pair.base),
                _ => Seq::<char>::empty(),
            }),
    {
        let amount = self.amount();
        let price = self.price();
        let fee = self.fee();
        proof {
            use_type_invariant(&amount);
            use_type_invariant(&price);
            use_type_invariant(&fee);
        }
        let quote = Currency::of_quote(self.pair().quote());
        match self.side() {
            Side::Buy => {
                let base = match Currency::new(self.pair().base()) {
                    Ok(c) => c,
                    Err(e) => return Err(
                        TxError { fault: TxFault::UnsupportedTicker, text: e.ticker },
                    ),
                };
                let gross = match decimal_mul(amount, price) {
                    Some(p) => p,
                    None => return Err(
                        TxError { fault: TxFault::Arithmetic, text: String::new() },
                    ),
                };
                let cost = match decimal_add(gross, fee) {
                    Some(c) => c,
                    None => return Err(
                        TxError { fault: TxFault::Arithmetic, text: String::new() },
                    ),
                };
                Ok(Tx { buy: base, buy_size: amount, sell: quote, sell_size: cost })
            },
            Side::Sell => {
                let gross = match decimal_mul(amount, price) {
                    Some(p) => p,
                    None => return Err(
                        TxError { fault: TxFault::Arithmetic, text: String::new() },
                    ),
                };
                let proceeds = match decimal_sub(gross, fee) {
                    Some(c) => c,
                    None => return Err(
                        TxError { fault: TxFault::Arithmetic, text: String::new() },
                    ),
                };
                let base = match Currency::new(self.pair().base()) {
                    Ok(c) => c,
                    Err(e) => return Err(
                        TxError { fault: TxFault::UnsupportedTicker, text: e.ticker },
                    ),
                };
                Ok(Tx { buy: quote, buy_size: proceeds, sell: base, sell_size: amount })
            },
        }
    }
}

} // verus!
