use crate::amount::{decimal_parsed, view_of, Amount, Dec};
use crate::digits::{
    fixed_digits, int_text, is_digit, lemma_fixed_digits, lemma_int_text_chars,
    lemma_int_text_reads_back, lemma_nat_text, nat_text, parse_i64_spec,
};
use crate::fault::{Fault, Field, FieldError, TradeError};
use crate::side::{lemma_side_text_reads_back, parse_side, side_text};
pub use crate::side::Side;
use crate::text::{
    chars_of, extend_chars, lemma_split_cons, lemma_split_parts_hold_no_sep, lemma_split_single,
    parts_view, split, split_on, string_of,
};
pub use crate::trading_pair::TradingPair;
use crate::trading_pair::{
    lemma_pair_text_reads_back, lemma_parsed_pair_is_valid, pair_text, parse_pair, valid_base,
    PairView,
};
use crate::quote_currency::QuoteCurrency;
use crate::ts_seconds::{
    check_timestamp, deserialize, unix_now, MAX_TIMESTAMP, MIN_TIMESTAMP,
};
use vstd::prelude::*;
use vstd::string::{StrSliceExecFns, StringExecFns};

verus! {

/// What is accepted of the reading of a number: a decimal greater than zero.
pub open spec fn positive_of(parsed: Option<Dec>) -> Result<Dec, Fault> {
    match parsed {
        None => Err(Fault::NotANumber),
        Some(d) => if d.mantissa > 0 {
            Ok(d)
        } else {
            Err(Fault::NotPositive)
        },
    }
}

/// The positive decimal that a text writes.
pub open spec fn parse_positive(text: Seq<char>) -> Result<Dec, Fault> {
    positive_of(decimal_parsed(text))
}

/// Accepts what was read of `text` where it is a number greater than zero.
pub fn check_positive(parsed: Option<Amount>, text: &str) -> (r: Result<Amount, FieldError>)
    ensures
        match r {
            Ok(a) => positive_of(view_of(parsed)) == Ok::<Dec, Fault>(a@),
            Err(e) => positive_of(view_of(parsed)) == Err::<Dec, Fault>(e.fault) && e.text@
                == text@,
        },
{
    match parsed {
        None => Err(FieldError { fault: Fault::NotANumber, text: String::from_str(text) }),
        Some(a) => if a.is_positive() {
            Ok(a)
        } else {
            Err(FieldError { fault: Fault::NotPositive, text: String::from_str(text) })
        },
    }
}

/// Reads a decimal number that must be greater than zero.
pub fn positive_decimal(text: &str) -> (r: Result<Amount, FieldError>)
    ensures
        match r {
            Ok(a) => parse_positive(text@) == Ok::<Dec, Fault>(a@),
            Err(e) => parse_positive(text@) == Err::<Dec, Fault>(e.fault) && e.text@ == text@,
        },
{
    check_positive(Amount::parse(text), text)
}

/// The content of a trade.
pub struct TradeView {
    pub created_at: int,
    pub pair: PairView,
    pub side: Side,
    pub amount: Dec,
    pub price: Dec,
    pub fee: Dec,
}

/// What holds of every trade: a time from the minimum on that can be told as a
/// date, a valid pair quoted in US dollars whose base holds no comma, and an
/// amount, a price and a fee greater than zero.
pub open spec fn valid_trade(t: TradeView) -> bool {
    &&& MIN_TIMESTAMP <= t.created_at <= MAX_TIMESTAMP
    &&& valid_base(t.pair.base)
    &&& !t.pair.base.contains(',')
    &&& t.pair.quote == QuoteCurrency::Usd
    &&& t.amount.wf() && t.amount.mantissa > 0
    &&& t.price.wf() && t.price.mantissa > 0
    &&& t.fee.wf() && t.fee.mantissa > 0
}

/// The trade that a record writes, read at the time `now`: six fields between
/// commas, checked in their order; the first field at fault decides the error.
pub open spec fn parse_record(line: Seq<char>, now: int) -> Result<TradeView, (Field, Fault)> {
    let f = split(line, ',');
    if f.len() != 6 {
        Err((Field::Record, Fault::FieldCount))
    } else {
        match check_timestamp(f[0], now) {
            Err(x) => Err((Field::CreatedAt, x)),
            Ok(created_at) => match parse_pair(f[1]) {
                Err(x) => Err((Field::Pair, x)),
                Ok(pair) => match parse_side(f[2]) {
                    Err(x) => Err((Field::Side, x)),
                    Ok(side) => match parse_positive(f[3]) {
                        Err(x) => Err((Field::Amount, x)),
                        Ok(amount) => match parse_positive(f[4]) {
                            Err(x) => Err((Field::Price, x)),
                            Ok(price) => match parse_positive(f[5]) {
                                Err(x) => Err((Field::Fee, x)),
                                Ok(fee) => Ok(
                                    TradeView { created_at, pair, side, amount, price, fee },
                                ),
                            },
                        },
                    },
                },
            },
        }
    }
}

/// The text of a field of a record; the record itself for the record as a whole.
pub open spec fn field_text(line: Seq<char>, field: Field) -> Seq<char> {
    let f = split(line, ',');
    match field {
        Field::Record => line,
        Field::CreatedAt => f[0],
        Field::Pair => f[1],
        Field::Side => f[2],
        Field::Amount => f[3],
        Field::Price => f[4],
        Field::Fee => f[5],
    }
}

/// The record of a trade: its six fields, with commas between them.
pub open spec fn record_text(t: TradeView) -> Seq<char> {
    int_text(t.created_at) + seq![','] + pair_text(t.pair) + seq![','] + side_text(t.side)
        + seq![','] + t.amount.text() + seq![','] + t.price.text() + seq![','] + t.fee.text()
}

/// The names of the six fields, as the first line of a trade log has them.
pub open spec fn header_text() -> Seq<char> {
    "created_at,pair,side,amount,price,fee"@
}

/// A single executed trade, as one line of the trade log records it.
#[derive(Debug)]
pub struct Trade {
    created_at: i64,
    pair: TradingPair,
    side: Side,
    amount: Amount,
    price: Amount,
    fee: Amount,
}

impl View for Trade {
    type V = TradeView;

    closed spec fn view(&self) -> TradeView {
        TradeView {
            created_at: self.created_at as int,
            pair: self.pair@,
            side: self.side,
            amount: self.amount@,
            price: self.price@,
            fee: self.fee@,
        }
    }
}

impl PartialEq for Trade {
    /// Two trades are equal when they agree in every field; amounts are
    /// compared as numbers.
    fn eq(&self, other: &Trade) -> (r: bool) {
        self.created_at == other.created_at && self.pair == other.pair && self.side == other.side
            && self.amount == other.amount && self.price == other.price && self.fee == other.fee
    }
}

impl vstd::std_specs::cmp::PartialEqSpecImpl for Trade {
    open spec fn obeys_eq_spec() -> bool {
        true
    }

    open spec fn eq_spec(&self, other: &Trade) -> bool {
        &&& self@.created_at == other@.created_at
        &&& self@.pair == other@.pair
        &&& self@.side == other@.side
        &&& self@.amount.same_number(other@.amount)
        &&& self@.price.same_number(other@.price)
        &&& self@.fee.same_number(other@.fee)
    }
}

impl Trade {
    #[verifier::type_invariant]
    pub open spec fn inv(self) -> bool {
        valid_trade(self@)
    }

    /// Reads a trade from one record of the log, at the time `now`. The error
    /// names the first field at fault and carries its text.
    pub fn parse(line: &str, now: i64) -> (r: Result<Trade, TradeError>)
        ensures
            match r {
                Ok(t) => parse_record(line@, now as int) == Ok::<TradeView, (Field, Fault)>(t@)
                    && valid_trade(t@),
                Err(e) => parse_record(line@, now as int) == Err::<TradeView, (Field, Fault)>(
                    (e.field, e.fault),
                ) && e.text@ == field_text(line@, e.field),
            },
    {
        let v = chars_of(line);
        let fields = split_on(&v, ',');
        assert(fields@.len() == parts_view(fields@).len());
        if fields.len() != 6 {
            return Err(
                TradeError {
                    field: Field::Record,
                    fault: Fault::FieldCount,
                    text: String::from_str(line),
                },
            );
        }
        proof {
            lemma_split_parts_hold_no_sep(v@, ',');
            assert(fields@[0]@ == parts_view(fields@)[0]);
            assert(fields@[1]@ == parts_view(fields@)[1]);
            assert(fields@[2]@ == parts_view(fields@)[2]);
            assert(fields@[3]@ == parts_view(fields@)[3]);
            assert(fields@[4]@ == parts_view(fields@)[4]);
            assert(fields@[5]@ == parts_view(fields@)[5]);
        }
        let f0 = string_of(&fields[0]);
        let created_at = match deserialize(f0.as_str(), now) {
            Ok(ts) => ts,
            Err(e) => return Err(
                TradeError { field: Field::CreatedAt, fault: e.fault, text: e.text },
            ),
        };
        let f1 = string_of(&fields[1]);
        let pair = match TradingPair::parse(f1.as_str()) {
            Ok(p) => p,
            Err(e) => return Err(TradeError { field: Field::Pair, fault: e.fault, text: e.text }),
        };
        let f2 = string_of(&fields[2]);
        let side = match Side::parse(f2.as_str()) {
            Ok(s) => s,
            Err(e) => return Err(TradeError { field: Field::Side, fault: e.fault, text: e.text }),
        };
        let f3 = string_of(&fields[3]);
        let amount = match positive_decimal(f3.as_str()) {
            Ok(a) => a,
            Err(e) => return Err(
                TradeError { field: Field::Amount, fault: e.fault, text: e.text },
            ),
        };
        let f4 = string_of(&fields[4]);
        let price = match positive_decimal(f4.as_str()) {
            Ok(a) => a,
            Err(e) => return Err(TradeError { field: Field::Price, fault: e.fault, text: e.text }),
        };
        let f5 = string_of(&fields[5]);
        let fee = match positive_decimal(f5.as_str()) {
            Ok(a) => a,
            Err(e) => return Err(TradeError { field: Field::Fee, fault: e.fault, text: e.text }),
        };
        proof {
            lemma_parsed_record_is_valid(line@, now as int);
            use_type_invariant(&amount);
            use_type_invariant(&price);
            use_type_invariant(&fee);
        }
        Ok(Trade { created_at, pair, side, amount, price, fee })
    }

    /// Makes a trade of its parts, where they are those of a valid trade. The
    /// error names the first part at fault.
    pub fn new(
        created_at: i64,
        pair: TradingPair,
        side: Side,
        amount: Amount,
        price: Amount,
        fee: Amount,
    ) -> (r: Result<Trade, TradeError>)
        ensures
            match r {
                Ok(t) => make_trade(created_at as int, pair@, side, amount@, price@, fee@) == Ok::<
                    TradeView,
                    (Field, Fault),
                >(t@) && valid_trade(t@),
                Err(e) => make_trade(created_at as int, pair@, side, amount@, price@, fee@)
                    == Err::<TradeView, (Field, Fault)>((e.field, e.fault)) && e.text@
                    == part_text(e.field, created_at as int, pair@, amount@, price@, fee@),
            },
    {
        proof {
            use_type_invariant(&amount);
            use_type_invariant(&price);
            use_type_invariant(&fee);
        }
        if created_at < MIN_TIMESTAMP {
            return Err(
                TradeError {
                    field: Field::CreatedAt,
                    fault: Fault::BeforeMinimum,
                    text: crate::ts_seconds::serialize(created_at),
                },
            );
        }
        if created_at > MAX_TIMESTAMP {
            return Err(
                TradeError {
                    field: Field::CreatedAt,
                    fault: Fault::OutOfRange,
                    text: crate::ts_seconds::serialize(created_at),
                },
            );
        }
        if holds_comma(&chars_of(pair.base())) {
            return Err(
                TradeError { field: Field::Pair, fault: Fault::PairFormat, text: pair.to_text() },
            );
        }
        match pair.quote() {
            QuoteCurrency::Usd => {},
            QuoteCurrency::Btc => {
                return Err(
                    TradeError {
                        field: Field::Pair,
                        fault: Fault::UnsupportedQuote,
                        text: pair.to_text(),
                    },
                );
            },
        }
        if !amount.is_positive() {
            return Err(
                TradeError {
                    field: Field::Amount,
                    fault: Fault::NotPositive,
                    text: amount.to_text(),
                },
            );
        }
        if !price.is_positive() {
            return Err(
                TradeError {
                    field: Field::Price,
                    fault: Fault::NotPositive,
                    text: price.to_text(),
                },
            );
        }
        if !fee.is_positive() {
            return Err(
                TradeError { field: Field::Fee, fault: Fault::NotPositive, text: fee.to_text() },
            );
        }
        Ok(Trade { created_at, pair, side, amount, price, fee })
    }

    /// Reads a trade as `parse` does, at the time of this machine's clock.
    pub fn parse_now(line: &str) -> (r: Result<Trade, TradeError>)
        ensures
            match r {
                Ok(t) => valid_trade(t@) && exists|now: i64|
                    parse_record(line@, now as int) == Ok::<TradeView, (Field, Fault)>(t@),
                Err(e) => e.text@ == field_text(line@, e.field) && exists|now: i64|
                    parse_record(line@, now as int) == Err::<TradeView, (Field, Fault)>(
                        (e.field, e.fault),
                    ),
            },
    {
        let now = unix_now();
        Trade::parse(line, now)
    }

    pub fn created_at(&self) -> (r: i64)
        ensures
            r == self@.created_at,
            valid_trade(self@),
    {
        proof {
            use_type_invariant(self);
        }
        self.created_at
    }

    pub fn pair(&self) -> (r: &TradingPair)
        ensures
            r@ == self@.pair,
    {
        &self.pair
    }

    pub fn side(&self) -> (r: Side)
        ensures
            r == self@.side,
    {
        self.side
    }

    pub fn amount(&self) -> (r: Amount)
        ensures
            r@ == self@.amount,
            r@.is_positive(),
    {
        proof {
            use_type_invariant(self);
        }
        self.amount
    }

    pub fn price(&self) -> (r: Amount)
        ensures
            r@ == self@.price,
            r@.is_positive(),
    {
        proof {
            use_type_invariant(self);
        }
        self.price
    }

    pub fn fee(&self) -> (r: Amount)
        ensures
            r@ == self@.fee,
            r@.is_positive(),
    {
        proof {
            use_type_invariant(self);
        }
        self.fee
    }

    /// The record of the trade, as a line of the log holds it.
    pub fn to_record(&self) -> (r: String)
        ensures
            r@ == record_text(self@),
    {
        let mut out = crate::digits::i64_text(self.created_at);
        out.push(',');
        extend_chars(&mut out, &chars_of(self.pair.to_text().as_str()));
        out.push(',');
        extend_chars(&mut out, &chars_of(self.side.record_text()));
        out.push(',');
        extend_chars(&mut out, &chars_of(self.amount.to_text().as_str()));
        out.push(',');
        extend_chars(&mut out, &chars_of(self.price.to_text().as_str()));
        out.push(',');
        extend_chars(&mut out, &chars_of(self.fee.to_text().as_str()));
        assert(out@ =~= record_text(self@));
        string_of(&out)
    }
}

/// Whether `v` holds a comma.
fn holds_comma(v: &Vec<char>) -> (r: bool)
    ensures
        r == v@.contains(','),
{
    let mut i: usize = 0;
    while i < v.len()
        invariant
            i <= v.len(),
            forall|j: int| 0 <= j < i ==> v@[j] != ',',
        decreases v.len() - i,
    {
        if v[i] == ',' {
            return true;
        }
        i = i + 1;
    }
    false
}

/// The trade of the given parts, where they are those of a valid trade: a time
/// from the minimum on that can be told as a date, a pair quoted in US dollars
/// whose base holds no comma, and an amount, a price and a fee greater than zero.
pub open spec fn make_trade(
    created_at: int,
    pair: PairView,
    side: Side,
    amount: Dec,
    price: Dec,
    fee: Dec,
) -> Result<TradeView, (Field, Fault)> {
    if created_at < MIN_TIMESTAMP {
        Err((Field::CreatedAt, Fault::BeforeMinimum))
    } else if created_at > MAX_TIMESTAMP {
        Err((Field::CreatedAt, Fault::OutOfRange))
    } else if pair.base.contains(',') {
        Err((Field::Pair, Fault::PairFormat))
    } else if pair.quote != QuoteCurrency::Usd {
        Err((Field::Pair, Fault::UnsupportedQuote))
    } else if amount.mantissa <= 0 {
        Err((Field::Amount, Fault::NotPositive))
    } else if price.mantissa <= 0 {
        Err((Field::Price, Fault::NotPositive))
    } else if fee.mantissa <= 0 {
        Err((Field::Fee, Fault::NotPositive))
    } else {
        Ok(TradeView { created_at, pair, side, amount, price, fee })
    }
}

/// The text of the part of a trade that a field holds.
pub open spec fn part_text(
    field: Field,
    created_at: int,
    pair: PairView,
    amount: Dec,
    price: Dec,
    fee: Dec,
) -> Seq<char> {
    match field {
        Field::CreatedAt => int_text(created_at),
        Field::Pair => pair_text(pair),
        Field::Amount => amount.text(),
        Field::Price => price.text(),
        Field::Fee => fee.text(),
        _ => Seq::<char>::empty(),
    }
}

/// The record of a trade made now of a pair and a side given as text and of
/// an amount, a price and a fee.
pub open spec fn new_record(
    symbol: Seq<char>,
    side: Seq<char>,
    qty: Dec,
    price: Dec,
    fee: Dec,
    created_at: int,
) -> Result<Seq<char>, (Field, Fault)> {
    match parse_pair(symbol) {
        Err(x) => Err((Field::Pair, x)),
        Ok(pair) => match parse_side(side) {
            Err(x) => Err((Field::Side, x)),
            Ok(s) => match make_trade(created_at, pair, s, qty, price, fee) {
                Err(e) => Err(e),
                Ok(t) => Ok(record_text(t)),
            },
        },
    }
}

/// The record to add to a trade log for a trade made at the time
/// `created_at`: the pair and the side are read from text first, then the
/// trade is checked. The error names the first part at fault.
pub fn tx_to_csv(
    symbol: &str,
    side: &str,
    qty: Amount,
    price: Amount,
    fee: Amount,
    created_at: i64,
) -> (r: Result<String, TradeError>)
    ensures
        match r {
            Ok(line) => new_record(symbol@, side@, qty@, price@, fee@, created_at as int) == Ok::<
                Seq<char>,
                (Field, Fault),
            >(line@),
            Err(e) => new_record(symbol@, side@, qty@, price@, fee@, created_at as int) == Err::<
                Seq<char>,
                (Field, Fault),
            >((e.field, e.fault)),
        },
{
    let pair = match TradingPair::parse(symbol) {
        Ok(p) => p,
        Err(e) => return Err(TradeError { field: Field::Pair, fault: e.fault, text: e.text }),
    };
    let s = match Side::parse(side) {
        Ok(s) => s,
        Err(e) => return Err(TradeError { field: Field::Side, fault: e.fault, text: e.text }),
    };
    match Trade::new(created_at, pair, s, qty, price, fee) {
        Ok(t) => Ok(t.to_record()),
        Err(e) => Err(e),
    }
}

/// The texts of a list of lines.
pub open spec fn line_views(lines: Seq<String>) -> Seq<Seq<char>> {
    Seq::new(lines.len(), |i: int| lines[i]@)
}

/// The contents of a list of trades.
pub open spec fn trade_views(trades: Seq<Trade>) -> Seq<TradeView> {
    Seq::new(trades.len(), |i: int| trades[i]@)
}

/// The trades that the first `n` lines of a log record, read at the time `now`.
/// The first line is the header and empty lines record nothing. The error is
/// the first line at fault, counted from zero, with the field and its fault.
pub open spec fn parse_rows(lines: Seq<Seq<char>>, now: int, n: int) -> Result<
    Seq<TradeView>,
    (int, Field, Fault),
>
    decreases n,
{
    if n <= 0 {
        Ok(Seq::<TradeView>::empty())
    } else if n == 1 {
        if lines[0] == header_text() {
            Ok(Seq::<TradeView>::empty())
        } else {
            Err((0int, Field::Record, Fault::FieldCount))
        }
    } else {
        match parse_rows(lines, now, n - 1) {
            Err(e) => Err(e),
            Ok(trades) => if lines[n - 1].len() == 0 {
                Ok(trades)
            } else {
                match parse_record(lines[n - 1], now) {
                    Ok(t) => Ok(trades.push(t)),
                    Err((field, fault)) => Err((n - 1, field, fault)),
                }
            },
        }
    }
}

/// The trades that a log records: those of all its lines.
pub open spec fn parse_log(lines: Seq<Seq<char>>, now: int) -> Result<
    Seq<TradeView>,
    (int, Field, Fault),
> {
    parse_rows(lines, now, lines.len() as int)
}

/// A line of a trade log that was refused: its index, counted from zero, and
/// what is wrong with it.
#[derive(Debug)]
pub struct LogError {
    pub line: usize,
    pub error: TradeError,
}

/// The header of a trade log.
pub fn csv_header() -> (r: &'static str)
    ensures
        r@ == header_text(),
{
    "created_at,pair,side,amount,price,fee"
}

/// Reads the trades of a log from its lines, at the time `now`: the header
/// first, then one trade for each line that is not empty. Reading stops at
/// the first line at fault.
pub fn read_trades_from_csv(lines: &Vec<String>, now: i64) -> (r: Result<Vec<Trade>, LogError>)
    ensures
        match r {
            Ok(trades) => parse_log(line_views(lines@), now as int) == Ok::<
                Seq<TradeView>,
                (int, Field, Fault),
            >(trade_views(trades@)),
            Err(e) => e.line < lines@.len() && e.error.text@ == field_text(
                lines@[e.line as int]@,
                e.error.field,
            ) && parse_log(line_views(lines@), now as int) == Err::<
                Seq<TradeView>,
                (int, Field, Fault),
            >((e.line as int, e.error.field, e.error.fault)),
        },
{
    let mut trades: Vec<Trade> = Vec::new();
    if lines.len() == 0 {
        assert(trade_views(trades@) =~= Seq::<TradeView>::empty());
        return Ok(trades);
    }
    let ghost views = line_views(lines@);
    if !is_header(lines[0].as_str()) {
        proof {
            assert(views[0] == lines@[0]@);
            lemma_parse_rows_fails_on(views, now as int, 1, lines.len() as int);
        }
        return Err(
            LogError {
                line: 0,
                error: TradeError {
                    field: Field::Record,
                    fault: Fault::FieldCount,
                    text: lines[0].clone(),
                },
            },
        );
    }
    let mut i: usize = 1;
    assert(trade_views(trades@) =~= Seq::<TradeView>::empty());
    while i < lines.len()
        invariant
            1 <= i <= lines.len(),
            views == line_views(lines@),
            parse_rows(views, now as int, i as int) == Ok::<Seq<TradeView>, (int, Field, Fault)>(
                trade_views(trades@),
            ),
        decreases lines.len() - i,
    {
        let line = lines[i].as_str();
        assert(views[i as int] == line@);
        if line.unicode_len() > 0 {
            match Trade::parse(line, now) {
                Ok(t) => {
                    assert(trade_views(trades@.push(t)) =~= trade_views(trades@).push(t@));
                    trades.push(t);
                },
                Err(error) => {
                    proof {
                        lemma_parse_rows_fails_on(views, now as int, i as int + 1, lines.len() as int);
                    }
                    return Err(LogError { line: i, error });
                },
            }
        }
        i = i + 1;
    }
    Ok(trades)
}

/// Once the first `n` lines are at fault, so are the first `m` for any `m` from
/// `n` on, with the same fault.
proof fn lemma_parse_rows_fails_on(lines: Seq<Seq<char>>, now: int, n: int, m: int)
    requires
        n <= m,
        parse_rows(lines, now, n) is Err,
    ensures
        parse_rows(lines, now, m) == parse_rows(lines, now, n),
    decreases m - n,
{
    if n < m {
        lemma_parse_rows_fails_on(lines, now, n, m - 1);
    }
}

/// Whether `line` is the header of a trade log.
pub fn is_header(line: &str) -> (r: bool)
    ensures
        r == (line@ == header_text()),
{
    crate::text::reads(&chars_of(line), "created_at,pair,side,amount,price,fee")
}

/// A record that is read as a trade is read as a valid one.
pub proof fn lemma_parsed_record_is_valid(line: Seq<char>, now: int)
    ensures
        parse_record(line, now) matches Ok(t) ==> {
            &&& MIN_TIMESTAMP <= t.created_at <= MAX_TIMESTAMP
            &&& t.created_at < now
            &&& valid_base(t.pair.base)
            &&& !t.pair.base.contains(',')
            &&& t.pair.quote == QuoteCurrency::Usd
            &&& t.amount.mantissa > 0
            &&& t.price.mantissa > 0
            &&& t.fee.mantissa > 0
        },
{
    if parse_record(line, now) is Ok {
        let f = split(line, ',');
        lemma_split_parts_hold_no_sep(line, ',');
        lemma_parsed_pair_is_valid(f[1]);
        let parts = split(f[1], '/');
        assert(!f[1].contains(','));
        crate::text::lemma_first_index(f[1], '/');
        let i = crate::text::first_index(f[1], '/');
        assert(parts[0] == f[1].take(i));
        assert(!parts[0].contains(',')) by {
            if parts[0].contains(',') {
                let j = choose|j: int| 0 <= j < parts[0].len() && parts[0][j] == ',';
                assert(f[1][j] == ',');
            }
        }
        crate::trading_pair::lemma_to_upper_keeps(parts[0], ',');
    }
}

/// The plain notation of a decimal holds no comma.
proof fn lemma_decimal_text_holds_no_comma(d: Dec)
    ensures
        !d.text().contains(','),
{
    let unit = crate::amount::pow10(d.scale) as nat;
    let whole = nat_text(d.magnitude() / unit);
    let frac = fixed_digits(d.magnitude() % unit, d.scale);
    lemma_nat_text(d.magnitude() / unit);
    lemma_fixed_digits(d.magnitude() % unit, d.scale);
    let t = d.text();
    assert forall|i: int| 0 <= i < t.len() implies t[i] != ',' by {
        let sign: int = if d.mantissa < 0 {
            1
        } else {
            0
        };
        if i < sign {
        } else if i < sign + whole.len() {
            assert(t[i] == whole[i - sign]);
            assert(is_digit(whole[i - sign]));
        } else if i == sign + whole.len() {
        } else {
            assert(t[i] == frac[i - sign - whole.len() - 1]);
            assert(is_digit(frac[i - sign - whole.len() - 1]));
        }
    }
    if t.contains(',') {
        let i = choose|i: int| 0 <= i < t.len() && t[i] == ',';
        assert(t[i] != ',');
    }
}

/// The notation of an integer holds no comma.
proof fn lemma_int_text_holds_no_comma(n: int)
    ensures
        !int_text(n).contains(','),
{
    let f0 = int_text(n);
    lemma_int_text_chars(n);
    if f0.contains(',') {
        let i = choose|i: int| 0 <= i < f0.len() && f0[i] == ',';
        assert(is_digit(f0[i]) || f0[i] == '-');
    }
}

/// The text of a pair holds no comma where its base holds none.
proof fn lemma_pair_text_holds_no_comma(p: PairView)
    requires
        !p.base.contains(','),
    ensures
        !pair_text(p).contains(','),
{
    reveal_strlit("USD");
    reveal_strlit("BTC");
    let f1 = pair_text(p);
    let ticker = p.quote.ticker_spec();
    if f1.contains(',') {
        let i = choose|i: int| 0 <= i < f1.len() && f1[i] == ',';
        if i < p.base.len() {
            assert(p.base[i] == ',');
            assert(p.base.contains(','));
        } else if i > p.base.len() {
            assert(f1[i] == ticker[i - p.base.len() - 1]);
        }
    }
}

/// The parts of six texts without commas that are joined by commas are the six.
proof fn lemma_split_six(
    f0: Seq<char>,
    f1: Seq<char>,
    f2: Seq<char>,
    f3: Seq<char>,
    f4: Seq<char>,
    f5: Seq<char>,
)
    requires
        !f0.contains(','),
        !f1.contains(','),
        !f2.contains(','),
        !f3.contains(','),
        !f4.contains(','),
        !f5.contains(','),
    ensures
        split(
            f0 + seq![','] + f1 + seq![','] + f2 + seq![','] + f3 + seq![','] + f4 + seq![',']
                + f5,
            ',',
        ) == seq![f0, f1, f2, f3, f4, f5],
{
    let c = seq![','];
    let r4 = f4 + c + f5;
    let r3 = f3 + c + r4;
    let r2 = f2 + c + r3;
    let r1 = f1 + c + r2;
    let r0 = f0 + c + r1;
    assert(split(f5, ',') == seq![f5]) by {
        lemma_split_single(f5, ',');
    }
    assert(split(r4, ',') == seq![f4, f5]) by {
        lemma_split_cons(f4, ',', f5);
        assert(seq![f4] + seq![f5] =~= seq![f4, f5]);
    }
    assert(split(r3, ',') == seq![f3, f4, f5]) by {
        lemma_split_cons(f3, ',', r4);
        assert(seq![f3] + seq![f4, f5] =~= seq![f3, f4, f5]);
    }
    assert(split(r2, ',') == seq![f2, f3, f4, f5]) by {
        lemma_split_cons(f2, ',', r3);
        assert(seq![f2] + seq![f3, f4, f5] =~= seq![f2, f3, f4, f5]);
    }
    assert(split(r1, ',') == seq![f1, f2, f3, f4, f5]) by {
        lemma_split_cons(f1, ',', r2);
        assert(seq![f1] + seq![f2, f3, f4, f5] =~= seq![f1, f2, f3, f4, f5]);
    }
    assert(split(r0, ',') == seq![f0, f1, f2, f3, f4, f5]) by {
        lemma_split_cons(f0, ',', r1);
        assert(seq![f0] + seq![f1, f2, f3, f4, f5] =~= seq![f0, f1, f2, f3, f4, f5]);
    }
    assert(f0 + c + f1 + c + f2 + c + f3 + c + f4 + c + f5 == r0) by {
        assert(f0 + c + f1 + c + f2 + c + f3 + c + f4 + c + f5 =~= r0);
    }
}

/// The fields of the record of a valid trade are its six texts.
proof fn lemma_record_fields(t: TradeView)
    requires
        valid_trade(t),
    ensures
        split(record_text(t), ',') == seq![
            int_text(t.created_at),
            pair_text(t.pair),
            side_text(t.side),
            t.amount.text(),
            t.price.text(),
            t.fee.text(),
        ],
{
    lemma_int_text_holds_no_comma(t.created_at);
    lemma_pair_text_holds_no_comma(t.pair);
    lemma_side_text_reads_back(t.side);
    lemma_decimal_text_holds_no_comma(t.amount);
    lemma_decimal_text_holds_no_comma(t.price);
    lemma_decimal_text_holds_no_comma(t.fee);
    lemma_split_six(
        int_text(t.created_at),
        pair_text(t.pair),
        side_text(t.side),
        t.amount.text(),
        t.price.text(),
        t.fee.text(),
    );
}

/// A record that was written from a valid trade is read back as that trade, at
/// any time after the trade's own, as far as the decimal parser reads the plain
/// notation of the amount, the price and the fee back.
pub proof fn lemma_record_reads_back(t: TradeView, now: int)
    requires
        valid_trade(t),
        t.created_at < now,
    ensures
        t.amount.reads_back() && t.price.reads_back() && t.fee.reads_back() ==> parse_record(
            record_text(t),
            now,
        ) == Ok::<TradeView, (Field, Fault)>(t),
{
    lemma_record_fields(t);
    let f = split(record_text(t), ',');
    assert(f.len() == 6);
    assert(f[0] == int_text(t.created_at));
    assert(f[1] == pair_text(t.pair));
    assert(f[2] == side_text(t.side));
    assert(f[3] == t.amount.text());
    assert(f[4] == t.price.text());
    assert(f[5] == t.fee.text());
    assert(check_timestamp(f[0], now) == Ok::<int, Fault>(t.created_at)) by {
        lemma_int_text_reads_back(t.created_at);
        assert(parse_i64_spec(f[0]) == Some(t.created_at as i64));
    }
    assert(parse_pair(f[1]) == Ok::<PairView, Fault>(t.pair)) by {
        lemma_pair_text_reads_back(t.pair);
    }
    assert(parse_side(f[2]) == Ok::<Side, Fault>(t.side)) by {
        lemma_side_text_reads_back(t.side);
    }
}

} // verus!
