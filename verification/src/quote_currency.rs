use crate::text::{chars_of, reads, to_upper, uppercased};
use vstd::prelude::*;
use vstd::string::StringExecFns;

verus! {

/// The currencies in which a trading pair's price can be told.
#[derive(Debug, Clone, Copy, PartialEq, Eq, Hash, Structural)]
pub enum QuoteCurrency {
    Usd,
    Btc,
}

/// A text that names no quote currency.
#[derive(Debug)]
pub struct QuoteCurrencyError {
    pub text: String,
}

impl QuoteCurrencyError {
    pub open spec fn message_spec(self) -> Seq<char> {
        "Invalid currency: "@ + self.text@
    }

    pub fn message(&self) -> (r: String)
        ensures
            r@ == self.message_spec(),
    {
        let mut r = String::from_str("Invalid currency: ");
        r.append(self.text.as_str());
        r
    }
}

impl QuoteCurrency {
    /// The ticker of the quote currency.
    pub open spec fn ticker_spec(self) -> Seq<char> {
        match self {
            QuoteCurrency::Usd => "USD"@,
            QuoteCurrency::Btc => "BTC"@,
        }
    }

    /// The quote currency that a text names, in whatever case it is written.
    pub open spec fn named_by(s: Seq<char>) -> Option<QuoteCurrency> {
        if to_upper(s) == "USD"@ {
            Some(QuoteCurrency::Usd)
        } else if to_upper(s) == "BTC"@ {
            Some(QuoteCurrency::Btc)
        } else {
            None
        }
    }

    pub fn ticker(&self) -> (r: &'static str)
        ensures
            r@ == self.ticker_spec(),
    {
        match self {
            QuoteCurrency::Usd => "USD",
            QuoteCurrency::Btc => "BTC",
        }
    }

    /// Reads a quote currency from its ticker, in any case.
    pub fn from_str(s: &str) -> (r: Result<QuoteCurrency, QuoteCurrencyError>)
        ensures
            match r {
                Ok(q) => QuoteCurrency::named_by(s@) == Some(q),
                Err(e) => QuoteCurrency::named_by(s@) is None && e.text@ == s@,
            },
    {
        let u = uppercased(&chars_of(s));
        if reads(&u, "USD") {
            Ok(QuoteCurrency::Usd)
        } else if reads(&u, "BTC") {
            Ok(QuoteCurrency::Btc)
        } else {
            Err(QuoteCurrencyError { text: String::from_str(s) })
        }
    }
}

} // verus!
