use crate::fault::{Fault, FieldError};
use crate::text::{chars_of, reads, to_upper, trim, trimmed, uppercased};
use vstd::prelude::*;
use vstd::string::StringExecFns;

verus! {

/// The side of a trade: the base asset is bought or sold.
#[derive(Debug, Clone, Copy, PartialEq, Eq, Structural)]
pub enum Side {
    Buy,
    Sell,
}

/// The side that a text names: `BUY` or `SELL`, in any case, with white space
/// around it or without.
pub open spec fn parse_side(s: Seq<char>) -> Result<Side, Fault> {
    let t = to_upper(trim(s));
    if t == "BUY"@ {
        Ok(Side::Buy)
    } else if t == "SELL"@ {
        Ok(Side::Sell)
    } else {
        Err(Fault::UnknownSide)
    }
}

/// The text of a side in a record.
pub open spec fn side_text(side: Side) -> Seq<char> {
    match side {
        Side::Buy => "BUY"@,
        Side::Sell => "SELL"@,
    }
}

/// Reading the text of a side gives the side back.
pub proof fn lemma_side_text_reads_back(side: Side)
    ensures
        parse_side(side_text(side)) == Ok::<Side, Fault>(side),
        !side_text(side).contains(','),
{
    reveal_strlit("BUY");
    reveal_strlit("SELL");
    let t = side_text(side);
    assert(trim(t) == t);
    assert(to_upper(t) =~= t);
    assert("BUY"@ != "SELL"@) by {
        assert("BUY"@.len() != "SELL"@.len());
    }
    if t.contains(',') {
        let i = choose|i: int| 0 <= i < t.len() && t[i] == ',';
        assert(t[i] != ',');
    }
}

impl Side {
    /// Reads a side; the error carries the text that names none.
    pub fn parse(s: &str) -> (r: Result<Side, FieldError>)
        ensures
            match r {
                Ok(side) => parse_side(s@) == Ok::<Side, Fault>(side),
                Err(e) => parse_side(s@) == Err::<Side, Fault>(e.fault) && e.text@ == s@,
            },
    {
        let t = uppercased(&trimmed(&chars_of(s)));
        if reads(&t, "BUY") {
            Ok(Side::Buy)
        } else if reads(&t, "SELL") {
            Ok(Side::Sell)
        } else {
            Err(FieldError { fault: Fault::UnknownSide, text: String::from_str(s) })
        }
    }

    /// The side as a record writes it: `BUY` or `SELL`.
    pub fn record_text(&self) -> (r: &'static str)
        ensures
            r@ == side_text(*self),
    {
        match self {
            Side::Buy => "BUY",
            Side::Sell => "SELL",
        }
    }

    /// The side as a table shows it: `Buy` or `Sell`.
    pub fn label(&self) -> (r: &'static str)
        ensures
            r@ == (match *self {
                Side::Buy => "Buy"@,
                Side::Sell => "Sell"@,
            }),
    {
        match self {
            Side::Buy => "Buy",
            Side::Sell => "Sell",
        }
    }
}

} // verus!
