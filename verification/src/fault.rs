use vstd::prelude::*;
use vstd::string::StringExecFns;

verus! {

/// What can be wrong with a field of a trade record.
#[derive(Debug, Clone, Copy, PartialEq, Eq, Structural)]
pub enum Fault {
    /// The record does not have exactly six fields.
    FieldCount,
    /// The timestamp is not an integer of 64 bits.
    NotAnInteger,
    /// The timestamp is before the earliest date allowed.
    BeforeMinimum,
    /// The timestamp is the current time or later.
    InFuture,
    /// The timestamp is later than any date that can be told.
    OutOfRange,
    /// The trading pair is not two parts around one `/`.
    PairFormat,
    /// The base of the trading pair is empty.
    EmptyBase,
    /// The quote of the trading pair is not an accepted quote currency.
    UnsupportedQuote,
    /// The side is neither `BUY` nor `SELL`.
    UnknownSide,
    /// The text is not a decimal number.
    NotANumber,
    /// The number is zero or negative.
    NotPositive,
}

/// The fields of a trade record, and the record as a whole.
#[derive(Debug, Clone, Copy, PartialEq, Eq, Structural)]
pub enum Field {
    Record,
    CreatedAt,
    Pair,
    Side,
    Amount,
    Price,
    Fee,
}

/// The text that tells a fault, given the text that was at fault.
pub open spec fn fault_message(fault: Fault, text: Seq<char>) -> Seq<char> {
    match fault {
        Fault::FieldCount => "expected 6 fields (created_at,pair,side,amount,price,fee), got '"@
            + text + "'"@,
        Fault::NotAnInteger => "invalid integer '"@ + text + "'"@,
        Fault::BeforeMinimum => "timestamp "@ + text
            + " is before minimum allowed date (2009-01-03)"@,
        Fault::InFuture => "timestamp is in the future: "@ + text,
        Fault::OutOfRange => "timestamp is out of range: "@ + text,
        Fault::PairFormat => "expected format 'BASE/QUOTE', got '"@ + text + "'"@,
        Fault::EmptyBase => "base can't be empty"@,
        Fault::UnsupportedQuote => "accepting only USD for quote currency"@,
        Fault::UnknownSide => "unknown variant `"@ + text + "`, expected `BUY` or `SELL`"@,
        Fault::NotANumber => "invalid decimal number '"@ + text + "'"@,
        Fault::NotPositive => "value must be positive number"@,
    }
}

/// The name of a field as the record's header has it.
pub open spec fn field_name(field: Field) -> Seq<char> {
    match field {
        Field::Record => "record"@,
        Field::CreatedAt => "created_at"@,
        Field::Pair => "pair"@,
        Field::Side => "side"@,
        Field::Amount => "amount"@,
        Field::Price => "price"@,
        Field::Fee => "fee"@,
    }
}

/// A value that was refused, with what is wrong with it.
#[derive(Debug)]
pub struct FieldError {
    pub fault: Fault,
    pub text: String,
}

/// A trade record that was refused: the field at fault, what is wrong with
/// it, and its text (the whole record where the fault is in no single field).
#[derive(Debug)]
pub struct TradeError {
    pub field: Field,
    pub fault: Fault,
    pub text: String,
}

/// The text that tells `fault` of `text`.
pub fn message_of(fault: Fault, text: &str) -> (r: String)
    ensures
        r@ == fault_message(fault, text@),
{
    match fault {
        Fault::FieldCount => {
            let mut r = String::from_str(
                "expected 6 fields (created_at,pair,side,amount,price,fee), got '",
            );
            r.append(text);
            r.append("'");
            r
        },
        Fault::NotAnInteger => {
            let mut r = String::from_str("invalid integer '");
            r.append(text);
            r.append("'");
            r
        },
        Fault::BeforeMinimum => {
            let mut r = String::from_str("timestamp ");
            r.append(text);
            r.append(" is before minimum allowed date (2009-01-03)");
            r
        },
        Fault::InFuture => {
            let mut r = String::from_str("timestamp is in the future: ");
            r.append(text);
            r
        },
        Fault::OutOfRange => {
            let mut r = String::from_str("timestamp is out of range: ");
            r.append(text);
            r
        },
        Fault::PairFormat => {
            let mut r = String::from_str("expected format 'BASE/QUOTE', got '");
            r.append(text);
            r.append("'");
            r
        },
        Fault::EmptyBase => String::from_str("base can't be empty"),
        Fault::UnsupportedQuote => String::from_str("accepting only USD for quote currency"),
        Fault::UnknownSide => {
            let mut r = String::from_str("unknown variant `");
            r.append(text);
            r.append("`, expected `BUY` or `SELL`");
            r
        },
        Fault::NotANumber => {
            let mut r = String::from_str("invalid decimal number '");
            r.append(text);
            r.append("'");
            r
        },
        Fault::NotPositive => String::from_str("value must be positive number"),
    }
}

/// The name of `field`.
pub fn name_of(field: Field) -> (r: &'static str)
    ensures
        r@ == field_name(field),
{
    match field {
        Field::Record => "record",
        Field::CreatedAt => "created_at",
        Field::Pair => "pair",
        Field::Side => "side",
        Field::Amount => "amount",
        Field::Price => "price",
        Field::Fee => "fee",
    }
}

impl FieldError {
    /// The text of the error.
    pub fn message(&self) -> (r: String)
        ensures
            r@ == fault_message(self.fault, self.text@),
    {
        message_of(self.fault, self.text.as_str())
    }
}

impl TradeError {
    pub open spec fn message_spec(self) -> Seq<char> {
        field_name(self.field) + ": "@ + fault_message(self.fault, self.text@)
    }

    /// The text of the error: the field's name, then what is wrong with it.
    pub fn message(&self) -> (r: String)
        ensures
            r@ == self.message_spec(),
    {
        let mut r = String::from_str(name_of(self.field));
        r.append(": ");
        let m = message_of(self.fault, self.text.as_str());
        r.append(m.as_str());
        r
    }
}

} // verus!
