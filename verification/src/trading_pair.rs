use crate::fault::{Fault, FieldError};
use crate::quote_currency::QuoteCurrency;
use crate::text::{
    chars_of, extend_chars, lemma_split_cons, lemma_split_parts_hold_no_sep, lemma_split_single,
    lemma_upper_idempotent, parts_view, reads, split, split_on, string_of, to_upper, trim,
    trimmed, upper, uppercased,
};
use vstd::prelude::*;
use vstd::string::StringExecFns;

verus! {

/// The content of a trading pair: the base asset's ticker and the quote currency.
pub struct PairView {
    pub base: Seq<char>,
    pub quote: QuoteCurrency,
}

/// A base ticker as a trading pair holds it: in upper case, without `/`, and
/// more than white space.
pub open spec fn valid_base(base: Seq<char>) -> bool {
    &&& trim(base).len() > 0
    &&& to_upper(base) == base
    &&& !base.contains('/')
}

/// The trading pair that `BASE/QUOTE` writes, in any case: exactly two parts
/// around one `/`, a base that is more than white space, and `USD` as the quote.
pub open spec fn parse_pair(s: Seq<char>) -> Result<PairView, Fault> {
    let parts = split(s, '/');
    if parts.len() != 2 {
        Err(Fault::PairFormat)
    } else if trim(to_upper(parts[0])).len() == 0 {
        Err(Fault::EmptyBase)
    } else if to_upper(parts[1]) != "USD"@ {
        Err(Fault::UnsupportedQuote)
    } else {
        Ok(PairView { base: to_upper(parts[0]), quote: QuoteCurrency::Usd })
    }
}

/// The text of a trading pair: `BASE/QUOTE`.
pub open spec fn pair_text(p: PairView) -> Seq<char> {
    p.base + seq!['/'] + p.quote.ticker_spec()
}

proof fn lemma_to_upper_idempotent(s: Seq<char>)
    ensures
        to_upper(to_upper(s)) == to_upper(s),
{
    assert forall|i: int| 0 <= i < s.len() implies to_upper(to_upper(s))[i] == to_upper(s)[i] by {
        lemma_upper_idempotent(s[i]);
    }
    assert(to_upper(to_upper(s)) =~= to_upper(s));
}

/// Upper-casing neither makes nor removes a character that is no letter.
pub(crate) proof fn lemma_to_upper_keeps(s: Seq<char>, c: char)
    requires
        !('a' <= c <= 'z'),
        !('A' <= c <= 'Z'),
    ensures
        to_upper(s).contains(c) == s.contains(c),
{
    if s.contains(c) {
        let i = choose|i: int| 0 <= i < s.len() && s[i] == c;
        assert(to_upper(s)[i] == c);
    }
    if to_upper(s).contains(c) {
        let i = choose|i: int| 0 <= i < to_upper(s).len() && to_upper(s)[i] == c;
        assert(upper(s[i]) == c);
        assert(s[i] == c);
    }
}

/// What a pair accepts as its text, it holds as a valid base quoted in US dollars.
pub proof fn lemma_parsed_pair_is_valid(s: Seq<char>)
    ensures
        parse_pair(s) matches Ok(p) ==> valid_base(p.base) && p.quote == QuoteCurrency::Usd,
{
    if parse_pair(s) is Ok {
        let parts = split(s, '/');
        lemma_split_parts_hold_no_sep(s, '/');
        lemma_to_upper_idempotent(parts[0]);
        lemma_to_upper_keeps(parts[0], '/');
    }
}

/// Reading the text of a pair that is quoted in US dollars gives the pair back.
pub proof fn lemma_pair_text_reads_back(p: PairView)
    requires
        valid_base(p.base),
        p.quote == QuoteCurrency::Usd,
    ensures
        parse_pair(pair_text(p)) == Ok::<PairView, Fault>(p),
{
    reveal_strlit("USD");
    let usd = "USD"@;
    assert(!usd.contains('/')) by {
        if usd.contains('/') {
            let i = choose|i: int| 0 <= i < usd.len() && usd[i] == '/';
            assert(usd[i] != '/');
        }
    }
    lemma_split_single(usd, '/');
    lemma_split_cons(p.base, '/', usd);
    let parts = split(pair_text(p), '/');
    assert(parts == seq![p.base, usd]);
    assert(parts[0] == p.base);
    assert(parts[1] == usd);
    assert(to_upper(usd) =~= usd);
}

/// A pair of an asset and the currency its price is told in.
#[derive(Debug, Eq, Hash)]
pub struct TradingPair {
    base: String,
    quote: QuoteCurrency,
}

impl View for TradingPair {
    type V = PairView;

    closed spec fn view(&self) -> PairView {
        PairView { base: self.base@, quote: self.quote }
    }
}

impl Clone for TradingPair {
    fn clone(&self) -> (r: TradingPair)
        ensures
            r@ == self@,
    {
        proof {
            use_type_invariant(self);
        }
        TradingPair { base: self.base.clone(), quote: self.quote }
    }
}

impl PartialEq for TradingPair {
    fn eq(&self, other: &TradingPair) -> (r: bool) {
        self.base == other.base && self.quote == other.quote
    }
}

impl vstd::std_specs::cmp::PartialEqSpecImpl for TradingPair {
    open spec fn obeys_eq_spec() -> bool {
        true
    }

    open spec fn eq_spec(&self, other: &TradingPair) -> bool {
        self@ == other@
    }
}

impl TradingPair {
    #[verifier::type_invariant]
    pub open spec fn inv(self) -> bool {
        valid_base(self@.base)
    }

    /// Reads a pair from `BASE/QUOTE`; the error tells what is wrong with the text.
    pub fn parse(s: &str) -> (r: Result<TradingPair, FieldError>)
        ensures
            match r {
                Ok(p) => parse_pair(s@) == Ok::<PairView, Fault>(p@),
                Err(e) => parse_pair(s@) == Err::<PairView, Fault>(e.fault) && e.text@ == s@,
            },
    {
        let v = chars_of(s);
        let parts = split_on(&v, '/');
        assert(parts@.len() == parts_view(parts@).len());
        if parts.len() != 2 {
            return Err(FieldError { fault: Fault::PairFormat, text: String::from_str(s) });
        }
        assert(parts@[0]@ == parts_view(parts@)[0]);
        assert(parts@[1]@ == parts_view(parts@)[1]);
        let base = uppercased(&parts[0]);
        if trimmed(&base).len() == 0 {
            return Err(FieldError { fault: Fault::EmptyBase, text: String::from_str(s) });
        }
        let quote = uppercased(&parts[1]);
        if !reads(&quote, "USD") {
            return Err(FieldError { fault: Fault::UnsupportedQuote, text: String::from_str(s) });
        }
        proof {
            lemma_parsed_pair_is_valid(s@);
        }
        Ok(TradingPair { base: string_of(&base), quote: QuoteCurrency::Usd })
    }

    pub fn base(&self) -> (r: &str)
        ensures
            r@ == self@.base,
            valid_base(self@.base),
    {
        proof {
            use_type_invariant(self);
        }
        self.base.as_str()
    }

    pub fn quote(&self) -> (r: QuoteCurrency)
        ensures
            r == self@.quote,
    {
        self.quote
    }

    /// The text of the pair: `BASE/QUOTE`, in upper case.
    pub fn to_text(&self) -> (r: String)
        ensures
            r@ == pair_text(self@),
    {
        let mut out = chars_of(self.base.as_str());
        out.push('/');
        let ticker = chars_of(self.quote.ticker());
        extend_chars(&mut out, &ticker);
        string_of(&out)
    }
}

} // verus!
