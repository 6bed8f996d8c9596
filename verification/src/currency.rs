use crate::text::{chars_of, reads, string_of, to_upper, trim, trimmed, uppercased};
use crate::text::{
    is_trimmed, lemma_trim_is_trimmed, lemma_trim_of_trimmed, lemma_upper_idempotent,
    lemma_upper_keeps_space,
};
use crate::quote_currency::QuoteCurrency;
use vstd::prelude::*;
use vstd::string::StringExecFns;

verus! {

/// The kinds of currency the registry knows.
#[derive(Debug, Clone, Copy, PartialEq, Eq, Hash, Structural)]
pub enum CurrencyType {
    Crypto,
    Fiat,
    StableCoin,
}

/// The supported fiat currencies.
pub open spec fn fiat_tickers() -> Seq<Seq<char>> {
    seq!["USD"@, "EUR"@, "CAD"@]
}

/// The supported stable coins.
pub open spec fn stable_tickers() -> Seq<Seq<char>> {
    seq!["USDC"@, "USDT"@, "USDS"@, "DAI"@, "USDE"@]
}

/// The supported cryptocurrencies.
pub open spec fn crypto_tickers() -> Seq<Seq<char>> {
    seq![
        "BTC"@, "ETH"@, "XRP"@, "BNB"@, "SOL"@, "TRX"@, "DOGE"@, "ADA"@, "BCH"@, "LINK"@,
        "HYPE"@, "LEO"@, "WETH"@, "XLM"@, "XMR"@, "SUI"@, "AVAX"@, "LTC"@, "HBAR"@, "ZEC"@,
        "SHIB"@, "CRO"@, "TON"@, "DOT"@, "UNI"@, "MNT"@, "AAVE"@, "TAO"@, "BGB"@, "M"@, "S"@,
        "OKB"@, "NEAR"@, "ASTER"@, "ETC"@, "ICP"@, "PI"@, "PEPE"@, "RAIN"@, "PUMP"@, "ONDO"@,
        "HTX"@, "JLP"@, "KAS"@,
    ]
}

/// The kind of a ticker: fiat first, then stable coin, then cryptocurrency;
/// none for a ticker that no list holds. The ticker is taken as it stands.
pub open spec fn classify(ticker: Seq<char>) -> Option<CurrencyType> {
    if fiat_tickers().contains(ticker) {
        Some(CurrencyType::Fiat)
    } else if stable_tickers().contains(ticker) {
        Some(CurrencyType::StableCoin)
    } else if crypto_tickers().contains(ticker) {
        Some(CurrencyType::Crypto)
    } else {
        None
    }
}

/// The normal form of a ticker: without white space around it, in upper case.
pub open spec fn normalize(ticker: Seq<char>) -> Seq<char> {
    to_upper(trim(ticker))
}

/// The texts that a list of string slices holds.
pub open spec fn ticker_views(list: Seq<&'static str>) -> Seq<Seq<char>> {
    Seq::new(list.len(), |i: int| list[i]@)
}

/// Normalizing a ticker twice gives what normalizing it once gives.
pub proof fn lemma_normalize_idempotent(ticker: Seq<char>)
    ensures
        normalize(normalize(ticker)) == normalize(ticker),
{
    let t = trim(ticker);
    let u = to_upper(t);
    lemma_trim_is_trimmed(ticker);
    assert(is_trimmed(u)) by {
        if u.len() > 0 {
            lemma_upper_keeps_space(t[0]);
            lemma_upper_keeps_space(t.last());
        }
    }
    lemma_trim_of_trimmed(u);
    assert(to_upper(u) =~= u) by {
        assert forall|i: int| 0 <= i < u.len() implies to_upper(u)[i] == u[i] by {
            lemma_upper_idempotent(t[i]);
        }
    }
}

/// No fiat currency is among the stable coins or the cryptocurrencies.
proof fn lemma_fiat_is_apart(t: Seq<char>)
    requires
        fiat_tickers().contains(t),
    ensures
        !stable_tickers().contains(t),
        !crypto_tickers().contains(t),
{
    reveal_strlit("USD");
    reveal_strlit("EUR");
    reveal_strlit("CAD");
    reveal_strlit("USDC");
    reveal_strlit("USDT");
    reveal_strlit("USDS");
    reveal_strlit("DAI");
    reveal_strlit("USDE");
    reveal_strlit("BTC");
    reveal_strlit("ETH");
    reveal_strlit("XRP");
    reveal_strlit("BNB");
    reveal_strlit("SOL");
    reveal_strlit("TRX");
    reveal_strlit("DOGE");
    reveal_strlit("ADA");
    reveal_strlit("BCH");
    reveal_strlit("LINK");
    reveal_strlit("HYPE");
    reveal_strlit("LEO");
    reveal_strlit("WETH");
    reveal_strlit("XLM");
    reveal_strlit("XMR");
    reveal_strlit("SUI");
    reveal_strlit("AVAX");
    reveal_strlit("LTC");
    reveal_strlit("HBAR");
    reveal_strlit("ZEC");
    reveal_strlit("SHIB");
    reveal_strlit("CRO");
    reveal_strlit("TON");
    reveal_strlit("DOT");
    reveal_strlit("UNI");
    reveal_strlit("MNT");
    reveal_strlit("AAVE");
    reveal_strlit("TAO");
    reveal_strlit("BGB");
    reveal_strlit("M");
    reveal_strlit("S");
    reveal_strlit("OKB");
    reveal_strlit("NEAR");
    reveal_strlit("ASTER");
    reveal_strlit("ETC");
    reveal_strlit("ICP");
    reveal_strlit("PI");
    reveal_strlit("PEPE");
    reveal_strlit("RAIN");
    reveal_strlit("PUMP");
    reveal_strlit("ONDO");
    reveal_strlit("HTX");
    reveal_strlit("JLP");
    reveal_strlit("KAS");
    let i = choose|i: int| 0 <= i < fiat_tickers().len() && fiat_tickers()[i] == t;
    assert(t.len() == 3 && ((t[0] == 'U' && t[1] == 'S') || (t[0] == 'E' && t[1] == 'U') || (t[0]
        == 'C' && t[1] == 'A')));
    if stable_tickers().contains(t) {
        let j = choose|j: int| 0 <= j < stable_tickers().len() && stable_tickers()[j] == t;
        let c = stable_tickers()[j];
        assert(c.len() == 4 || c[0] == 'D');
    }
    if crypto_tickers().contains(t) {
        let j = choose|j: int| 0 <= j < crypto_tickers().len() && crypto_tickers()[j] == t;
        let c = crypto_tickers()[j];
        assert(c.len() != 3 || (!(c[0] == 'U' && c[1] == 'S') && !(c[0] == 'E' && c[1] == 'U')
            && !(c[0] == 'C' && c[1] == 'A')));
    }
}

/// No stable coin is among the cryptocurrencies.
proof fn lemma_stable_is_apart(t: Seq<char>)
    requires
        stable_tickers().contains(t),
    ensures
        !crypto_tickers().contains(t),
{
    reveal_strlit("USDC");
    reveal_strlit("USDT");
    reveal_strlit("USDS");
    reveal_strlit("DAI");
    reveal_strlit("USDE");
    reveal_strlit("BTC");
    reveal_strlit("ETH");
    reveal_strlit("XRP");
    reveal_strlit("BNB");
    reveal_strlit("SOL");
    reveal_strlit("TRX");
    reveal_strlit("DOGE");
    reveal_strlit("ADA");
    reveal_strlit("BCH");
    reveal_strlit("LINK");
    reveal_strlit("HYPE");
    reveal_strlit("LEO");
    reveal_strlit("WETH");
    reveal_strlit("XLM");
    reveal_strlit("XMR");
    reveal_strlit("SUI");
    reveal_strlit("AVAX");
    reveal_strlit("LTC");
    reveal_strlit("HBAR");
    reveal_strlit("ZEC");
    reveal_strlit("SHIB");
    reveal_strlit("CRO");
    reveal_strlit("TON");
    reveal_strlit("DOT");
    reveal_strlit("UNI");
    reveal_strlit("MNT");
    reveal_strlit("AAVE");
    reveal_strlit("TAO");
    reveal_strlit("BGB");
    reveal_strlit("M");
    reveal_strlit("S");
    reveal_strlit("OKB");
    reveal_strlit("NEAR");
    reveal_strlit("ASTER");
    reveal_strlit("ETC");
    reveal_strlit("ICP");
    reveal_strlit("PI");
    reveal_strlit("PEPE");
    reveal_strlit("RAIN");
    reveal_strlit("PUMP");
    reveal_strlit("ONDO");
    reveal_strlit("HTX");
    reveal_strlit("JLP");
    reveal_strlit("KAS");
    let i = choose|i: int| 0 <= i < stable_tickers().len() && stable_tickers()[i] == t;
    assert((t.len() == 4 && t[0] == 'U' && t[1] == 'S' && t[2] == 'D') || (t.len() == 3 && t[0]
        == 'D' && t[1] == 'A'));
    if crypto_tickers().contains(t) {
        let j = choose|j: int| 0 <= j < crypto_tickers().len() && crypto_tickers()[j] == t;
        let c = crypto_tickers()[j];
        assert(!(c.len() == 4 && c[0] == 'U' && c[1] == 'S' && c[2] == 'D') && !(c.len() == 3
            && c[0] == 'D' && c[1] == 'A'));
    }
}

/// The three lists of the registry have no ticker in common, so the kind of a
/// ticker is the kind of the one list that holds it.
pub proof fn lemma_classify_exclusive(t: Seq<char>)
    ensures
        classify(t) == Some(CurrencyType::Fiat) <==> fiat_tickers().contains(t),
        classify(t) == Some(CurrencyType::StableCoin) <==> stable_tickers().contains(t),
        classify(t) == Some(CurrencyType::Crypto) <==> crypto_tickers().contains(t),
{
    if fiat_tickers().contains(t) {
        lemma_fiat_is_apart(t);
    }
    if stable_tickers().contains(t) {
        lemma_stable_is_apart(t);
    }
}

/// A ticker that the registry does not hold, as it was looked up.
#[derive(Debug)]
pub struct CurrencyError {
    pub ticker: String,
}

impl CurrencyError {
    pub open spec fn message_spec(self) -> Seq<char> {
        "Unsupported ticker '"@ + self.ticker@ + "'. Valid examples: BTC, ETH, USD, USDC"@
    }

    /// The text of the error: the ticker, and examples of valid ones.
    pub fn message(&self) -> (r: String)
        ensures
            r@ == self.message_spec(),
    {
        let mut r = String::from_str("Unsupported ticker '");
        r.append(self.ticker.as_str());
        r.append("'. Valid examples: BTC, ETH, USD, USDC");
        r
    }
}

/// A currency of the registry, known by its normalized ticker.
#[derive(Debug, Eq, Hash)]
pub struct Currency {
    ticker: String,
}

impl View for Currency {
    type V = Seq<char>;

    closed spec fn view(&self) -> Seq<char> {
        self.ticker@
    }
}

impl Clone for Currency {
    fn clone(&self) -> (r: Currency)
        ensures
            r@ == self@,
    {
        proof {
            use_type_invariant(self);
        }
        Currency { ticker: self.ticker.clone() }
    }
}

impl PartialEq for Currency {
    fn eq(&self, other: &Currency) -> (r: bool) {
        self.ticker == other.ticker
    }
}

impl vstd::std_specs::cmp::PartialEqSpecImpl for Currency {
    open spec fn obeys_eq_spec() -> bool {
        true
    }

    open spec fn eq_spec(&self, other: &Currency) -> bool {
        self@ == other@
    }
}

impl Default for Currency {
    /// The US dollar.
    fn default() -> (r: Currency)
        ensures
            r@ == "USD"@,
    {
        let ticker = String::from_str("USD");
        proof {
            assert(fiat_tickers()[0] == "USD"@);
        }
        Currency { ticker }
    }
}

impl core::str::FromStr for Currency {
    type Err = CurrencyError;

    /// Reads a currency from its ticker as `Currency::new` does: the
    /// currency of the ticker's normal form, or an error that carries that
    /// normal form where the registry does not hold it.
    fn from_str(s: &str) -> (r: Result<Currency, CurrencyError>)
        ensures
            match r {
                Ok(c) => c@ == normalize(s@) && classify(c@) is Some,
                Err(e) => e.ticker@ == normalize(s@) && classify(normalize(s@)) is None,
            },
    {
        Currency::new(s)
    }
}

impl Currency {
    #[verifier::type_invariant]
    pub open spec fn inv(self) -> bool {
        classify(self@) is Some
    }

    /// The currency whose ticker is the normal form of `ticker`; an error
    /// that carries that normal form where the registry does not hold it.
    pub fn new(ticker: &str) -> (r: Result<Currency, CurrencyError>)
        ensures
            match r {
                Ok(c) => c@ == normalize(ticker@) && classify(c@) is Some,
                Err(e) => e.ticker@ == normalize(ticker@) && classify(normalize(ticker@)) is None,
            },
    {
        let normal = normalize_ticker(ticker);
        match classify_ticker(normal.as_str()) {
            Some(_) => Ok(Currency { ticker: normal }),
            None => Err(CurrencyError { ticker: normal }),
        }
    }

    /// The currency that a quote currency is.
    pub fn of_quote(quote: QuoteCurrency) -> (r: Currency)
        ensures
            r@ == quote.ticker_spec(),
    {
        proof {
            assert(fiat_tickers()[0] == "USD"@);
            assert(crypto_tickers()[0] == "BTC"@);
        }
        Currency { ticker: String::from_str(quote.ticker()) }
    }

    pub fn ticker(&self) -> (r: &str)
        ensures
            r@ == self@,
            classify(self@) is Some,
    {
        proof {
            use_type_invariant(self);
        }
        self.ticker.as_str()
    }

    pub fn currency_type(&self) -> (r: CurrencyType)
        ensures
            classify(self@) == Some(r),
    {
        proof {
            use_type_invariant(self);
        }
        match classify_ticker(self.ticker.as_str()) {
            Some(kind) => kind,
            None => CurrencyType::Crypto,
        }
    }

    /// Whether the registry holds the normal form of `ticker`.
    pub fn is_valid(ticker: &str) -> (r: bool)
        ensures
            r == classify(normalize(ticker@)) is Some,
    {
        let normal = normalize_ticker(ticker);
        classify_ticker(normal.as_str()).is_some()
    }

    pub fn supported_crypto() -> (r: Vec<&'static str>)
        ensures
            ticker_views(r@) == crypto_tickers(),
    {
        let r = vec![
            "BTC", "ETH", "XRP", "BNB", "SOL", "TRX", "DOGE", "ADA", "BCH", "LINK", "HYPE", "LEO",
            "WETH", "XLM", "XMR", "SUI", "AVAX", "LTC", "HBAR", "ZEC", "SHIB", "CRO", "TON", "DOT",
            "UNI", "MNT", "AAVE", "TAO", "BGB", "M", "S", "OKB", "NEAR", "ASTER", "ETC", "ICP",
            "PI", "PEPE", "RAIN", "PUMP", "ONDO", "HTX", "JLP", "KAS",
        ];
        assert(ticker_views(r@) =~= crypto_tickers());
        r
    }

    pub fn supported_fiat() -> (r: Vec<&'static str>)
        ensures
            ticker_views(r@) == fiat_tickers(),
    {
        let r = vec!["USD", "EUR", "CAD"];
        assert(ticker_views(r@) =~= fiat_tickers());
        r
    }

    pub fn supported_stables() -> (r: Vec<&'static str>)
        ensures
            ticker_views(r@) == stable_tickers(),
    {
        let r = vec!["USDC", "USDT", "USDS", "DAI", "USDE"];
        assert(ticker_views(r@) =~= stable_tickers());
        r
    }
}

/// Whether `list` holds the text `ticker`.
fn holds(list: &Vec<&'static str>, ticker: &Vec<char>) -> (r: bool)
    ensures
        r == ticker_views(list@).contains(ticker@),
{
    let mut i: usize = 0;
    while i < list.len()
        invariant
            i <= list.len(),
            forall|j: int| 0 <= j < i ==> ticker_views(list@)[j] != ticker@,
        decreases list.len() - i,
    {
        if reads(ticker, list[i]) {
            assert(ticker_views(list@)[i as int] == ticker@);
            return true;
        }
        i = i + 1;
    }
    false
}

/// Classifies a ticker, taken as it stands, into its currency type.
pub fn classify_ticker(ticker: &str) -> (r: Option<CurrencyType>)
    ensures
        r == classify(ticker@),
{
    let t = chars_of(ticker);
    if holds(&Currency::supported_fiat(), &t) {
        Some(CurrencyType::Fiat)
    } else if holds(&Currency::supported_stables(), &t) {
        Some(CurrencyType::StableCoin)
    } else if holds(&Currency::supported_crypto(), &t) {
        Some(CurrencyType::Crypto)
    } else {
        None
    }
}

/// The normal form of a ticker: trimmed, then in upper case.
pub fn normalize_ticker(s: &str) -> (r: String)
    ensures
        r@ == normalize(s@),
{
    let v = chars_of(s);
    let t = trimmed(&v);
    let u = uppercased(&t);
    string_of(&u)
}

} // verus!
