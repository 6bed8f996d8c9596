use portfolio_tracker::currency::{classify_ticker, normalize_ticker, Currency, CurrencyType};
use std::collections::HashMap;

#[test]
fn test_currency_creation_with_normalization() {
    for (input, expected) in [
        ("BTC", "BTC"),
        ("btc", "BTC"),
        (" btc ", "BTC"),
        ("\tETH\n", "ETH"),
        ("  UsD  ", "USD"),
    ] {
        let currency = Currency::new(input).unwrap();
        assert_eq!(currency.ticker(), expected);
    }
}

#[test]
fn test_currency_creation_invalid_tickers() {
    for invalid_ticker in ["INVALID", "abtc", "NOTACOIN", "", "   ", "\t"] {
        let result = Currency::new(invalid_ticker);
        assert!(result.is_err(), "Expected error for ticker: '{}'", invalid_ticker);
    }
}

#[test]
fn test_error_message_format() {
    let result = Currency::new("INVALID");
    assert!(result.is_err());

    let err_msg = result.unwrap_err().message();
    assert!(err_msg.contains("INVALID"));
    assert!(err_msg.contains("Unsupported ticker"));
}

#[test]
fn test_currency_type_classification() {
    for (ticker, expected) in [
        ("BTC", CurrencyType::Crypto),
        ("ETH", CurrencyType::Crypto),
        ("XRP", CurrencyType::Crypto),
        ("USD", CurrencyType::Fiat),
        ("EUR", CurrencyType::Fiat),
        ("CAD", CurrencyType::Fiat),
        ("USDC", CurrencyType::StableCoin),
        ("USDT", CurrencyType::StableCoin),
        ("DAI", CurrencyType::StableCoin),
    ] {
        let currency = Currency::new(ticker).unwrap();
        assert_eq!(currency.currency_type(), expected);
    }
}

#[test]
fn test_is_valid_true() {
    for ticker in ["BTC", "btc", " BTC ", "USD", "USDC", "\tETH\n"] {
        assert!(Currency::is_valid(ticker));
    }
}

#[test]
fn test_is_valid_false() {
    for ticker in ["INVALID", "", "   ", "NOTREAL"] {
        assert!(!Currency::is_valid(ticker));
    }
}

#[test]
fn test_normalize_ticker() {
    for (input, expected) in [
        ("ABC", "ABC"),
        (" AbC ", "ABC"),
        ("\n abc\t ", "ABC"),
        ("lowercase", "LOWERCASE"),
        ("  MiXeD CaSe  ", "MIXED CASE"),
    ] {
        assert_eq!(normalize_ticker(input), expected);
    }
}

#[test]
fn test_normalization_idempotent() {
    for s in ["a", "Btc", "  eth\t", "zZzZ", "\u{2003}sol\u{a0}", "MiXeD CaSe", "", " ", "ß u"] {
        let norm1 = normalize_ticker(s);
        let norm2 = normalize_ticker(&norm1);
        assert_eq!(norm1, norm2);
    }
}

#[test]
fn test_normalize_trims_unicode_white_space_and_keeps_other_letters() {
    assert_eq!(normalize_ticker("\u{2003}btc\u{3000}"), "BTC");
    assert_eq!(normalize_ticker("\u{85}\u{1680}x\u{2028}\u{2029}\u{202f}\u{205f}"), "X");
    assert_eq!(normalize_ticker("é"), "é");
    assert_eq!(normalize_ticker("a b"), "A B");
    assert_eq!(normalize_ticker("{z`"), "{Z`");
}

#[test]
fn test_classify_takes_the_ticker_as_it_stands() {
    assert_eq!(classify_ticker("USD"), Some(CurrencyType::Fiat));
    assert_eq!(classify_ticker("USDE"), Some(CurrencyType::StableCoin));
    assert_eq!(classify_ticker("KAS"), Some(CurrencyType::Crypto));
    assert_eq!(classify_ticker("M"), Some(CurrencyType::Crypto));
    assert_eq!(classify_ticker("usd"), None);
    assert_eq!(classify_ticker(" USD"), None);
    assert_eq!(classify_ticker(""), None);
}

#[test]
fn test_supported_lists() {
    let fiat = Currency::supported_fiat();
    assert_eq!(fiat, vec!["USD", "EUR", "CAD"]);
    let stables = Currency::supported_stables();
    assert_eq!(stables, vec!["USDC", "USDT", "USDS", "DAI", "USDE"]);
    let crypto = Currency::supported_crypto();
    assert_eq!(crypto.len(), 44);
    assert!(crypto.contains(&"BTC"));
    assert!(crypto.contains(&"KAS"));
    for ticker in fiat.iter().chain(stables.iter()).chain(crypto.iter()) {
        assert!(Currency::is_valid(ticker));
    }
    for ticker in fiat.iter() {
        assert!(!stables.contains(ticker) && !crypto.contains(ticker));
    }
    for ticker in stables.iter() {
        assert!(!crypto.contains(ticker));
    }
}

#[test]
fn test_from_str_success() {
    let btc: Currency = "BTC".parse().unwrap();
    assert_eq!(btc.ticker(), "BTC");

    let eth: Currency = " eth ".parse().unwrap();
    assert_eq!(eth.ticker(), "ETH");
}

#[test]
fn test_from_str_failure() {
    let result: Result<Currency, _> = "INVALID".parse::<Currency>();
    assert!(result.is_err());
}

#[test]
fn test_display() {
    for (ticker, expected) in [("BTC", "BTC"), ("USD", "USD"), ("USDC", "USDC")] {
        let currency = Currency::new(ticker).unwrap();
        assert_eq!(format!("{}", currency.ticker()), expected);
    }
}

#[test]
fn test_default() {
    let default = Currency::default();
    assert_eq!(default.ticker(), "USD");
    assert_eq!(default.currency_type(), CurrencyType::Fiat);
}

#[test]
fn test_clone() {
    let btc = Currency::new("BTC").unwrap();
    let btc_clone = btc.clone();
    assert_eq!(btc, btc_clone);
}

#[test]
fn test_equality() {
    let btc1 = Currency::new("BTC").unwrap();
    let btc2 = Currency::new("btc").unwrap();
    let eth = Currency::new("ETH").unwrap();

    assert_eq!(btc1, btc2);
    assert_ne!(btc1, eth);
}

#[test]
fn test_hash_consistency() {
    let mut map = HashMap::new();
    let btc = Currency::new("BTC").unwrap();
    map.insert(btc.clone(), "Bitcoin");

    let btc2 = Currency::new("btc").unwrap();
    assert_eq!(map.get(&btc2), Some(&"Bitcoin"));
}

#[test]
fn test_empty_ticker_error() {
    let result = Currency::new("");
    assert!(result.is_err());
    assert_eq!(
        result.unwrap_err().message(),
        "Unsupported ticker ''. Valid examples: BTC, ETH, USD, USDC"
    );
}

#[test]
fn test_whitespace_only_ticker_error() {
    let result = Currency::new("   ");
    assert!(result.is_err());
    assert_eq!(
        result.unwrap_err().message(),
        "Unsupported ticker ''. Valid examples: BTC, ETH, USD, USDC"
    );
}

#[test]
fn test_unicode_ticker() {
    let result = Currency::new("â‚¿TC");
    assert!(result.is_err());
}

#[test]
fn test_currency_type_copy() {
    let ct1 = CurrencyType::Crypto;
    let ct2 = ct1;
    assert_eq!(ct1, ct2);
}

#[test]
fn test_currency_type_equality() {
    assert_eq!(CurrencyType::Crypto, CurrencyType::Crypto);
    assert_ne!(CurrencyType::Crypto, CurrencyType::Fiat);
}
