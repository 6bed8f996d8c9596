use portfolio_tracker::amount::Amount;
use portfolio_tracker::fault::{Fault, Field};
use portfolio_tracker::quote_currency::QuoteCurrency;
use portfolio_tracker::side::Side;
use portfolio_tracker::trade::{
    check_positive, csv_header, is_header, positive_decimal, read_trades_from_csv, tx_to_csv,
    Trade,
};
use portfolio_tracker::trading_pair::TradingPair;
use portfolio_tracker::ts_seconds::{
    deserialize, deserialize_now, serialize, validate, MAX_TIMESTAMP, MIN_TIMESTAMP,
};
use time::{Date, Month, OffsetDateTime};

const NOW: i64 = 1_800_000_000;

fn dec(s: &str) -> Amount {
    Amount::parse(s).unwrap()
}

fn lines(text: &str) -> Vec<String> {
    text.lines().map(|l| l.to_string()).collect()
}

fn tenth_of_january_2024() -> OffsetDateTime {
    Date::from_calendar_date(2024, Month::January, 10)
        .unwrap()
        .with_hms(10, 40, 0)
        .unwrap()
        .assume_utc()
}

fn pair_error(pair: &str) -> String {
    let line = format!("1704883200,{},BUY,1,2,3", pair);
    let err = Trade::parse(&line, NOW).unwrap_err();
    assert_eq!(err.field, Field::Pair);
    err.message()
}

#[test]
fn test_timestamp_deserializer() {
    let dt = tenth_of_january_2024();
    let ts = deserialize("1704883200", NOW).unwrap();
    assert_eq!(OffsetDateTime::from_unix_timestamp(ts).unwrap(), dt);
}

#[test]
fn test_timestamp_deser_to_old() {
    match deserialize("111222333", NOW) {
        Ok(_) => panic!("expected to fail"),
        Err(e) => assert!(e
            .message()
            .contains("timestamp 111222333 is before minimum allowed date (2009-01-03)")),
    }
}

#[test]
fn test_timestamp_in_future() {
    let err = deserialize_now("1861826683").unwrap_err();
    assert_eq!(err.fault, Fault::InFuture);
    assert!(err.message().contains("timestamp is in the future"), "got: {}", err.message());
}

#[test]
fn test_timestamp_of_the_past_is_accepted_by_the_clock() {
    assert_eq!(deserialize_now("1704883200").unwrap(), 1704883200);
    assert_eq!(deserialize_now("1231027199").unwrap_err().fault, Fault::BeforeMinimum);
    let trade = Trade::parse_now("1704883200,BTC/USD,BUY,1,2,3").unwrap();
    assert_eq!(trade.created_at(), 1704883200);
    let err = Trade::parse_now("9704883200,BTC/USD,BUY,1,2,3").unwrap_err();
    assert_eq!((err.field, err.fault), (Field::CreatedAt, Fault::InFuture));
}

#[test]
fn test_timestamp_ser() {
    let ts = tenth_of_january_2024().unix_timestamp();
    assert_eq!(serialize(ts), "1704883200".to_string());
}

#[test]
fn test_created_at_roundtrip() {
    let at = tenth_of_january_2024();
    let text = serialize(at.unix_timestamp());
    assert_eq!(text, "1704883200");
    let back = deserialize(&text, NOW).unwrap();
    assert_eq!(OffsetDateTime::from_unix_timestamp(back).unwrap(), at);
}

#[test]
fn test_timestamp_boundaries() {
    assert_eq!(MIN_TIMESTAMP, 1231027200);
    assert_eq!(validate(MIN_TIMESTAMP, NOW), Ok(MIN_TIMESTAMP));
    assert_eq!(validate(MIN_TIMESTAMP - 1, NOW), Err(Fault::BeforeMinimum));
    assert_eq!(validate(NOW - 1, NOW), Ok(NOW - 1));
    assert_eq!(validate(NOW, NOW), Err(Fault::InFuture));
    assert_eq!(validate(NOW + 1, NOW), Err(Fault::InFuture));
    assert_eq!(validate(MIN_TIMESTAMP, MIN_TIMESTAMP), Err(Fault::InFuture));
    assert_eq!(validate(MIN_TIMESTAMP, MIN_TIMESTAMP + 1), Ok(MIN_TIMESTAMP));
    assert_eq!(validate(0, i64::MIN), Err(Fault::BeforeMinimum));
    assert_eq!(validate(i64::MIN, i64::MAX), Err(Fault::BeforeMinimum));
    assert_eq!(validate(i64::MAX, i64::MAX), Err(Fault::InFuture));
}

#[test]
fn test_timestamp_has_to_be_a_date() {
    assert_eq!(MAX_TIMESTAMP, 253_402_300_799);
    assert_eq!(validate(MAX_TIMESTAMP, i64::MAX), Ok(MAX_TIMESTAMP));
    assert_eq!(validate(MAX_TIMESTAMP + 1, i64::MAX), Err(Fault::OutOfRange));
    assert_eq!(validate(i64::MAX - 1, i64::MAX), Err(Fault::OutOfRange));
    assert!(OffsetDateTime::from_unix_timestamp(MAX_TIMESTAMP).is_ok());
    assert!(OffsetDateTime::from_unix_timestamp(MAX_TIMESTAMP + 1).is_err());
    let err = deserialize("253402300800", i64::MAX).unwrap_err();
    assert_eq!(err.message(), "timestamp is out of range: 253402300800");
}

#[test]
fn test_timestamp_has_to_be_an_integer() {
    for text in ["", "+", "-", "12a", "1.5", " 1704883200", "1704883200 ", "1e9", "0x10"] {
        let err = deserialize(text, NOW).unwrap_err();
        assert_eq!(err.fault, Fault::NotAnInteger, "{}", text);
        assert_eq!(err.text, text);
    }
    assert_eq!(deserialize("99999999999999999999", NOW).unwrap_err().fault, Fault::NotAnInteger);
    assert_eq!(deserialize("9223372036854775808", NOW).unwrap_err().fault, Fault::NotAnInteger);
    assert_eq!(deserialize("-9223372036854775809", NOW).unwrap_err().fault, Fault::NotAnInteger);
    assert_eq!(deserialize("9223372036854775807", NOW).unwrap_err().fault, Fault::InFuture);
    assert_eq!(deserialize("-9223372036854775808", NOW).unwrap_err().fault, Fault::BeforeMinimum);
    assert_eq!(deserialize("+1704883200", NOW).unwrap(), 1704883200);
    assert_eq!(deserialize("0001704883200", NOW).unwrap(), 1704883200);
    assert_eq!(deserialize("-5", NOW).unwrap_err().fault, Fault::BeforeMinimum);
    assert_eq!(deserialize("12a", NOW).unwrap_err().message(), "invalid integer '12a'");
    assert_eq!(serialize(-42), "-42");
    assert_eq!(serialize(0), "0");
    assert_eq!(serialize(i64::MIN), "-9223372036854775808");
    assert_eq!(serialize(i64::MAX), "9223372036854775807");
}

#[test]
fn test_deser_accepts_simple_positive_integer() {
    let d = positive_decimal("5").unwrap();
    assert_eq!(d, dec("5"));
    assert_eq!(d, Amount::from_int(5));
}

#[test]
fn test_deser_accepts_simple_positive_decimal() {
    let d = positive_decimal("5.75").unwrap();
    assert_eq!(d, Amount::new(575, 2).unwrap());
}

#[test]
fn test_deser_accepts_scientific_notation_positive() {
    let d = positive_decimal("1e6").unwrap();
    assert_eq!(d, Amount::from_int(1000000));
}

#[test]
fn test_deser_accepts_small_positive_decimal_epsilon() {
    let d = positive_decimal("1e-9").unwrap();
    assert_eq!(d, Amount::new(1, 9).unwrap());
    assert_eq!(d, dec("0.000000001"));
}

#[test]
fn test_deser_rejects_non_positive_values() {
    for text in ["0", "-3", "-0.0001"] {
        let res = positive_decimal(text);
        assert!(res.is_err(), "expected reading to fail for {text}");
        let err = res.unwrap_err();
        assert_eq!(err.fault, Fault::NotPositive);
        assert!(
            err.message().contains("value must be positive number"),
            "unexpected error message: {}",
            err.message()
        );
    }
}

#[test]
fn test_text_that_is_no_number_is_refused() {
    for text in ["\"1.23\"", "true", "[1,2]", "{\"k\": 1}"] {
        let err = positive_decimal(text).unwrap_err();
        assert_eq!(err.fault, Fault::NotANumber);
        assert_eq!(err.text, text);
    }
    assert_eq!(positive_decimal("abc").unwrap_err().message(), "invalid decimal number 'abc'");
}

#[test]
fn deser_maps_try_from_overflow_error() {
    assert_eq!(positive_decimal("1e309").unwrap_err().fault, Fault::NotANumber);
    assert_eq!(
        positive_decimal("79228162514264337593543950336").unwrap_err().fault,
        Fault::NotANumber
    );
    assert!(positive_decimal("79228162514264337593543950335").is_ok());
}

#[test]
fn deser_maps_try_from_subnormal_or_precision_error() {
    for text in ["4.9e-324", "1e-29", "1e-400", "0.00000000000000000000000000001"] {
        let err = positive_decimal(text).unwrap_err();
        assert!(err.fault == Fault::NotANumber || err.fault == Fault::NotPositive);
    }
    assert_eq!(positive_decimal("1e-29").unwrap_err().fault, Fault::NotANumber);
    assert_eq!(
        positive_decimal("0.00000000000000000000000000001").unwrap_err().fault,
        Fault::NotPositive
    );
    assert!(positive_decimal("1e-28").is_ok());
}

#[test]
fn deser_integration_on_struct_field_succeeds() {
    let trade = Trade::parse("1704883200,BTC/USD,BUY,5.75,40000.00,7.50", NOW).unwrap();
    assert_eq!(trade.amount(), dec("5.75"));
    assert_eq!(trade.price(), dec("40000"));
    assert_eq!(trade.fee(), dec("7.5"));
}

#[test]
fn deser_integration_on_struct_field_fails_zero() {
    let err = Trade::parse("1704883200,BTC/USD,BUY,0,40000.00,7.50", NOW).unwrap_err();
    assert_eq!((err.field, err.fault), (Field::Amount, Fault::NotPositive));
    assert!(err.message().contains("value must be positive number"));
    let err = Trade::parse("1704883200,BTC/USD,BUY,1,0.0,7.50", NOW).unwrap_err();
    assert_eq!((err.field, err.fault), (Field::Price, Fault::NotPositive));
    let err = Trade::parse("1704883200,BTC/USD,BUY,1,1,0", NOW).unwrap_err();
    assert_eq!((err.field, err.fault), (Field::Fee, Fault::NotPositive));
}

#[test]
fn deser_integration_on_struct_field_fails_negative() {
    let err = Trade::parse("1704883200,BTC/USD,BUY,-1,40000.00,7.50", NOW).unwrap_err();
    assert_eq!((err.field, err.fault), (Field::Amount, Fault::NotPositive));
    assert_eq!(err.text, "-1");
    assert!(err.message().contains("value must be positive number"));
}

#[test]
fn deser_error_message_is_preserved_in_serde_json_error_display() {
    let err = Trade::parse("1704883200,BTC/USD,BUY,1,-2,7.50", NOW).unwrap_err();
    assert_eq!(err.message(), "price: value must be positive number");
    let err = Trade::parse("1704883200,BTC/USD,BUY,1,2,x", NOW).unwrap_err();
    assert_eq!(err.message(), "fee: invalid decimal number 'x'");
}

#[test]
fn deser_roundtrip_behavior_documented_with_serialize_reference() {
    let d = positive_decimal("5.75").unwrap();
    assert_eq!(d.to_text(), "5.75");
    assert_eq!(positive_decimal(&d.to_text()).unwrap(), d);
    assert_eq!(positive_decimal("0.1").unwrap().to_text(), "0.1");
    assert_eq!(positive_decimal("1e6").unwrap().to_text(), "1000000");
}

#[test]
fn deser_boundary_value_min_positive_handled() {
    let d = positive_decimal("0.0000000000000000000000000001").unwrap();
    assert_eq!((d.mantissa(), d.scale()), (1, 28));
    assert!(d.is_positive());
}

#[test]
fn deser_rejects_non_finite_values_if_parser_allows() {
    for text in ["NaN", "nan", "inf", "-inf", "Infinity", "+Infinity"] {
        assert_eq!(positive_decimal(text).unwrap_err().fault, Fault::NotANumber);
    }
}

#[test]
fn test_csv_deser_invalid_value_negative() {
    let err = positive_decimal("-1").unwrap_err();
    assert!(
        err.message().contains("value must be positive number"),
        "unexpected error message: {}",
        err.message()
    );
}

#[test]
fn test_base_and_quote_cannot_be_the_same_btc() {
    assert!(pair_error("BTC/BTC").contains("accepting only USD for quote currency"));
}

#[test]
fn trade_test_deserialize_rejects_invalid_quote_currency() {
    assert!(pair_error("BTC/USDT").contains("accepting only USD for quote currency"));
}

#[test]
fn trade_test_deserialize_rejects_missing_separator() {
    assert!(pair_error("BTCUSDT").contains("expected format 'BASE/QUOTE', got 'BTCUSDT'"));
}

#[test]
fn trade_invalid_trading_pair_format_doubleslash() {
    assert!(pair_error("BTC/ETH/USD").contains("expected format 'BASE/QUOTE', got 'BTC/ETH/USD'"));
}

#[test]
fn trade_test_deserialize_rejects_empty_string() {
    assert!(pair_error("").contains("expected format 'BASE/QUOTE', got ''"));
}

#[test]
fn trade_test_deserialize_rejects_only_base_no_quote() {
    assert!(pair_error("BTC/").contains("accepting only USD for quote currency"));
}

#[test]
fn trade_test_deserialize_rejects_only_quote_no_base() {
    assert!(pair_error("/USD").contains("base can't be empty"));
}

#[test]
fn trade_test_serialize_then_deserialize_roundtrip() {
    for line in [
        "1704883200,BTC/USD,BUY,1.0,40000.00,7.50",
        "1710460800,ETH/USD,SELL,3,20000.00,10.00",
        "1231027200,USDT0/USD,BUY,0.0000000000000000000000000001,79228162514264337593543950335,1",
    ] {
        let trade = Trade::parse(line, NOW).unwrap();
        let record = trade.to_record();
        assert_eq!(record, line);
        let back = Trade::parse(&record, NOW).unwrap();
        assert_eq!(back.created_at(), trade.created_at());
        assert_eq!(back.pair(), trade.pair());
        assert_eq!(back.side(), trade.side());
        for (a, b) in [
            (back.amount(), trade.amount()),
            (back.price(), trade.price()),
            (back.fee(), trade.fee()),
        ] {
            assert_eq!((a.mantissa(), a.scale()), (b.mantissa(), b.scale()));
        }
    }
}

#[test]
fn trade_test_deserialize_then_serialize_roundtrip() {
    let trade = Trade::parse("+1704883200,btc/usd, buy ,1e3,4e-2,007.50", NOW).unwrap();
    assert_eq!(trade.to_record(), "1704883200,BTC/USD,BUY,1000,0.04,7.50");
    let again = Trade::parse(&trade.to_record(), NOW).unwrap();
    assert_eq!(again.to_record(), trade.to_record());
}

#[test]
fn trade_test_deserialize_with_whitespace() {
    assert!(pair_error("  btc / usd ").contains("accepting only USD for quote currency"));
    assert_eq!(pair_error("  /USD"), "pair: base can't be empty");
    let trade = Trade::parse("1704883200,BTC/USD,\tSell ,1,2,3", NOW).unwrap();
    assert_eq!(trade.side(), Side::Sell);
    let err = Trade::parse("1704883200,BTC/USD,BUY, 1,2,3", NOW).unwrap_err();
    assert_eq!((err.field, err.fault), (Field::Amount, Fault::NotANumber));
}

#[test]
fn trade_test_serialize_with_non_ascii_characters() {
    let trade = Trade::parse("1704883200,btç/usd,BUY,1,2,3", NOW).unwrap();
    assert_eq!(trade.to_record(), "1704883200,BTç/USD,BUY,1,2,3");
}

#[test]
fn trade_test_deserialize_with_non_ascii_characters() {
    let trade = Trade::parse("1704883200,btç/usd,BUY,1,2,3", NOW).unwrap();
    assert_eq!(trade.pair().base(), "BTç");
    assert_eq!(trade.pair().quote(), QuoteCurrency::Usd);
}

#[test]
fn test_parse_reads_all_the_fields() {
    let trade = Trade::parse("1704883200,BTC/USD,BUY,1.0,40000.00,7.50", NOW).unwrap();
    assert_eq!(trade.created_at(), 1704883200);
    assert_eq!(trade.pair().base(), "BTC");
    assert_eq!(trade.pair().quote(), QuoteCurrency::Usd);
    assert_eq!(trade.side(), Side::Buy);
    assert_eq!(trade.amount(), dec("1"));
    assert_eq!(trade.price(), dec("40000"));
    assert_eq!(trade.fee(), dec("7.5"));
}

#[test]
fn test_parse_names_the_first_field_at_fault() {
    for (line, field, fault) in [
        ("", Field::Record, Fault::FieldCount),
        ("1704883200,BTC/USD,BUY,1,2", Field::Record, Fault::FieldCount),
        ("1704883200,BTC/USD,BUY,1,2,3,", Field::Record, Fault::FieldCount),
        ("x,y,z,0,0,0", Field::CreatedAt, Fault::NotAnInteger),
        ("1,y,z,0,0,0", Field::CreatedAt, Fault::BeforeMinimum),
        ("1800000000,y,z,0,0,0", Field::CreatedAt, Fault::InFuture),
        ("1704883200,y,z,0,0,0", Field::Pair, Fault::PairFormat),
        ("1704883200,/usd,z,0,0,0", Field::Pair, Fault::EmptyBase),
        ("1704883200,a/b,z,0,0,0", Field::Pair, Fault::UnsupportedQuote),
        ("1704883200,a/usd,z,0,0,0", Field::Side, Fault::UnknownSide),
        ("1704883200,a/usd,,0,0,0", Field::Side, Fault::UnknownSide),
        ("1704883200,a/usd,buy,x,0,0", Field::Amount, Fault::NotANumber),
        ("1704883200,a/usd,buy,0,0,0", Field::Amount, Fault::NotPositive),
        ("1704883200,a/usd,buy,1,x,0", Field::Price, Fault::NotANumber),
        ("1704883200,a/usd,buy,1,0,0", Field::Price, Fault::NotPositive),
        ("1704883200,a/usd,buy,1,1,", Field::Fee, Fault::NotANumber),
        ("1704883200,a/usd,buy,1,1,-1", Field::Fee, Fault::NotPositive),
    ] {
        let err = Trade::parse(line, NOW).unwrap_err();
        assert_eq!((err.field, err.fault), (field, fault), "{}", line);
    }
    let err = Trade::parse("1,2,3", NOW).unwrap_err();
    assert_eq!(
        err.message(),
        "record: expected 6 fields (created_at,pair,side,amount,price,fee), got '1,2,3'"
    );
    let err = Trade::parse("1704883200,a/usd,hold,1,1,1", NOW).unwrap_err();
    assert_eq!(err.message(), "side: unknown variant `hold`, expected `BUY` or `SELL`");
    let err = Trade::parse("1704883200,BTC/EUR,BUY,1,1,1", NOW).unwrap_err();
    assert_eq!(err.message(), "pair: accepting only USD for quote currency");
}

#[test]
fn test_side_parse_and_texts() {
    assert_eq!(Side::parse("BUY").unwrap(), Side::Buy);
    assert_eq!(Side::parse("sell").unwrap(), Side::Sell);
    assert_eq!(Side::parse(" Buy\n").unwrap(), Side::Buy);
    let err = Side::parse("hodl").unwrap_err();
    assert_eq!(err.fault, Fault::UnknownSide);
    assert_eq!(err.text, "hodl");
    assert!(Side::parse("").is_err());
    assert!(Side::parse("BUYS").is_err());
    assert_eq!(Side::Buy.record_text(), "BUY");
    assert_eq!(Side::Sell.record_text(), "SELL");
    assert_eq!(Side::Buy.label(), "Buy");
    assert_eq!(Side::Sell.label(), "Sell");
}

#[test]
fn test_trade_new_checks_its_parts() {
    let pair = || TradingPair::parse("BTC/USD").unwrap();
    let ok = Trade::new(1704883200, pair(), Side::Buy, dec("0.5"), dec("96450"), dec("37"));
    assert_eq!(ok.unwrap().to_record(), "1704883200,BTC/USD,BUY,0.5,96450,37");
    for (ts, base, amount, price, fee, field, fault) in [
        (MIN_TIMESTAMP - 1, "BTC/USD", "1", "1", "1", Field::CreatedAt, Fault::BeforeMinimum),
        (MAX_TIMESTAMP + 1, "BTC/USD", "1", "1", "1", Field::CreatedAt, Fault::OutOfRange),
        (MIN_TIMESTAMP, "B,C/USD", "1", "1", "1", Field::Pair, Fault::PairFormat),
        (MIN_TIMESTAMP, "BTC/USD", "0", "1", "1", Field::Amount, Fault::NotPositive),
        (MIN_TIMESTAMP, "BTC/USD", "1", "-1", "1", Field::Price, Fault::NotPositive),
        (MAX_TIMESTAMP, "BTC/USD", "1", "1", "0.0", Field::Fee, Fault::NotPositive),
    ] {
        let pair = TradingPair::parse(base).unwrap();
        let err = Trade::new(ts, pair, Side::Sell, dec(amount), dec(price), dec(fee)).unwrap_err();
        assert_eq!((err.field, err.fault), (field, fault));
    }
    assert!(Trade::new(MIN_TIMESTAMP, pair(), Side::Sell, dec("1"), dec("1"), dec("1")).is_ok());
    assert!(Trade::new(MAX_TIMESTAMP, pair(), Side::Sell, dec("1"), dec("1"), dec("1")).is_ok());
}

#[test]
fn test_tx_to_csv_writes_the_record_of_a_new_trade() {
    let line = tx_to_csv("btc/usd", "buy", dec("0.5"), dec("96450"), dec("37"), 1704883200).unwrap();
    assert_eq!(line, "1704883200,BTC/USD,BUY,0.5,96450,37");
    assert!(Trade::parse(&line, 1704883201).is_ok());
    assert_eq!(Trade::parse(&line, 1704883200).unwrap_err().fault, Fault::InFuture);
    let err = tx_to_csv("btcusd", "buy", dec("1"), dec("1"), dec("1"), 1704883200).unwrap_err();
    assert_eq!((err.field, err.fault), (Field::Pair, Fault::PairFormat));
    let err = tx_to_csv("btc/usd", "hold", dec("1"), dec("1"), dec("1"), 1704883200).unwrap_err();
    assert_eq!((err.field, err.fault), (Field::Side, Fault::UnknownSide));
    let err = tx_to_csv("btc/usd", "sell", dec("1"), dec("0"), dec("1"), 1704883200).unwrap_err();
    assert_eq!((err.field, err.fault), (Field::Price, Fault::NotPositive));
    let err = tx_to_csv("btc/usd", "sell", dec("1"), dec("1"), dec("1"), 5).unwrap_err();
    assert_eq!((err.field, err.fault), (Field::CreatedAt, Fault::BeforeMinimum));
}

#[test]
fn test_header_of_a_trade_log() {
    assert_eq!(csv_header(), "created_at,pair,side,amount,price,fee");
    assert!(is_header("created_at,pair,side,amount,price,fee"));
    assert!(!is_header("created_at,pair,side,amount,price,fee "));
    assert!(!is_header("created_at,pair,side,amount,price"));
    assert!(!is_header(""));
}

#[test]
fn test_read_trades_from_csv() {
    let log = lines(
        "created_at,pair,side,amount,price,fee\n\
         1704883200,BTC/USD,BUY,1.0,40000.00,7.50\n\
         1710460800,BTC/USD,BUY,3,20000.00,10.00",
    );
    let trades = read_trades_from_csv(&log, NOW).unwrap();
    assert_eq!(trades.len(), 2);
    assert_eq!(trades[0].created_at(), 1704883200);
    assert_eq!(trades[1].amount(), dec("3"));
    assert_eq!(trades[1].fee(), dec("10"));

    assert!(read_trades_from_csv(&Vec::new(), NOW).unwrap().is_empty());
    assert!(read_trades_from_csv(&lines(csv_header()), NOW).unwrap().is_empty());
    let with_gaps = lines("created_at,pair,side,amount,price,fee\n\n1704883200,BTC/USD,BUY,1,2,3\n\n");
    assert_eq!(read_trades_from_csv(&with_gaps, NOW).unwrap().len(), 1);
}

#[test]
fn test_read_trades_from_csv_stops_at_the_first_line_at_fault() {
    let no_header = lines("1704883200,BTC/USD,BUY,1.0,40000.00,7.50");
    let err = read_trades_from_csv(&no_header, NOW).unwrap_err();
    assert_eq!(err.line, 0);
    assert_eq!((err.error.field, err.error.fault), (Field::Record, Fault::FieldCount));

    let log = lines(
        "created_at,pair,side,amount,price,fee\n\
         1704883200,BTC/USD,BUY,1.0,40000.00,7.50\n\
         1704883200,BTC/USD,HOLD,1.0,40000.00,7.50\n\
         oops",
    );
    let err = read_trades_from_csv(&log, NOW).unwrap_err();
    assert_eq!(err.line, 2);
    assert_eq!((err.error.field, err.error.fault), (Field::Side, Fault::UnknownSide));
    assert_eq!(err.error.text, "HOLD");

    let future = read_trades_from_csv(&log[..2].to_vec(), 1704883200).unwrap_err();
    assert_eq!(future.line, 1);
    assert_eq!(future.error.fault, Fault::InFuture);
}

#[test]
fn test_check_positive_takes_what_was_read() {
    assert_eq!(check_positive(Some(dec("0.5")), "0.5").unwrap(), dec("0.5"));
    let err = check_positive(Some(Amount::zero()), "0").unwrap_err();
    assert_eq!((err.fault, err.text.as_str()), (Fault::NotPositive, "0"));
    let err = check_positive(Some(dec("-2")), "-2").unwrap_err();
    assert_eq!(err.fault, Fault::NotPositive);
    let err = check_positive(None, "two").unwrap_err();
    assert_eq!((err.fault, err.text.as_str()), (Fault::NotANumber, "two"));
}
