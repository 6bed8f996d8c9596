use portfolio_tracker::amount::Amount;
use portfolio_tracker::currency::Currency;
use portfolio_tracker::portfolio::{
    CsvError, LedgerFault, Portfolio, Position, ReplayFault,
};
use portfolio_tracker::trade::Trade;
use portfolio_tracker::tx::{Tx, TxFault};

const NOW: i64 = 1_800_000_000;

fn dec(s: &str) -> Amount {
    Amount::parse(s).unwrap()
}

fn btc() -> Currency {
    Currency::new("BTC").expect("BTC should be valid")
}

fn eth() -> Currency {
    Currency::new("ETH").expect("ETH should be valid")
}

fn usd() -> Currency {
    Currency::new("USD").expect("USD should be valid")
}

fn btc_quote() -> Amount {
    dec("100000")
}

fn portfolio_with_1m_usd() -> Portfolio {
    let mut pf = Portfolio::new();
    pf.deposit(usd(), dec("1000000"), Amount::one()).unwrap();
    pf
}

fn portfolio_with_10_btc() -> Portfolio {
    let mut pf = Portfolio::new();
    pf.deposit(btc(), dec("10"), btc_quote()).unwrap();
    pf
}

fn lines(text: &str) -> Vec<String> {
    text.lines().map(|l| l.to_string()).collect()
}

fn trades(text: &str) -> Vec<Trade> {
    text.lines().map(|l| Trade::parse(l, NOW).unwrap()).collect()
}

#[test]
fn test_deposit_creates_position_with_correct_balance() {
    let pf = portfolio_with_1m_usd();
    let pos = pf.get(&usd()).unwrap();
    assert_eq!(pos.balance, dec("1000000"));
    assert_eq!(pos.cost_base, dec("1000000"));
}

#[test]
fn test_deposit_sets_initial_cost_basis() {
    let pf = portfolio_with_10_btc();
    let pos = pf.get(&btc()).unwrap();
    assert_eq!(pos.cost_base, dec("1000000"));
    assert_eq!(pos.balance, dec("10"));
}

#[test]
fn test_deposit_adds_to_an_open_position() {
    let mut pf = portfolio_with_10_btc();
    pf.deposit(btc(), dec("0.5"), dec("90000")).unwrap();
    let pos = pf.get(&btc()).unwrap();
    assert_eq!(pos.balance, dec("10.5"));
    assert_eq!(pos.cost_base, dec("1045000"));
    assert_eq!(pf.positions().len(), 1);
}

#[test]
fn test_deposit_overflow_leaves_the_portfolio_as_it_is() {
    let mut pf = portfolio_with_10_btc();
    let huge = Amount::new(79_228_162_514_264_337_593_543_950_335i128, 0).unwrap();
    let err = pf.deposit(btc(), huge, Amount::one()).unwrap_err();
    assert_eq!(err.fault, LedgerFault::Arithmetic);
    assert_eq!(pf.get(&btc()).unwrap().balance, dec("10"));
    assert_eq!(pf.get(&btc()).unwrap().cost_base, dec("1000000"));
    let err = pf.deposit(eth(), huge, dec("2")).unwrap_err();
    assert_eq!(err.fault, LedgerFault::Arithmetic);
    assert!(pf.get(&eth()).is_none());
}

#[test]
fn test_new_portfolio_is_empty_and_valued_in_usd() {
    let pf = Portfolio::new();
    assert!(pf.positions().is_empty());
    assert_eq!(pf.valuation().ticker(), "USD");
    assert!(pf.get(&usd()).is_none());
    let eur = Portfolio::with_valuation(Currency::new("eur").unwrap());
    assert_eq!(eur.valuation().ticker(), "EUR");
}

#[test]
fn test_position_new_is_empty() {
    let p = Position::new(btc());
    assert_eq!(p.currency, btc());
    assert_eq!(p.balance, Amount::zero());
    assert_eq!(p.cost_base, Amount::zero());
    assert_eq!(p, Position::new(btc()));
    assert_ne!(p, Position::new(eth()));
    let held = Position { currency: btc(), balance: dec("1.0"), cost_base: dec("2") };
    assert_eq!(held, Position { currency: btc(), balance: dec("1"), cost_base: dec("2.00") });
    assert_ne!(held, p);
}

#[test]
fn test_valuation_currency_is_taken_at_cost_one() {
    let mut pf = Portfolio::with_valuation(Currency::new("EUR").unwrap());
    pf.deposit(Currency::new("EUR").unwrap(), dec("100"), dec("7")).unwrap();
    pf.deposit(usd(), dec("100"), dec("0.9")).unwrap();
    assert_eq!(pf.get(&Currency::new("EUR").unwrap()).unwrap().cost_base, dec("100"));
    assert_eq!(pf.get(&usd()).unwrap().cost_base, dec("90"));
    pf.add_tx(Tx::parse("1 btc for 50 eur").unwrap()).unwrap();
    assert_eq!(pf.get(&btc()).unwrap().cost_base, dec("50"));
    pf.add_tx(Tx::parse("1 eth for 50 usd").unwrap()).unwrap();
    assert_eq!(pf.get(&eth()).unwrap().cost_base, dec("45"));
    assert_eq!(pf.get(&usd()).unwrap().cost_base, dec("45"));
}

#[test]
fn test_buying_btc_decreases_usd_and_increases_btc_balance() {
    let mut pf = portfolio_with_1m_usd();

    let res = pf.add_tx(Tx::parse("10 btc for 100000 usd").unwrap());

    assert!(res.is_ok());
    assert_eq!(pf.get(&btc()).unwrap().balance, dec("10"));
    assert_eq!(pf.get(&usd()).unwrap().balance, dec("900000"));
}

#[test]
fn test_buying_btc_increases_cost_basis() {
    let mut pf = portfolio_with_1m_usd();

    pf.add_tx(Tx::parse("1 btc for 150000 usd").unwrap()).unwrap();

    let btc_pos = pf.get(&btc()).unwrap();
    assert_eq!(btc_pos.balance, dec("1"));
    assert_eq!(btc_pos.cost_base, dec("150000"));
    let usd_pos = pf.get(&usd()).unwrap();
    assert_eq!(usd_pos.balance, dec("850000"));
}

#[test]
fn test_buying_with_insufficient_funds_returns_error() {
    let mut pf = Portfolio::new();

    pf.deposit(usd(), dec("1000"), Amount::one()).unwrap();

    let res = pf.add_tx(Tx::parse("10 btc for 100000 usd").unwrap());

    assert!(res.is_err());
    assert_eq!(pf.get(&usd()).unwrap().balance, dec("1000"));
}

#[test]
fn test_buying_without_any_funds_returns_error() {
    let mut pf = Portfolio::new();

    let res = pf.add_tx(Tx::parse("1 btc for 10000 usd").unwrap());

    assert!(res.is_err());
    assert!(pf.get(&btc()).is_none());
    assert!(pf.get(&usd()).is_none());
    assert!(pf.positions().is_empty());
}

#[test]
fn test_selling_btc_increases_usd_and_decreases_btc_balance() {
    let mut pf = portfolio_with_10_btc();

    let res = pf.add_tx(Tx::parse("20000 usd for 1 btc").unwrap());

    assert!(res.is_ok());
    assert_eq!(pf.get(&btc()).unwrap().balance, dec("9"));
    assert_eq!(pf.get(&usd()).unwrap().balance, dec("20000"));
}

#[test]
fn test_selling_btc_decreases_cost_basis_proportionally() {
    let mut pf = portfolio_with_1m_usd();

    pf.add_tx(Tx::parse("10 btc for 100000 usd").unwrap()).unwrap();

    pf.add_tx(Tx::parse("60000 usd for 5 btc").unwrap()).unwrap();

    let btc_pos = pf.get(&btc()).unwrap();
    assert_eq!(btc_pos.balance, dec("5"));
    assert_eq!(btc_pos.cost_base, dec("50000"));
}

#[test]
fn test_selling_more_than_owned_returns_error() {
    let mut pf = portfolio_with_10_btc();

    let res = pf.add_tx(Tx::parse("100000 usd for 11 btc").unwrap());

    assert!(res.is_err());
    assert_eq!(pf.get(&btc()).unwrap().balance, dec("10"));
}

#[test]
fn test_oversell_leaves_every_balance_and_reports_the_shortfall() {
    let mut pf = portfolio_with_1m_usd();
    pf.add_tx(Tx::parse("10 btc for 100000 usd").unwrap()).unwrap();

    let err = pf.add_tx(Tx::parse("100000 usd for 10.00000001 btc").unwrap()).unwrap_err();

    assert_eq!(err.fault, LedgerFault::InsufficientBalance);
    assert_eq!(err.currency, btc());
    assert_eq!(err.balance, dec("10"));
    assert_eq!(err.needed, dec("10.00000001"));
    assert_eq!(err.message(), "Insufficient balance: BTC holds 10, needed 10.00000001");
    assert_eq!(pf.positions().len(), 2);
    assert_eq!(pf.get(&btc()).unwrap().balance, dec("10"));
    assert_eq!(pf.get(&btc()).unwrap().cost_base, dec("100000"));
    assert_eq!(pf.get(&usd()).unwrap().balance, dec("900000"));
    assert_eq!(pf.get(&usd()).unwrap().cost_base, dec("900000"));
}

#[test]
fn test_selling_entire_position_removes_asset() {
    let mut pf = portfolio_with_10_btc();

    pf.add_tx(Tx::parse("60000 usd for 10 btc").unwrap()).unwrap();

    let btc_pos = pf.get(&btc()).unwrap();
    assert_eq!(btc_pos.balance, dec("0"));
    assert_eq!(btc_pos.cost_base, dec("0"));
}

#[test]
fn test_buy_transactions_update_balances_correctly() {
    for (buy_tx, expected_btc, expected_usd) in [
        ("10 btc for 100000 usd", "10", "900000"),
        ("5 btc for 50000 usd", "5", "950000"),
        ("1 btc for 10000 usd", "1", "990000"),
    ] {
        let mut pf = portfolio_with_1m_usd();

        pf.add_tx(Tx::parse(buy_tx).unwrap()).unwrap();

        assert_eq!(pf.get(&btc()).unwrap().balance, dec(expected_btc));
        assert_eq!(pf.get(&usd()).unwrap().balance, dec(expected_usd));
    }
}

#[test]
fn test_sell_transactions_update_balances_correctly() {
    for (sell_tx, expected_btc, expected_usd) in [
        ("20000 usd for 1 btc", "9", "20000"),
        ("30000 usd for 2 btc", "8", "30000"),
        ("50000 usd for 5.15 btc", "4.85", "50000"),
    ] {
        let mut pf = portfolio_with_10_btc();

        pf.add_tx(Tx::parse(sell_tx).unwrap()).unwrap();

        assert_eq!(pf.get(&btc()).unwrap().balance, dec(expected_btc));
        assert_eq!(pf.get(&usd()).unwrap().balance, dec(expected_usd));
    }
}

#[test]
fn test_multiple_buys_accumulate_cost_basis() {
    let mut pf = portfolio_with_1m_usd();

    pf.add_tx(Tx::parse("1 btc for 40000 usd").unwrap()).unwrap();
    pf.add_tx(Tx::parse("1 btc for 50000 usd").unwrap()).unwrap();

    let btc_pos = pf.get(&btc()).unwrap();
    assert_eq!(btc_pos.balance, dec("2"));
    assert_eq!(btc_pos.cost_base, dec("90000"));
    assert_eq!(pf.get(&usd()).unwrap().balance, dec("910000"));
}

#[test]
fn test_buy_then_sell_then_buy_again() {
    let mut pf = portfolio_with_1m_usd();

    pf.add_tx(Tx::parse("2 btc for 100000 usd").unwrap()).unwrap();

    assert_eq!(pf.get(&btc()).unwrap().cost_base, dec("100000"));

    pf.add_tx(Tx::parse("60000 usd for 1 btc").unwrap()).unwrap();
    assert_eq!(pf.get(&btc()).unwrap().cost_base, dec("50000"));

    pf.add_tx(Tx::parse("1 btc for 55000 usd").unwrap()).unwrap();
    assert_eq!(pf.get(&btc()).unwrap().balance, dec("2"));
    assert_eq!(pf.get(&usd()).unwrap().balance, dec("905000"));
    assert_eq!(pf.get(&btc()).unwrap().cost_base, dec("105000"));
}

#[test]
fn test_exact_balance_transactions() {
    let mut pf = portfolio_with_1m_usd();

    let res = pf.add_tx(Tx::parse("10 btc for 1000000 usd").unwrap());

    assert!(res.is_ok());
    assert_eq!(pf.get(&usd()).unwrap().balance, dec("0"));
    assert_eq!(pf.get(&btc()).unwrap().balance, dec("10"));
}

#[test]
fn test_weighted_average_of_a_buy_with_all_funds() {
    let mut pf = portfolio_with_1m_usd();
    let x = Currency::new("ETH").unwrap();
    pf.add_tx(Tx { buy: x.clone(), buy_size: dec("10"), sell: usd(), sell_size: dec("1000000") })
        .unwrap();
    assert_eq!(pf.get(&x).unwrap().balance, dec("10"));
    assert_eq!(pf.get(&x).unwrap().cost_base, dec("1000000"));
    assert_eq!(pf.get(&usd()).unwrap().balance, dec("0"));
    assert_eq!(pf.get(&usd()).unwrap().cost_base, dec("0"));
}

#[test]
fn test_proportional_sell_halves_the_cost_base() {
    let mut pf = Portfolio::new();
    pf.deposit(btc(), dec("10"), dec("10000")).unwrap();
    assert_eq!(pf.get(&btc()).unwrap().cost_base, dec("100000"));
    pf.add_tx(Tx::parse("1 usd for 5 btc").unwrap()).unwrap();
    assert_eq!(pf.get(&btc()).unwrap().balance, dec("5"));
    assert_eq!(pf.get(&btc()).unwrap().cost_base, dec("50000"));
    assert_eq!(pf.get(&usd()).unwrap().balance, dec("1"));
    assert_eq!(pf.get(&usd()).unwrap().cost_base, dec("50000"));
}

#[test]
fn test_end_to_end_buy_then_sell() {
    let mut pf = Portfolio::new();
    assert!(pf.positions().is_empty());
    pf.deposit(usd(), dec("1000000"), Amount::one()).unwrap();
    pf.add_tx(Tx::parse("1 btc for 150000 usd").unwrap()).unwrap();
    pf.add_tx(Tx::parse("200000 usd for 1 btc").unwrap()).unwrap();
    let btc_pos = pf.get(&btc()).unwrap();
    assert_eq!(btc_pos.balance, dec("0"));
    assert_eq!(btc_pos.cost_base, dec("0"));
    assert_eq!(pf.get(&usd()).unwrap().balance, dec("1050000"));
    assert_eq!(pf.get(&usd()).unwrap().cost_base, dec("1000000"));
}

#[test]
fn test_balances_and_costs_stay_non_negative_through_a_replay() {
    let mut pf = portfolio_with_1m_usd();
    for text in [
        "2 btc for 100000 usd",
        "30 eth for 90000 usd",
        "60000 usd for 1 btc",
        "10 eth for 0.25 btc",
        "1 btc for 55000 usd",
        "5000 usd for 40 eth",
        "1000 usd for 1.75 btc",
    ] {
        pf.add_tx(Tx::parse(text).unwrap()).unwrap();
        for p in pf.positions().iter() {
            assert!(!p.balance.is_negative(), "{} balance after {}", p.currency.ticker(), text);
            assert!(!p.cost_base.is_negative(), "{} cost after {}", p.currency.ticker(), text);
        }
    }
    assert_eq!(pf.get(&btc()).unwrap().balance, dec("0"));
    assert_eq!(pf.get(&eth()).unwrap().balance, dec("0"));
}

#[test]
fn test_selling_from_an_empty_position_of_an_asset_is_refused() {
    let mut pf = portfolio_with_1m_usd();
    let err = pf.add_tx(Tx::parse("5 usd for 0 btc").unwrap()).unwrap_err();
    assert_eq!(err.fault, LedgerFault::Arithmetic);
    assert!(pf.get(&btc()).is_none());
    assert_eq!(pf.get(&usd()).unwrap().balance, dec("1000000"));
}

#[test]
fn test_exchange_of_a_currency_for_itself() {
    let mut pf = portfolio_with_1m_usd();
    pf.add_tx(Tx::parse("7 usd for 10 usd").unwrap()).unwrap();
    assert_eq!(pf.get(&usd()).unwrap().balance, dec("999997"));
    assert_eq!(pf.get(&usd()).unwrap().cost_base, dec("1000000"));
    assert_eq!(pf.positions().len(), 1);
}

#[test]
fn test_positions_keep_the_order_in_which_they_were_opened() {
    let mut pf = portfolio_with_1m_usd();
    pf.add_tx(Tx::parse("1 eth for 4000 usd").unwrap()).unwrap();
    pf.add_tx(Tx::parse("1 btc for 100000 usd").unwrap()).unwrap();
    pf.add_tx(Tx::parse("1 eth for 4000 usd").unwrap()).unwrap();
    let tickers: Vec<&str> = pf.positions().iter().map(|p| p.currency.ticker()).collect();
    assert_eq!(tickers, vec!["USD", "ETH", "BTC"]);
    let copy = pf.duplicate();
    assert_eq!(copy.positions().len(), 3);
    assert_eq!(copy.get(&eth()).unwrap().balance, dec("2"));
    assert_eq!(copy.valuation().ticker(), "USD");
}

#[test]
fn test_replay_folds_the_trades_in_order() {
    let mut pf = portfolio_with_1m_usd();
    let log = trades(
        "1704883200,BTC/USD,BUY,2,50000,10\n\
         1704883300,BTC/USD,SELL,1,60000,10\n\
         1704883400,ETH/USD,BUY,10,4000,5",
    );
    pf.replay(&log).unwrap();
    assert_eq!(pf.get(&btc()).unwrap().balance, dec("1"));
    assert_eq!(pf.get(&btc()).unwrap().cost_base, dec("50005"));
    assert_eq!(pf.get(&eth()).unwrap().balance, dec("10"));
    assert_eq!(pf.get(&eth()).unwrap().cost_base, dec("40005"));
    assert_eq!(pf.get(&usd()).unwrap().balance, dec("919975"));
}

#[test]
fn test_replay_stops_at_the_first_trade_that_fails() {
    let mut pf = Portfolio::new();
    pf.deposit(usd(), dec("100010"), Amount::one()).unwrap();
    let log = trades(
        "1704883200,BTC/USD,BUY,2,50000,10\n\
         1704883300,BTC/USD,SELL,3,60000,10\n\
         1704883400,BTC/USD,SELL,1,60000,10",
    );
    let err = pf.replay(&log).unwrap_err();
    assert_eq!(err.index, 1);
    assert_eq!(err.fault, ReplayFault::Ledger(LedgerFault::InsufficientBalance));
    assert_eq!(pf.get(&btc()).unwrap().balance, dec("2"));
    assert_eq!(pf.get(&usd()).unwrap().balance, dec("0"));
}

#[test]
fn test_replay_without_funds_fails_on_the_first_buy() {
    let mut pf = Portfolio::new();
    let log = trades("1704883200,BTC/USD,BUY,0.5,96450,37");
    let err = pf.replay(&log).unwrap_err();
    assert_eq!(err.index, 0);
    assert_eq!(err.fault, ReplayFault::Ledger(LedgerFault::InsufficientBalance));
    assert!(pf.positions().is_empty());
}

#[test]
fn test_replay_refuses_a_ticker_that_the_registry_does_not_hold() {
    let mut pf = portfolio_with_1m_usd();
    let log = trades("1704883200,USDT0/USD,BUY,1,1,1");
    let err = pf.replay(&log).unwrap_err();
    assert_eq!(err.fault, ReplayFault::Exchange(TxFault::UnsupportedTicker));
    assert_eq!(pf.positions().len(), 1);
}

#[test]
fn test_funded_replay_brings_the_cost_of_each_trade() {
    let mut pf = Portfolio::new();
    let log = trades(
        "1704883200,BTC/USD,BUY,1.0,40000.00,7.50\n\
         1710460800,BTC/USD,BUY,3,20000.00,10.00",
    );
    pf.replay_funded(&log).unwrap();
    assert_eq!(pf.get(&btc()).unwrap().balance, dec("4"));
    assert_eq!(pf.get(&btc()).unwrap().cost_base, dec("100017.5"));
    assert_eq!(pf.get(&usd()).unwrap().balance, dec("0"));
    assert_eq!(pf.get(&usd()).unwrap().cost_base, dec("0"));
}

#[test]
fn test_funded_replay_that_fails_leaves_the_portfolio() {
    let mut pf = Portfolio::new();
    let log = trades(
        "1704883200,BTC/USD,BUY,1,40000,10\n\
         1710460800,BTC/USD,SELL,2,50000,10",
    );
    let err = pf.replay_funded(&log).unwrap_err();
    assert_eq!(err.index, 1);
    assert_eq!(err.fault, ReplayFault::Ledger(LedgerFault::InsufficientBalance));
    assert_eq!(pf.get(&btc()).unwrap().balance, dec("1"));
    assert_eq!(pf.get(&usd()).unwrap().balance, dec("0"));
}

#[test]
fn test_from_csv_builds_the_portfolio_of_a_log() {
    let log = lines(
        "created_at,pair,side,amount,price,fee\n\
         1704883200,BTC/USD,BUY,0.5,96450,37\n\
         \n\
         1704883300,btc/usd,sell,0.25,100000,10\n",
    );
    let pf = Portfolio::from_csv(&log, NOW).unwrap();
    assert_eq!(pf.valuation().ticker(), "USD");
    assert_eq!(pf.get(&btc()).unwrap().balance, dec("0.25"));
    assert_eq!(pf.get(&btc()).unwrap().cost_base, dec("24131"));
    assert_eq!(pf.get(&usd()).unwrap().balance, dec("50000"));
}

#[test]
fn test_from_csv_reports_the_line_or_the_trade_at_fault() {
    let log = lines("created_at,pair,side,amount,price,fee\n1704883200,BTC/USD,BUY,0,96450,37");
    match Portfolio::from_csv(&log, NOW).unwrap_err() {
        CsvError::Log(e) => assert_eq!(e.line, 1),
        CsvError::Replay(_) => panic!("the line is at fault"),
    }
    let log = lines("created_at,pair,side,amount,price,fee\n1704883200,BTC/USD,SELL,1,96450,37");
    match Portfolio::from_csv(&log, NOW).unwrap_err() {
        CsvError::Replay(e) => {
            assert_eq!(e.index, 0);
            assert_eq!(e.fault, ReplayFault::Ledger(LedgerFault::InsufficientBalance));
        }
        CsvError::Log(_) => panic!("the trade is at fault"),
    }
    let empty = Portfolio::from_csv(&Vec::new(), NOW).unwrap();
    assert!(empty.positions().is_empty());
}

#[test]
fn test_cost_base_can_fall_below_zero_by_the_rounding_of_the_average() {
    let mut pf = Portfolio::new();
    pf.deposit(usd(), dec("2"), Amount::one()).unwrap();
    pf.add_tx(Tx::parse("3 btc for 2 usd").unwrap()).unwrap();
    assert_eq!(pf.get(&btc()).unwrap().cost_base, dec("2"));
    pf.add_tx(Tx::parse("5 usd for 3 btc").unwrap()).unwrap();
    let left = pf.get(&btc()).unwrap();
    assert_eq!(left.balance, dec("0"));
    assert_eq!(left.cost_base, dec("-0.0000000000000000000000000001"));
    assert_eq!(pf.get(&usd()).unwrap().cost_base, dec("2.0000000000000000000000000001"));
}
