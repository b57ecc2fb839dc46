use chrono::{DateTime, SecondsFormat, TimeZone, Utc};
use ibkr_nasdaq_scanner::models::{
    Decimal, OptionChain, OptionChainFilters, OptionType, StockList, Timestamp,
};

fn dec(value: f64) -> Decimal {
    Decimal::parse(&format!("{}", value)).expect("a decimal numeral")
}

fn float(value: Decimal) -> f64 {
    value.units() as f64 / 10_000.0
}

fn at(time: DateTime<Utc>) -> Timestamp {
    Timestamp::from_unix(time.timestamp(), time.timestamp_subsec_nanos()).expect("an instant")
}

#[test]
fn test_option_type_display() {
    let call = OptionType::Call;
    let put = OptionType::Put;

    assert_eq!(call.to_string(), "CALL");
    assert_eq!(put.to_string(), "PUT");

    assert_eq!(call.emoji(), "ðŸ“ˆ");
    assert_eq!(put.emoji(), "ðŸ“‰");
}

#[test]
fn test_option_chain_creation() {
    let expiration = at(Utc.with_ymd_and_hms(2024, 12, 20, 0, 0, 0).unwrap());

    let chain = OptionChain {
        symbol: "AAPL".to_string(),
        option_type: OptionType::Call,
        expiration,
        strike: dec(180.0),
        option_price: dec(2.50),
        stock_price: dec(185.0),
        profit_percent: dec(20.0),
        volume: 1000,
        implied_volatility: dec(0.25),
        timestamp: at(Utc::now()),
        contract_id: "123456".to_string(),
    };

    assert_eq!(chain.symbol, "AAPL");
    assert_eq!(float(chain.strike), 180.0);
    assert_eq!(float(chain.profit_percent), 20.0);
}

#[test]
fn glyphs_are_four_characters_each() {
    let call: Vec<char> = OptionType::Call.emoji().chars().collect();
    let put: Vec<char> = OptionType::Put.emoji().chars().collect();
    assert_eq!(call, vec!['\u{f0}', '\u{178}', '\u{201c}', '\u{2c6}']);
    assert_eq!(put, vec!['\u{f0}', '\u{178}', '\u{201c}', '\u{2030}']);
}

#[test]
fn default_filters() {
    let filters = OptionChainFilters::default();
    assert_eq!(filters.min_profit_percent, Decimal::from_whole(2));
    assert_eq!(filters.min_volume, 100);
    assert_eq!(filters.max_days_to_expiry, 45);
}

#[test]
fn stock_list_holds_a_placeholder_per_symbol() {
    let before = Utc::now().timestamp();
    let symbols = vec!["AAPL".to_string(), "MSFT".to_string(), "AAPL".to_string()];
    let list = StockList::from_symbols(&symbols);
    let after = Utc::now().timestamp();
    assert_eq!(list.stocks.len(), 3);
    for (stock, symbol) in list.stocks.iter().zip(symbols.iter()) {
        assert_eq!(&stock.symbol, symbol);
        assert_eq!(stock.name, "Unknown");
        assert_eq!(stock.current_price, Decimal::zero());
        assert_eq!(stock.market_cap, None);
        assert_eq!(stock.sector, None);
    }
    assert!(before <= list.last_updated.secs() && list.last_updated.secs() <= after);
    assert!(StockList::from_symbols(&[]).stocks.is_empty());
}

#[test]
fn stock_list_carries_the_stamp_given() {
    let stamp = Timestamp::from_unix(1_734_652_800, 7).expect("an instant");
    let list = StockList::stamped(&["TSLA".to_string()], stamp);
    assert_eq!(list.last_updated, stamp);
    assert_eq!(list.stocks.len(), 1);
    assert_eq!(list.stocks[0].symbol, "TSLA");
    assert_eq!(list.stocks[0].name, "Unknown");
}

#[test]
fn timestamp_takes_what_chrono_takes() {
    let t = Timestamp::from_unix(1_734_652_800, 0).expect("an instant");
    assert_eq!(t.secs(), 1_734_652_800);
    assert_eq!(t.nanos(), 0);
    assert!(Timestamp::from_unix(-1, 999_999_999).is_some());
    // a leap second is written as a nanosecond count above one second
    assert!(Timestamp::from_unix(1_734_652_799, 1_500_000_000).is_some());
    assert!(Timestamp::from_unix(1_734_652_800, 1_500_000_000).is_none());
    assert!(Timestamp::from_unix(1_734_652_800, 2_000_000_000).is_none());
    assert!(Timestamp::from_unix(i64::MAX, 0).is_none());
    assert!(Timestamp::from_unix(i64::MIN, 0).is_none());
}

#[test]
fn timestamp_is_written_as_chrono_writes_it() {
    let t = Timestamp::from_unix(1_734_652_800, 0).expect("an instant");
    assert_eq!(t.to_rfc3339(), "2024-12-20T00:00:00Z");
    assert_eq!(t.to_string(), "2024-12-20 00:00:00 UTC");
    assert_eq!(t.compact_date(), "20241220");
    assert_eq!(t.dashed_date(), "2024-12-20");

    let t = Timestamp::from_unix(1_735_787_045, 250_000_000).expect("an instant");
    assert_eq!(t.to_rfc3339(), "2025-01-02T03:04:05.250Z");
    assert_eq!(t.to_string(), "2025-01-02 03:04:05.250 UTC");
    assert_eq!(t.compact_date(), "20250102");
    assert_eq!(t.dashed_date(), "2025-01-02");

    let t = Timestamp::from_unix(-1, 0).expect("an instant");
    assert_eq!(t.to_rfc3339(), "1969-12-31T23:59:59Z");
    assert_eq!(t.compact_date(), "19691231");
}

#[test]
fn timestamp_agrees_with_chrono_on_any_instant() {
    for (secs, nanos) in [(0i64, 0u32), (951_782_400, 1), (4_102_444_799, 999_999_999)] {
        let ours = Timestamp::from_unix(secs, nanos).expect("an instant");
        let theirs = DateTime::from_timestamp(secs, nanos).expect("an instant");
        assert_eq!(ours.to_rfc3339(), theirs.to_rfc3339_opts(SecondsFormat::AutoSi, true));
        assert_eq!(ours.to_string(), theirs.to_string());
        assert_eq!(ours.compact_date(), theirs.format("%Y%m%d").to_string());
        assert_eq!(ours.dashed_date(), theirs.format("%Y-%m-%d").to_string());
    }
}

#[test]
fn now_is_now() {
    let before = Utc::now();
    let now = Timestamp::now();
    let after = Utc::now();
    let now = DateTime::from_timestamp(now.secs(), now.nanos()).expect("an instant");
    assert!(before <= now && now <= after);
}

#[test]
fn timestamp_reaches_from_the_first_second_to_the_last() {
    let first = -8_334_601_228_800i64;
    let last = 8_210_266_876_799i64;
    assert_eq!(first, ibkr_nasdaq_scanner::models::timestamp::FIRST_SECOND);
    assert_eq!(last, ibkr_nasdaq_scanner::models::timestamp::LAST_SECOND);
    assert_eq!(Timestamp::from_unix(first, 0).expect("an instant").to_rfc3339(), "-262143-01-01T00:00:00Z");
    assert_eq!(
        Timestamp::from_unix(last, 999_999_999).expect("an instant").to_rfc3339(),
        "+262142-12-31T23:59:59.999999999Z"
    );
    assert!(Timestamp::from_unix(first - 1, 0).is_none());
    assert!(Timestamp::from_unix(first - 1, 999_999_999).is_none());
    assert!(Timestamp::from_unix(last + 1, 0).is_none());
    assert!(Timestamp::from_unix(last, 1_999_999_999).is_some());
    assert_eq!(DateTime::<Utc>::MIN_UTC.timestamp(), first);
    assert_eq!(DateTime::<Utc>::MAX_UTC.timestamp(), last);
}

#[test]
fn timestamp_takes_a_leap_second_in_the_last_second_of_a_minute() {
    for secs in [-61i64, -60, -1, 0, 58, 59, 60, 119, 1_734_652_799, 1_734_652_800, -8_334_601_228_741] {
        let last_of_minute = secs.rem_euclid(60) == 59;
        for nanos in [0u32, 999_999_999, 1_000_000_000, 1_999_999_999, 2_000_000_000, u32::MAX] {
            let expected = nanos < 1_000_000_000 || (nanos < 2_000_000_000 && last_of_minute);
            assert_eq!(Timestamp::from_unix(secs, nanos).is_some(), expected);
            assert_eq!(DateTime::from_timestamp(secs, nanos).is_some(), expected);
        }
    }
}
