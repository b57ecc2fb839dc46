use ibkr_nasdaq_scanner::models::{Decimal, OptionChain, OptionType, Timestamp};
use ibkr_nasdaq_scanner::scanner::logger::{LoggerError, OptionLogger};

fn dec(value: f64) -> Decimal {
    Decimal::parse(&format!("{}", value)).expect("a decimal numeral")
}

fn noon() -> Timestamp {
    // 2025-01-02T03:04:05Z
    Timestamp::from_unix(1_735_787_045, 0).expect("an instant")
}

fn option(symbol: &str, kind: OptionType, strike: f64, profit: f64) -> OptionChain {
    OptionChain {
        symbol: symbol.to_string(),
        option_type: kind,
        expiration: Timestamp::from_unix(1_734_652_800, 0).expect("an instant"),
        strike: dec(strike),
        option_price: dec(2.5),
        stock_price: dec(185.0),
        profit_percent: dec(profit),
        volume: 1000,
        implied_volatility: dec(0.25),
        timestamp: Timestamp::from_unix(1_735_787_000, 500_000_000).expect("an instant"),
        contract_id: "123456".to_string(),
    }
}

#[test]
fn logger_keeps_its_directory() {
    assert_eq!(OptionLogger::new("./logs/options/").log_dir(), "./logs/options/");
    assert_eq!(OptionLogger::new("").log_dir(), "");
}

#[test]
fn files_are_named_after_the_day() {
    let logger = OptionLogger::new("logs");
    assert_eq!(logger.record_file_name(&noon()), "options_20250102.csv");
    assert_eq!(logger.summary_file_name(&noon()), "summary_20250102.txt");
    let last_second = Timestamp::from_unix(1_735_775_999, 999_999_999).expect("an instant");
    assert_eq!(logger.record_file_name(&last_second), "options_20250101.csv");
    assert_eq!(logger.summary_file_name(&last_second), "summary_20250101.txt");
}

#[test]
fn an_empty_result_asks_for_no_file() {
    let logger = OptionLogger::new("logs");
    assert!(logger.log_options(&Vec::new(), &noon(), false).is_none());
    assert!(logger.log_options(&Vec::new(), &noon(), true).is_none());
}

#[test]
fn the_header_names_the_columns() {
    let logger = OptionLogger::new("logs");
    assert_eq!(
        logger.header(),
        vec![
            "timestamp",
            "symbol",
            "option_type",
            "type_emoji",
            "expiration",
            "strike",
            "option_price",
            "stock_price",
            "profit_percent",
            "volume",
            "implied_volatility",
            "contract_id",
        ]
    );
}

#[test]
fn a_record_holds_a_field_per_column() {
    let logger = OptionLogger::new("logs");
    let row = logger.record_row(&option("AAPL", OptionType::Call, 180.0, 20.0));
    assert_eq!(
        row,
        vec![
            "2025-01-02T03:03:20.500Z",
            "AAPL",
            "CALL",
            "ðŸ“ˆ",
            "2024-12-20T00:00:00Z",
            "180.0000",
            "2.5000",
            "185.0000",
            "20.0000",
            "1000",
            "0.2500",
            "123456",
        ]
    );
    let mut put = option("MSFT", OptionType::Put, 400.125, 3.0);
    put.volume = -7;
    let row = logger.record_row(&put);
    assert_eq!(row[2], "PUT");
    assert_eq!(row[3], "ðŸ“‰");
    assert_eq!(row[5], "400.1250");
    assert_eq!(row[9], "-7");
    assert_eq!(row.len(), logger.header().len());
}

#[test]
fn a_new_record_file_gets_the_header_and_an_old_one_does_not() {
    let logger = OptionLogger::new("logs");
    let options = vec![
        option("AAPL", OptionType::Call, 180.0, 20.0),
        option("MSFT", OptionType::Put, 400.0, 3.0),
    ];
    let plan = logger.log_options(&options, &noon(), false).expect("a plan");
    assert_eq!(plan.record_file, "options_20250102.csv");
    assert_eq!(plan.summary_file, "summary_20250102.txt");
    assert_eq!(plan.rows.len(), 3);
    assert_eq!(plan.rows[0], logger.header());
    assert_eq!(plan.rows[1], logger.record_row(&options[0]));
    assert_eq!(plan.rows[2], logger.record_row(&options[1]));
    assert_eq!(plan.summary, logger.create_summary_log(&options, &noon()));

    let plan = logger.log_options(&options, &noon(), true).expect("a plan");
    assert_eq!(plan.rows.len(), 2);
    assert_eq!(plan.rows[0], logger.record_row(&options[0]));
    assert_eq!(plan.rows[1], logger.record_row(&options[1]));
}

#[test]
fn the_summary_groups_by_symbol_in_order_of_first_appearance() {
    let logger = OptionLogger::new("logs");
    let options = vec![
        option("MSFT", OptionType::Put, 400.0, 3.0),
        option("AAPL", OptionType::Call, 180.0, 20.0),
        option("MSFT", OptionType::Call, 410.005, 12.345),
        option("AAPL", OptionType::Put, 175.0, 2.0),
        option("MSFT", OptionType::Put, 390.0, 7.5),
    ];
    let lines = logger.create_summary_log(&options, &noon());
    assert_eq!(
        lines,
        vec![
            "Option Scan Summary - 2025-01-02 03:04:05 UTC",
            "======================================",
            "Total profitable options found: 5",
            "",
            "MSFT: 3 options",
            "  ðŸ“‰ PUT: Strike $400.00, Option $2.50, Profit 3.00%",
            "  ðŸ“ˆ CALL: Strike $410.00, Option $2.50, Profit 12.34%",
            "  ðŸ“‰ PUT: Strike $390.00, Option $2.50, Profit 7.50%",
            "",
            "AAPL: 2 options",
            "  ðŸ“ˆ CALL: Strike $180.00, Option $2.50, Profit 20.00%",
            "  ðŸ“‰ PUT: Strike $175.00, Option $2.50, Profit 2.00%",
            "",
        ]
    );
}

#[test]
fn the_summary_of_nothing_is_its_heading() {
    let logger = OptionLogger::new("logs");
    let lines = logger.create_summary_log(&Vec::new(), &noon());
    assert_eq!(
        lines,
        vec![
            "Option Scan Summary - 2025-01-02 03:04:05 UTC",
            "======================================",
            "Total profitable options found: 0",
            "",
        ]
    );
}

#[test]
fn logger_errors_have_messages() {
    assert_eq!(LoggerError::IoError("disk full".to_string()).to_string(), "IO error: disk full");
    assert_eq!(LoggerError::CsvError("bad row".to_string()).to_string(), "CSV error: bad row");
}
