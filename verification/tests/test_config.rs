use ibkr_nasdaq_scanner::models::scanner_config::read_threshold;
use ibkr_nasdaq_scanner::models::{ConfigError, Decimal, ScannerConfig};
use ibkr_nasdaq_scanner::utils::text::{parse_unsigned, same_text, split_trimmed};

fn vars(pairs: &[(&str, &str)]) -> Vec<(String, String)> {
    pairs.iter().map(|(k, v)| (k.to_string(), v.to_string())).collect()
}

#[test]
fn an_empty_environment_gives_the_defaults() {
    let config = ScannerConfig::from_env(&Vec::new()).expect("the defaults");
    assert_eq!(config.ibkr_gateway_host, "localhost");
    assert_eq!(config.ibkr_gateway_port, 5000);
    assert!(!config.ibkr_gateway_ssl);
    assert_eq!(config.min_profit_percent, Decimal::from_whole(2));
    assert_eq!(config.scan_interval_seconds, 300);
    assert_eq!(config.max_retry_attempts, 3);
    assert_eq!(config.request_timeout_seconds, 30);
    assert_eq!(config.option_chain_depth, 20);
    assert_eq!(config.nasdaq_stocks, vec!["AAPL", "MSFT", "GOOGL"]);
    assert_eq!(config.ibkr_account_id, "");
    assert_eq!(config.log_file_path, "./logs/scanner.log");
    assert_eq!(config.options_log_dir, "./logs/options/");
    assert_eq!(config.base_url(), "http://localhost:5000");
}

#[test]
fn what_is_set_is_taken() {
    let config = ScannerConfig::from_env(&vars(&[
        ("IBKR_GATEWAY_HOST", "gw.example"),
        ("IBKR_GATEWAY_PORT", "+8443"),
        ("IBKR_GATEWAY_SSL", "true"),
        ("MIN_PROFIT_PERCENT", "12.5"),
        ("SCAN_INTERVAL_SECONDS", "60"),
        ("MAX_RETRY_ATTEMPTS", "0"),
        ("REQUEST_TIMEOUT_SECONDS", "18446744073709551615"),
        ("OPTION_CHAIN_DEPTH", "7"),
        ("NASDAQ_STOCKS", " TSLA ,NVDA,, AMD\t"),
        ("IBKR_ACCOUNT_ID", "U1234567"),
        ("LOG_FILE_PATH", "/var/log/scan.log"),
        ("OPTIONS_LOG_DIR", "/var/log/options"),
        ("UNRELATED", "x"),
    ]))
    .expect("a configuration");
    assert_eq!(config.ibkr_gateway_host, "gw.example");
    assert_eq!(config.ibkr_gateway_port, 8443);
    assert!(config.ibkr_gateway_ssl);
    assert_eq!(config.min_profit_percent.units(), 125_000);
    assert_eq!(config.scan_interval_seconds, 60);
    assert_eq!(config.max_retry_attempts, 0);
    assert_eq!(config.request_timeout_seconds, u64::MAX);
    assert_eq!(config.option_chain_depth, 7);
    assert_eq!(config.nasdaq_stocks, vec!["TSLA", "NVDA", "", "AMD"]);
    assert_eq!(config.ibkr_account_id, "U1234567");
    assert_eq!(config.log_file_path, "/var/log/scan.log");
    assert_eq!(config.options_log_dir, "/var/log/options");
    assert_eq!(config.base_url(), "https://gw.example:8443");
}

#[test]
fn the_first_of_two_variables_of_one_name_counts() {
    let config = ScannerConfig::from_env(&vars(&[
        ("IBKR_GATEWAY_PORT", "1"),
        ("IBKR_GATEWAY_PORT", "2"),
    ]))
    .expect("a configuration");
    assert_eq!(config.ibkr_gateway_port, 1);
}

#[test]
fn tls_is_off_unless_the_switch_reads_true() {
    for text in ["false", "TRUE", "True", "1", "yes", "", " true"] {
        let config =
            ScannerConfig::from_env(&vars(&[("IBKR_GATEWAY_SSL", text)])).expect("a configuration");
        assert!(!config.ibkr_gateway_ssl);
        assert_eq!(config.base_url(), "http://localhost:5000");
    }
}

#[test]
fn a_port_that_is_none_is_refused() {
    for text in ["", "65536", "-1", "http", "80 ", "5e3", "+"] {
        let r = ScannerConfig::from_env(&vars(&[("IBKR_GATEWAY_PORT", text)]));
        assert_eq!(r.err(), Some(ConfigError::InvalidPort));
    }
    let r = ScannerConfig::from_env(&vars(&[("IBKR_GATEWAY_PORT", "65535")]));
    assert_eq!(r.expect("a configuration").ibkr_gateway_port, 65535);
}

#[test]
fn a_threshold_that_is_no_number_is_refused() {
    for text in ["", "two", "2,5", "2.0%", " 2", "1e", "e2", "2e1.5", "0x2", "1_0"] {
        let r = ScannerConfig::from_env(&vars(&[("MIN_PROFIT_PERCENT", text)]));
        assert_eq!(r.err(), Some(ConfigError::InvalidFloat));
    }
    let r = ScannerConfig::from_env(&vars(&[("MIN_PROFIT_PERCENT", "-1.25")]));
    assert_eq!(r.expect("a configuration").min_profit_percent.units(), -12_500);
}

#[test]
fn a_threshold_is_read_as_a_float_is() {
    let threshold = |text: &str| {
        ScannerConfig::from_env(&vars(&[("MIN_PROFIT_PERCENT", text)]))
            .expect("a configuration")
            .min_profit_percent
            .units()
    };
    assert_eq!(threshold("2"), 20_000);
    assert_eq!(threshold("2."), 20_000);
    assert_eq!(threshold(".5"), 5_000);
    assert_eq!(threshold("+2.5"), 25_000);
    assert_eq!(threshold("1e2"), 1_000_000);
    assert_eq!(threshold("1E2"), 1_000_000);
    assert_eq!(threshold("2E-1"), 2_000);
    assert_eq!(threshold("2.5e+1"), 250_000);
    assert_eq!(threshold("-1.5e0"), -15_000);
    assert_eq!(threshold("0.00005"), 0);
    assert_eq!(threshold("0.00015"), 2);
    assert_eq!(threshold("1e-9"), 0);
    for text in ["0", "2.0", "1e2", "2E-1", "12.5", "3.75e1", "1e-3", "100", "0.1"] {
        let float: f64 = text.parse().expect("a float");
        assert_eq!(threshold(text) as f64, (float * 10_000.0).round());
    }
}

#[test]
fn a_threshold_beyond_the_range_is_the_nearest_end() {
    for text in ["1e15", "1e20", "1e400", "922337203685477.5808", "1e99999999999999999999"] {
        let config = ScannerConfig::from_env(&vars(&[("MIN_PROFIT_PERCENT", text)]));
        assert_eq!(config.expect("a configuration").min_profit_percent.units(), i64::MAX);
    }
    for text in ["-1e15", "-1e400"] {
        let config = ScannerConfig::from_env(&vars(&[("MIN_PROFIT_PERCENT", text)]));
        assert_eq!(config.expect("a configuration").min_profit_percent.units(), i64::MIN);
    }
}

#[test]
fn a_threshold_in_words_is_an_end_of_the_range() {
    let threshold = |text: &str| {
        ScannerConfig::from_env(&vars(&[("MIN_PROFIT_PERCENT", text)]))
            .expect("a configuration")
            .min_profit_percent
            .units()
    };
    for text in ["inf", "+inf", "infinity", "INF", "Infinity", "+iNfInItY"] {
        assert_eq!(text.parse::<f64>(), Ok(f64::INFINITY));
        assert_eq!(threshold(text), i64::MAX);
    }
    for text in ["-inf", "-infinity", "-INF", "-Infinity"] {
        assert_eq!(text.parse::<f64>(), Ok(f64::NEG_INFINITY));
        assert_eq!(threshold(text), i64::MIN);
    }
    for text in ["nan", "NaN", "NAN", "+nan", "-NaN"] {
        assert!(text.parse::<f64>().expect("a float").is_nan());
        assert_eq!(threshold(text), i64::MAX);
    }
    for text in ["in", "infi", "infinit", "infinityy", "na", "nana", "inf ", " nan", "+-inf", "∞"] {
        assert!(text.parse::<f64>().is_err());
        let r = ScannerConfig::from_env(&vars(&[("MIN_PROFIT_PERCENT", text)]));
        assert_eq!(r.err(), Some(ConfigError::InvalidFloat));
    }
}

#[test]
fn a_threshold_is_refused_exactly_where_a_float_is() {
    let signs = ["", "+", "-", "+-", " "];
    let bodies = [
        "", "0", "7", "12", ".", ".5", "5.", "1.25", "1..2", "1,2", "a", "00.100", "inf", "Inf",
        "INFINITY", "infinite", "nan", "NaN", "nano", "e", "E",
    ];
    let exponents = ["", "e", "e0", "E3", "e+2", "e-2", "e--2", "e1.0", "e 1", "E+", "e400", "x1"];
    let mut taken = 0;
    for sign in signs {
        for body in bodies {
            for exponent in exponents {
                let text = format!("{}{}{}", sign, body, exponent);
                let float = text.parse::<f64>().is_ok();
                assert_eq!(read_threshold(&text).is_some(), float);
                let r = ScannerConfig::from_env(&vars(&[("MIN_PROFIT_PERCENT", &text)]));
                assert_eq!(r.is_ok(), float);
                if float {
                    taken += 1;
                }
            }
        }
    }
    assert_eq!(taken, 3 * (7 * 6 + 5));
}

#[test]
fn an_unsigned_integer_that_is_none_is_refused() {
    for name in [
        "SCAN_INTERVAL_SECONDS",
        "MAX_RETRY_ATTEMPTS",
        "REQUEST_TIMEOUT_SECONDS",
        "OPTION_CHAIN_DEPTH",
    ] {
        for text in ["", "-3", "3.0", "ten", "18446744073709551616"] {
            let r = ScannerConfig::from_env(&vars(&[(name, text)]));
            assert_eq!(r.err(), Some(ConfigError::InvalidUint));
        }
    }
    let r = ScannerConfig::from_env(&vars(&[("MAX_RETRY_ATTEMPTS", "4294967296")]));
    assert_eq!(r.err(), Some(ConfigError::InvalidUint));
    let r = ScannerConfig::from_env(&vars(&[("MAX_RETRY_ATTEMPTS", "4294967295")]));
    assert_eq!(r.expect("a configuration").max_retry_attempts, u32::MAX);
}

#[test]
fn the_first_setting_that_fails_decides_the_error() {
    let r = ScannerConfig::from_env(&vars(&[
        ("SCAN_INTERVAL_SECONDS", "x"),
        ("MIN_PROFIT_PERCENT", "x"),
        ("IBKR_GATEWAY_PORT", "x"),
    ]));
    assert_eq!(r.err(), Some(ConfigError::InvalidPort));
    let r = ScannerConfig::from_env(&vars(&[
        ("SCAN_INTERVAL_SECONDS", "x"),
        ("MIN_PROFIT_PERCENT", "x"),
    ]));
    assert_eq!(r.err(), Some(ConfigError::InvalidFloat));
}

#[test]
fn config_errors_have_messages() {
    assert_eq!(ConfigError::InvalidPort.to_string(), "Invalid port number");
    assert_eq!(ConfigError::InvalidFloat.to_string(), "Invalid floating point number");
    assert_eq!(ConfigError::InvalidUint.to_string(), "Invalid unsigned integer");
    assert_eq!(
        ConfigError::MissingEnv("IBKR_ACCOUNT_ID".to_string()).to_string(),
        "Missing required environment variable: IBKR_ACCOUNT_ID"
    );
}

#[test]
fn split_trimmed_splits_as_the_standard_library_does() {
    for text in ["", ",", "a", "a,b", " a , b ", ",a,,b,", "  ", "a\u{a0},\u{3000}b\u{2003}", "x y , z"] {
        let expected: Vec<String> = text.split(',').map(|s| s.trim().to_string()).collect();
        assert_eq!(split_trimmed(text, ','), expected);
    }
    assert_eq!(split_trimmed("", ','), vec![""]);
    assert_eq!(split_trimmed(" a ,b", ','), vec!["a", "b"]);
}

#[test]
fn parse_unsigned_reads_as_the_standard_library_does() {
    for text in ["0", "7", "+7", "007", "65535", "65536", "", "+", "-0", "-1", "1_000", " 1", "1 ", "٣", "99999999999999999999999"] {
        assert_eq!(parse_unsigned(text, u16::MAX as u64), text.parse::<u16>().ok().map(u64::from));
        assert_eq!(parse_unsigned(text, u64::MAX), text.parse::<u64>().ok());
    }
    assert_eq!(parse_unsigned("18446744073709551615", u64::MAX), Some(u64::MAX));
    assert_eq!(parse_unsigned("18446744073709551616", u64::MAX), None);
    assert_eq!(parse_unsigned("5", 4), None);
    assert_eq!(parse_unsigned("4", 4), Some(4));
}

#[test]
fn same_text_compares_characters() {
    assert!(same_text("", ""));
    assert!(same_text("AAPL", "AAPL"));
    assert!(!same_text("AAPL", "AAPl"));
    assert!(!same_text("AAPL", "AAP"));
    assert!(!same_text("", " "));
}
