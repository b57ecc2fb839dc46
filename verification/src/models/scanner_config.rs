//! The settings of a scanner, read once from the environment that the
//! program hands over.

use crate::models::decimal::{decimal_units, Decimal};
use crate::utils::text::{
    chars_of, decimal_text, parse_unsigned, push_decimal, push_text, same_text, split_trimmed,
    texts, trimmed_fields, unsigned_value,
};
use vstd::prelude::*;

verus! {

/// Why a configuration could not be read.
#[derive(Clone, Debug, PartialEq, Eq)]
pub enum ConfigError {
    /// The port is no number from 0 to 65535.
    InvalidPort,
    /// The profit threshold cannot be read as a floating-point number.
    InvalidFloat,
    /// An interval, a count or a depth is no unsigned integer of its width.
    InvalidUint,
    /// A variable that must be set is not. No setting of this crate is of
    /// that kind: each has a default.
    MissingEnv(String),
}

impl ConfigError {
    /// The message of the error.
    pub open spec fn message(self) -> Seq<char> {
        match self {
            ConfigError::InvalidPort => "Invalid port number"@,
            ConfigError::InvalidFloat => "Invalid floating point number"@,
            ConfigError::InvalidUint => "Invalid unsigned integer"@,
            ConfigError::MissingEnv(name) => "Missing required environment variable: "@ + name@,
        }
    }

    /// The message of the error.
    pub fn to_string(&self) -> (s: String)
        ensures
            s@ == self.message(),
    {
        match self {
            ConfigError::InvalidPort => "Invalid port number".to_string(),
            ConfigError::InvalidFloat => "Invalid floating point number".to_string(),
            ConfigError::InvalidUint => "Invalid unsigned integer".to_string(),
            ConfigError::MissingEnv(name) => {
                let mut s = "Missing required environment variable: ".to_string();
                push_text(&mut s, name.as_str());
                s
            },
        }
    }
}

/// The value of the first variable named `key`, if there is one.
pub open spec fn lookup(vars: Seq<(String, String)>, key: Seq<char>) -> Option<Seq<char>>
    decreases vars.len(),
{
    if vars.len() == 0 {
        None
    } else if vars[0].0@ == key {
        Some(vars[0].1@)
    } else {
        lookup(vars.drop_first(), key)
    }
}

/// The value of the variable named `key`, or `default` where it is not set.
pub open spec fn setting(vars: Seq<(String, String)>, key: Seq<char>, default: Seq<char>) -> Seq<
    char,
> {
    match lookup(vars, key) {
        Some(value) => value,
        None => default,
    }
}

/// The unsigned integer that the variable `key` holds, where it writes one
/// that is at most `limit`.
pub open spec fn unsigned_setting(
    vars: Seq<(String, String)>,
    key: Seq<char>,
    default: Seq<char>,
    limit: nat,
) -> Option<nat> {
    match unsigned_value(setting(vars, key, default)) {
        Some(n) => if n <= limit {
            Some(n)
        } else {
            None
        },
        None => None,
    }
}

/// The port of the gateway, 5000 unless set.
pub open spec fn port_setting(vars: Seq<(String, String)>) -> Option<nat> {
    unsigned_setting(vars, "IBKR_GATEWAY_PORT"@, "5000"@, u16::MAX as nat)
}

/// The small letter of a capital letter of ASCII, and any other character
/// itself.
pub open spec fn small(c: char) -> char {
    if 65 <= c as int <= 90 {
        (c as int + 32) as char
    } else {
        c
    }
}

/// `s` in small letters.
pub open spec fn in_small_letters(s: Seq<char>) -> Seq<char> {
    Seq::new(s.len(), |i: int| small(s[i]))
}

/// The threshold that a word writes. The words are those by which the
/// standard library reads an infinity or what is no number, in letters of
/// either size and with an optional sign. No profit reaches a threshold of
/// infinity or one that is no number, and the largest `Decimal` stands for
/// both; every profit reaches a threshold of negative infinity, and the
/// smallest `Decimal` stands for it. `None` for any other text.
pub open spec fn threshold_in_words(s: Seq<char>) -> Option<int> {
    let negative = s.len() > 0 && s[0] == '-';
    let signed = s.len() > 0 && (s[0] == '-' || s[0] == '+');
    let word = in_small_letters(
        if signed {
            s.skip(1)
        } else {
            s
        },
    );
    if word == "inf"@ || word == "infinity"@ {
        Some(
            if negative {
                i64::MIN as int
            } else {
                i64::MAX as int
            },
        )
    } else if word == "nan"@ {
        Some(i64::MAX as int)
    } else {
        None
    }
}

/// The threshold that a text writes, in ten-thousandths of a percent. The
/// texts are those that the standard library reads as a floating-point
/// number: a numeral, with or without an exponent and whatever its size,
/// gives the `Decimal` nearest to the number written (see
/// [`decimal_units`]), and a word gives what [`threshold_in_words`] says.
/// `None` for any other text.
pub open spec fn threshold_units(s: Seq<char>) -> Option<int> {
    match decimal_units(s) {
        Some(units) => Some(units),
        None => threshold_in_words(s),
    }
}

/// The profit threshold in ten-thousandths of a percent, two percent
/// unless set.
pub open spec fn threshold_setting(vars: Seq<(String, String)>) -> Option<int> {
    threshold_units(setting(vars, "MIN_PROFIT_PERCENT"@, "2.0"@))
}

/// The seconds between two cycles, 300 unless set.
pub open spec fn interval_setting(vars: Seq<(String, String)>) -> Option<nat> {
    unsigned_setting(vars, "SCAN_INTERVAL_SECONDS"@, "300"@, u64::MAX as nat)
}

/// The number of attempts that a request is given, 3 unless set.
pub open spec fn retry_setting(vars: Seq<(String, String)>) -> Option<nat> {
    unsigned_setting(vars, "MAX_RETRY_ATTEMPTS"@, "3"@, u32::MAX as nat)
}

/// The seconds that a request may take, 30 unless set.
pub open spec fn timeout_setting(vars: Seq<(String, String)>) -> Option<nat> {
    unsigned_setting(vars, "REQUEST_TIMEOUT_SECONDS"@, "30"@, u64::MAX as nat)
}

/// The number of strikes asked for on either side of the money, 20 unless
/// set.
pub open spec fn depth_setting(vars: Seq<(String, String)>) -> Option<nat> {
    unsigned_setting(vars, "OPTION_CHAIN_DEPTH"@, "20"@, usize::MAX as nat)
}

/// The error that reading `vars` ends in, if any. The settings are read in
/// a fixed order and the first one that cannot be read decides: the port,
/// then the profit threshold, then the unsigned integers.
pub open spec fn config_error(vars: Seq<(String, String)>) -> Option<ConfigError> {
    if port_setting(vars) is None {
        Some(ConfigError::InvalidPort)
    } else if threshold_setting(vars) is None {
        Some(ConfigError::InvalidFloat)
    } else if interval_setting(vars) is None || retry_setting(vars) is None || timeout_setting(
        vars,
    ) is None || depth_setting(vars) is None {
        Some(ConfigError::InvalidUint)
    } else {
        None
    }
}

/// The settings of a scanner.
#[derive(Clone, Debug)]
pub struct ScannerConfig {
    pub ibkr_gateway_host: String,
    pub ibkr_gateway_port: u16,
    pub ibkr_gateway_ssl: bool,
    pub min_profit_percent: Decimal,
    pub scan_interval_seconds: u64,
    pub max_retry_attempts: u32,
    pub request_timeout_seconds: u64,
    pub option_chain_depth: usize,
    pub nasdaq_stocks: Vec<String>,
    pub ibkr_account_id: String,
    pub log_file_path: String,
    pub options_log_dir: String,
}

fn read_setting(vars: &Vec<(String, String)>, key: &str, default: &str) -> (value: String)
    ensures
        value@ == setting(vars@, key@, default@),
{
    let mut i: usize = 0;
    assert(vars@.skip(0) =~= vars@);
    while i < vars.len()
        invariant
            i <= vars.len(),
            lookup(vars@, key@) == lookup(vars@.skip(i as int), key@),
        decreases vars.len() - i,
    {
        let ghost rest = vars@.skip(i as int);
        assert(rest[0] == vars@[i as int]);
        assert(rest.drop_first() =~= vars@.skip(i + 1));
        if same_text(vars[i].0.as_str(), key) {
            return vars[i].1.clone();
        }
        i += 1;
    }
    assert(vars@.skip(i as int).len() == 0);
    default.to_string()
}

fn read_unsigned(vars: &Vec<(String, String)>, key: &str, default: &str, limit: u64) -> (r: Option<
    u64,
>)
    ensures
        match unsigned_setting(vars@, key@, default@, limit as nat) {
            Some(n) => r == Some(n as u64),
            None => r is None,
        },
{
    let text = read_setting(vars, key, default);
    parse_unsigned(text.as_str(), limit)
}

/// Reads a threshold; see [`threshold_units`].
pub fn read_threshold(text: &str) -> (r: Option<Decimal>)
    ensures
        match threshold_units(text@) {
            Some(units) => r matches Some(d) && d@ == units,
            None => r is None,
        },
{
    if let Some(threshold) = Decimal::parse(text) {
        return Some(threshold);
    }
    let chars = chars_of(text);
    let n = chars.len();
    let negative = n > 0 && chars[0] == '-';
    let start: usize = if n > 0 && (chars[0] == '-' || chars[0] == '+') {
        1
    } else {
        0
    };
    let ghost body = chars@.subrange(start as int, n as int);
    assert(body =~= if start == 1 {
        text@.skip(1)
    } else {
        text@
    });
    let mut word = String::new();
    let mut i: usize = start;
    while i < n
        invariant
            start <= i <= n == chars.len(),
            word@ == in_small_letters(chars@.subrange(start as int, i as int)),
        decreases n - i,
    {
        let c = chars[i];
        let lower = if c >= 'A' && c <= 'Z' {
            (c as u8 + 32u8) as char
        } else {
            c
        };
        assert(lower == small(c));
        word.push(lower);
        i += 1;
        assert(word@ =~= in_small_letters(chars@.subrange(start as int, i as int)));
    }
    if same_text(word.as_str(), "inf") || same_text(word.as_str(), "infinity") {
        Some(
            Decimal::from_units(
                if negative {
                    i64::MIN
                } else {
                    i64::MAX
                },
            ),
        )
    } else if same_text(word.as_str(), "nan") {
        Some(Decimal::from_units(i64::MAX))
    } else {
        None
    }
}

impl ScannerConfig {
    /// Whether `self` holds what `vars` sets, and the default of each
    /// setting that `vars` leaves out.
    pub open spec fn reflects(self, vars: Seq<(String, String)>) -> bool {
        &&& self.ibkr_gateway_host@ == setting(vars, "IBKR_GATEWAY_HOST"@, "localhost"@)
        &&& port_setting(vars) == Some(self.ibkr_gateway_port as nat)
        &&& self.ibkr_gateway_ssl == (setting(vars, "IBKR_GATEWAY_SSL"@, "false"@) == "true"@)
        &&& threshold_setting(vars) == Some(self.min_profit_percent@)
        &&& interval_setting(vars) == Some(self.scan_interval_seconds as nat)
        &&& retry_setting(vars) == Some(self.max_retry_attempts as nat)
        &&& timeout_setting(vars) == Some(self.request_timeout_seconds as nat)
        &&& depth_setting(vars) == Some(self.option_chain_depth as nat)
        &&& texts(self.nasdaq_stocks@) == trimmed_fields(
            setting(vars, "NASDAQ_STOCKS"@, "AAPL,MSFT,GOOGL"@),
            ',',
        )
        &&& self.ibkr_account_id@ == setting(vars, "IBKR_ACCOUNT_ID"@, ""@)
        &&& self.log_file_path@ == setting(vars, "LOG_FILE_PATH"@, "./logs/scanner.log"@)
        &&& self.options_log_dir@ == setting(vars, "OPTIONS_LOG_DIR"@, "./logs/options/"@)
    }

    /// The address of the gateway: scheme, host and port.
    pub open spec fn address(self) -> Seq<char> {
        (if self.ibkr_gateway_ssl {
            "https"@
        } else {
            "http"@
        }) + "://"@ + self.ibkr_gateway_host@ + ":"@ + decimal_text(self.ibkr_gateway_port as nat)
    }

    /// Reads the settings from the variables of the environment, given as
    /// pairs of name and value. A variable that is not set takes its
    /// default; one that is set and cannot be read is an error, except the
    /// switch for TLS, which is off unless it reads `true`.
    ///
    /// The integers are read as the standard library reads them. The profit
    /// threshold is read by the grammar by which the standard library reads
    /// a floating-point number, and every text of that grammar gives a
    /// threshold: a numeral the `Decimal` nearest to the number written,
    /// and a word for infinity or for what is no number the end of the range
    /// that stands for it; see [`threshold_units`].
    pub fn from_env(vars: &Vec<(String, String)>) -> (r: Result<ScannerConfig, ConfigError>)
        ensures
            match r {
                Ok(config) => config_error(vars@) is None && config.reflects(vars@),
                Err(e) => config_error(vars@) == Some(e),
            },
    {
        let ibkr_gateway_host = read_setting(vars, "IBKR_GATEWAY_HOST", "localhost");
        let ibkr_gateway_port = match read_unsigned(vars, "IBKR_GATEWAY_PORT", "5000", 0xffff) {
            Some(port) => port as u16,
            None => {
                return Err(ConfigError::InvalidPort);
            },
        };
        let ssl_text = read_setting(vars, "IBKR_GATEWAY_SSL", "false");
        let ibkr_gateway_ssl = same_text(ssl_text.as_str(), "true");
        let threshold_text = read_setting(vars, "MIN_PROFIT_PERCENT", "2.0");
        let min_profit_percent = match read_threshold(threshold_text.as_str()) {
            Some(threshold) => threshold,
            None => {
                return Err(ConfigError::InvalidFloat);
            },
        };
        let scan_interval_seconds = match read_unsigned(
            vars,
            "SCAN_INTERVAL_SECONDS",
            "300",
            u64::MAX,
        ) {
            Some(seconds) => seconds,
            None => {
                return Err(ConfigError::InvalidUint);
            },
        };
        let max_retry_attempts = match read_unsigned(
            vars,
            "MAX_RETRY_ATTEMPTS",
            "3",
            0xffff_ffff,
        ) {
            Some(attempts) => attempts as u32,
            None => {
                return Err(ConfigError::InvalidUint);
            },
        };
        let request_timeout_seconds = match read_unsigned(
            vars,
            "REQUEST_TIMEOUT_SECONDS",
            "30",
            u64::MAX,
        ) {
            Some(seconds) => seconds,
            None => {
                return Err(ConfigError::InvalidUint);
            },
        };
        let option_chain_depth = match read_unsigned(
            vars,
            "OPTION_CHAIN_DEPTH",
            "20",
            usize::MAX as u64,
        ) {
            Some(depth) => depth as usize,
            None => {
                return Err(ConfigError::InvalidUint);
            },
        };
        let stocks_text = read_setting(vars, "NASDAQ_STOCKS", "AAPL,MSFT,GOOGL");
        let nasdaq_stocks = split_trimmed(stocks_text.as_str(), ',');
        let ibkr_account_id = read_setting(vars, "IBKR_ACCOUNT_ID", "");
        let log_file_path = read_setting(vars, "LOG_FILE_PATH", "./logs/scanner.log");
        let options_log_dir = read_setting(vars, "OPTIONS_LOG_DIR", "./logs/options/");
        Ok(
            ScannerConfig {
                ibkr_gateway_host,
                ibkr_gateway_port,
                ibkr_gateway_ssl,
                min_profit_percent,
                scan_interval_seconds,
                max_retry_attempts,
                request_timeout_seconds,
                option_chain_depth,
                nasdaq_stocks,
                ibkr_account_id,
                log_file_path,
                options_log_dir,
            },
        )
    }

    /// The address of the gateway, as in `http://localhost:5000`.
    pub fn base_url(&self) -> (url: String)
        ensures
            url@ == self.address(),
    {
        let mut url = if self.ibkr_gateway_ssl {
            "https".to_string()
        } else {
            "http".to_string()
        };
        push_text(&mut url, "://");
        push_text(&mut url, self.ibkr_gateway_host.as_str());
        push_text(&mut url, ":");
        push_decimal(&mut url, self.ibkr_gateway_port as u128);
        url
    }
}

} // verus!
