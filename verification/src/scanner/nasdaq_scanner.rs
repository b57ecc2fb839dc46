//! The scan cycle. A scanner tests the connection once, then walks through
//! its symbols again and again: for each it asks for the price of the stock
//! and then for the option chain, prices every contract, keeps those that
//! reach the profit threshold, and after the last symbol hands what it kept
//! to the logger and to the display before it sleeps.
//!
//! The scanner itself sends nothing and waits for nothing. It is a state
//! machine: [`NasdaqScanner::run_scanner`] takes what happened and says what
//! is to be done next, and the program around it does that and reports back.

use crate::api::ibkr_client::{IbkrClient, IbkrError};
use crate::models::decimal::{fixed_point_text, push_fixed_point, Decimal};
use crate::models::option_chain::OptionChain;
use crate::models::scanner_config::{config_error, ScannerConfig};
use crate::models::timestamp::{strftime_text, DASHED_DATE};
use crate::scanner::logger::{table, LoggerError, OptionLogger};
use crate::scanner::profit_calculator::{calculate_profit_percent, profit_percent};
use crate::utils::helpers::{currency_text, percent_text, push_currency, push_percent};
use crate::utils::sequences::{lemma_filter_empty, lemma_filter_idempotent, lemma_filter_step};
use crate::utils::text::{
    integer_text, push_cell, push_integer, push_text, push_text_cell, texts,
};
use vstd::prelude::*;

verus! {

/// Why a scanner stopped.
#[derive(Clone, Debug, PartialEq, Eq)]
pub enum ScannerError {
    /// The gateway could not be asked.
    IbkrError(IbkrError),
    /// A file could not be read or written.
    IoError(String),
    /// The configuration could not be read, or the gateway that it names is
    /// not there.
    ConfigError(String),
    /// The results could not be written.
    LoggerError(LoggerError),
}

impl ScannerError {
    /// The message of the error.
    pub open spec fn message(self) -> Seq<char> {
        match self {
            ScannerError::IbkrError(e) => "IBKR API error: "@ + e.message(),
            ScannerError::IoError(cause) => "IO error: "@ + cause@,
            ScannerError::ConfigError(cause) => "Configuration error: "@ + cause@,
            ScannerError::LoggerError(e) => "Logging error: "@ + e.message(),
        }
    }

    /// The message of the error.
    pub fn to_string(&self) -> (s: String)
        ensures
            s@ == self.message(),
    {
        match self {
            ScannerError::IbkrError(e) => {
                let mut s = "IBKR API error: ".to_string();
                let cause = e.to_string();
                push_text(&mut s, cause.as_str());
                s
            },
            ScannerError::IoError(cause) => {
                let mut s = "IO error: ".to_string();
                push_text(&mut s, cause.as_str());
                s
            },
            ScannerError::ConfigError(cause) => {
                let mut s = "Configuration error: ".to_string();
                push_text(&mut s, cause.as_str());
                s
            },
            ScannerError::LoggerError(e) => {
                let mut s = "Logging error: ".to_string();
                let cause = e.to_string();
                push_text(&mut s, cause.as_str());
                s
            },
        }
    }
}

/// The contract `c` once the stock is known to stand at `price`: the price
/// is set first and the profit is computed from it. (A profit fits a
/// `Decimal`, whatever the quote: see `profit_fits_a_decimal`.)
pub open spec fn priced(c: OptionChain, price: Decimal) -> OptionChain {
    OptionChain {
        stock_price: price,
        profit_percent: Decimal {
            units: profit_percent(c.strike@, c.option_price@, price@, c.option_type) as i64,
        },
        ..c
    }
}

/// The test for the contracts whose profit is `threshold` or more.
pub open spec fn reaches(threshold: Decimal) -> spec_fn(OptionChain) -> bool {
    |c: OptionChain| c.profit_percent@ >= threshold@
}

/// The contracts whose profit is `threshold` or more, in their order.
pub open spec fn profitable(options: Seq<OptionChain>, threshold: Decimal) -> Seq<OptionChain> {
    options.filter(reaches(threshold))
}

/// Every contract of `chain`, priced.
pub open spec fn all_priced(chain: Seq<OptionChain>, price: Decimal) -> Seq<OptionChain> {
    chain.map_values(|c: OptionChain| priced(c, price))
}

/// What a symbol adds to the result of a cycle: the contracts of its chain,
/// priced, that reach the threshold, in the order of the chain.
pub open spec fn evaluated(chain: Seq<OptionChain>, price: Decimal, threshold: Decimal) -> Seq<
    OptionChain,
> {
    profitable(all_priced(chain, price), threshold)
}

/// Keeps the contracts whose profit is `threshold` or more. The order is
/// kept, and a profit that equals the threshold passes.
pub fn filter_profitable(options: Vec<OptionChain>, threshold: Decimal) -> (kept: Vec<OptionChain>)
    ensures
        kept@ == profitable(options@, threshold),
{
    let mut kept: Vec<OptionChain> = Vec::new();
    proof {
        lemma_filter_empty(options@.take(0), reaches(threshold));
    }
    for option in it: options.into_iter()
        invariant
            it.seq() == options@,
            kept@ == it.seq().take(it.index() as int).filter(reaches(threshold)),
    {
        proof {
            lemma_filter_step(it.seq(), reaches(threshold), it.index() as int);
        }
        if option.profit_percent.at_least(&threshold) {
            kept.push(option);
        }
    }
    assert(options@.take(options@.len() as int) =~= options@);
    kept
}

/// Sets the price of the stock on every contract of a chain, and then the
/// profit that follows from it; see [`priced`].
pub fn price_chain(chain: Vec<OptionChain>, stock_price: Decimal) -> (quotes: Vec<OptionChain>)
    ensures
        quotes@ == all_priced(chain@, stock_price),
{
    let mut quotes: Vec<OptionChain> = Vec::new();
    for quote in it: chain.into_iter()
        invariant
            it.seq() == chain@,
            quotes@ == all_priced(chain@, stock_price).take(it.index() as int),
    {
        let mut option = quote;
        option.stock_price = stock_price;
        option.profit_percent = calculate_profit_percent(
            option.strike,
            option.option_price,
            option.stock_price,
            &option.option_type,
        );
        assert(option == priced(quote, stock_price));
        quotes.push(option);
        assert(quotes@ =~= all_priced(chain@, stock_price).take(it.index() + 1));
    }
    assert(quotes@ =~= all_priced(chain@, stock_price));
    quotes
}

/// Prices every contract of a chain and keeps those that reach the
/// threshold; see [`evaluated`].
pub fn evaluate_chain(chain: Vec<OptionChain>, stock_price: Decimal, threshold: Decimal) -> (kept:
    Vec<OptionChain>)
    ensures
        kept@ == evaluated(chain@, stock_price, threshold),
{
    filter_profitable(price_chain(chain, stock_price), threshold)
}

/// Filtering is idempotent: what was kept at a threshold is kept whole when
/// it is filtered at that threshold again.
pub proof fn filtering_twice_changes_nothing(options: Seq<OptionChain>, threshold: Decimal)
    ensures
        profitable(profitable(options, threshold), threshold) == profitable(options, threshold),
{
    lemma_filter_idempotent(options, reaches(threshold));
}

/// Filtering keeps no contract below the threshold, adds none, and leaves
/// the order as it was: the result is the subsequence of those that reach it.
pub proof fn filtering_keeps_what_reaches(options: Seq<OptionChain>, threshold: Decimal, i: int)
    requires
        0 <= i < profitable(options, threshold).len(),
    ensures
        profitable(options, threshold)[i].profit_percent@ >= threshold@,
        options.contains(profitable(options, threshold)[i]),
{
    options.lemma_filter_pred(reaches(threshold), i);
    options.lemma_filter_contains_rev(reaches(threshold), profitable(options, threshold)[i]);
}

/// Pricing is idempotent: a contract that was priced at a price is the same
/// when it is priced at that price again.
pub proof fn pricing_twice_changes_nothing(c: OptionChain, price: Decimal)
    ensures
        priced(priced(c, price), price) == priced(c, price),
{
}

/// Evaluating is idempotent: what a scan kept of a chain is kept whole when
/// it is evaluated again at the same price and threshold.
pub proof fn evaluating_twice_changes_nothing(
    chain: Seq<OptionChain>,
    price: Decimal,
    threshold: Decimal,
)
    ensures
        evaluated(evaluated(chain, price, threshold), price, threshold) == evaluated(
            chain,
            price,
            threshold,
        ),
{
    let kept = evaluated(chain, price, threshold);
    let all = all_priced(chain, price);
    assert forall|i: int| 0 <= i < kept.len() implies #[trigger] all_priced(kept, price)[i]
        == kept[i] by {
        all.lemma_filter_contains_rev(reaches(threshold), kept[i]);
        let j = choose|j: int| 0 <= j < all.len() && all[j] == kept[i];
        pricing_twice_changes_nothing(chain[j], price);
    }
    assert(all_priced(kept, price) =~= kept);
    filtering_twice_changes_nothing(all, threshold);
}

/// Where a scanner stands in its cycle.
#[derive(Clone, Copy, Debug, PartialEq, Eq, Structural, Hash)]
pub enum Phase {
    /// Not started.
    Idle,
    /// The connection test is under way.
    Connecting,
    /// The price of the stock at the cursor was asked for.
    FetchingPrice,
    /// The option chain of the stock at the cursor was asked for.
    FetchingChain,
    /// The result of the cycle is with the logger.
    Logging,
    /// The result of the cycle is with the display.
    Displaying,
    /// The cycle is over and the next one is waited for.
    Sleeping,
    /// The scanner gave up; it stays here.
    Stopped,
}

/// What happened, as the program reports it to the scanner.
#[derive(Debug)]
pub enum ScanEvent {
    /// The scanner is to start.
    Start,
    /// The connection test ended.
    Connection(Result<bool, IbkrError>),
    /// The request for a price ended.
    Price(Result<Decimal, IbkrError>),
    /// The request for a chain ended.
    Chain(Result<Vec<OptionChain>, IbkrError>),
    /// The logger is done.
    Logged(Result<(), LoggerError>),
    /// The display is done.
    Displayed,
    /// The time between two cycles has passed.
    Woke,
    /// The scan is to end.
    Cancel,
}

/// What the program is to do next.
#[derive(Debug)]
pub enum ScanAction {
    /// Nothing: the event was not expected and changed nothing.
    Ignore,
    /// Test the connection to the gateway.
    TestConnection,
    /// Ask for the price of the stock with this symbol.
    FetchPrice(String),
    /// Ask for the option chain of the stock with this symbol, with this
    /// many strikes.
    FetchChain(String, usize),
    /// Hand the result of the cycle to the logger.
    LogResults,
    /// Hand the result of the cycle to the display.
    DisplayResults,
    /// Wait this many seconds, then report `Woke`.
    Sleep(u64),
    /// Give up with this error.
    Abort(ScannerError),
    /// End: the scan was cancelled.
    Halt,
}

/// A `ScannerError` with its texts as sequences.
pub enum Failure {
    IbkrError(IbkrError),
    IoError(Seq<char>),
    ConfigError(Seq<char>),
    LoggerError(LoggerError),
}

/// A `ScanAction` with its texts as sequences.
pub enum Command {
    Ignore,
    TestConnection,
    FetchPrice(Seq<char>),
    FetchChain(Seq<char>, usize),
    LogResults,
    DisplayResults,
    Sleep(u64),
    Abort(Failure),
    Halt,
}

impl View for ScannerError {
    type V = Failure;

    open spec fn view(&self) -> Failure {
        match *self {
            ScannerError::IbkrError(e) => Failure::IbkrError(e),
            ScannerError::IoError(cause) => Failure::IoError(cause@),
            ScannerError::ConfigError(cause) => Failure::ConfigError(cause@),
            ScannerError::LoggerError(e) => Failure::LoggerError(e),
        }
    }
}

impl View for ScanAction {
    type V = Command;

    open spec fn view(&self) -> Command {
        match *self {
            ScanAction::Ignore => Command::Ignore,
            ScanAction::TestConnection => Command::TestConnection,
            ScanAction::FetchPrice(symbol) => Command::FetchPrice(symbol@),
            ScanAction::FetchChain(symbol, strike_count) => Command::FetchChain(
                symbol@,
                strike_count,
            ),
            ScanAction::LogResults => Command::LogResults,
            ScanAction::DisplayResults => Command::DisplayResults,
            ScanAction::Sleep(seconds) => Command::Sleep(seconds),
            ScanAction::Abort(e) => Command::Abort(e@),
            ScanAction::Halt => Command::Halt,
        }
    }
}

/// What a scanner goes by and never changes: the symbols in the order in
/// which they are scanned, the profit threshold, the number of strikes asked
/// for, and the seconds between two cycles.
pub struct ScanPlan {
    pub symbols: Seq<Seq<char>>,
    pub threshold: Decimal,
    pub depth: usize,
    pub interval: u64,
}

/// What a scanner remembers from step to step: the phase, the index of the
/// symbol in hand, the price of its stock once that is known, and what the
/// cycle has kept so far.
pub struct ScanState {
    pub phase: Phase,
    pub cursor: nat,
    pub price: Decimal,
    pub found: Seq<OptionChain>,
}

/// The plan that a configuration sets.
pub open spec fn plan_of(config: ScannerConfig) -> ScanPlan {
    ScanPlan {
        symbols: texts(config.nasdaq_stocks@),
        threshold: config.min_profit_percent,
        depth: config.option_chain_depth,
        interval: config.scan_interval_seconds,
    }
}

/// The state of a scanner that was not started.
pub open spec fn initial_state() -> ScanState {
    ScanState { phase: Phase::Idle, cursor: 0, price: Decimal { units: 0 }, found: Seq::empty() }
}

/// Turning to the symbol at `cursor` with `found` in hand: its price is
/// asked for, or, past the last symbol, the result goes to the logger.
pub open spec fn visit(plan: ScanPlan, cursor: nat, found: Seq<OptionChain>) -> (
    ScanState,
    Command,
) {
    if cursor < plan.symbols.len() {
        (
            ScanState { phase: Phase::FetchingPrice, cursor, price: Decimal { units: 0 }, found },
            Command::FetchPrice(plan.symbols[cursor as int]),
        )
    } else {
        (
            ScanState { phase: Phase::Logging, cursor, price: Decimal { units: 0 }, found },
            Command::LogResults,
        )
    }
}

/// Giving up: the scanner stops where it stands.
pub open spec fn stopped(s: ScanState) -> ScanState {
    ScanState { phase: Phase::Stopped, ..s }
}

/// The step of the scanner: the state after `event` and what is to be done.
///
/// The connection is tested once, at the start, and a gateway that is not
/// there ends the scan. A cycle starts with nothing in hand at the first
/// symbol. A price or a chain that could not be had costs the symbol its
/// contracts and nothing else: the scanner turns to the next symbol with
/// what it had. The contracts of a chain that came are priced, filtered and
/// appended. After the last symbol the result goes to the logger, then to
/// the display, once each; a logger that failed ends the scan. Then the
/// scanner sleeps for the interval and starts over. A scanner that is told
/// to end stops where it stands, and a scanner that has stopped stays so.
/// Any other event that the phase does not wait for changes nothing.
pub open spec fn transition(plan: ScanPlan, s: ScanState, event: ScanEvent) -> (
    ScanState,
    Command,
) {
    match (s.phase, event) {
        (Phase::Stopped, _) => (s, Command::Ignore),
        (_, ScanEvent::Cancel) => (stopped(s), Command::Halt),
        (Phase::Idle, ScanEvent::Start) => (
            ScanState { phase: Phase::Connecting, ..s },
            Command::TestConnection,
        ),
        (Phase::Connecting, ScanEvent::Connection(Ok(true))) => visit(plan, 0, Seq::empty()),
        (Phase::Connecting, ScanEvent::Connection(Ok(false))) => (
            stopped(s),
            Command::Abort(Failure::ConfigError("Failed to connect to IBKR Gateway"@)),
        ),
        (Phase::Connecting, ScanEvent::Connection(Err(e))) => (
            stopped(s),
            Command::Abort(Failure::IbkrError(e)),
        ),
        (Phase::FetchingPrice, ScanEvent::Price(Ok(price))) => (
            ScanState { phase: Phase::FetchingChain, price, ..s },
            Command::FetchChain(plan.symbols[s.cursor as int], plan.depth),
        ),
        (Phase::FetchingPrice, ScanEvent::Price(Err(_))) => visit(plan, s.cursor + 1, s.found),
        (Phase::FetchingChain, ScanEvent::Chain(Ok(chain))) => visit(
            plan,
            s.cursor + 1,
            s.found + evaluated(chain@, s.price, plan.threshold),
        ),
        (Phase::FetchingChain, ScanEvent::Chain(Err(_))) => visit(plan, s.cursor + 1, s.found),
        (Phase::Logging, ScanEvent::Logged(Ok(_))) => (
            ScanState { phase: Phase::Displaying, ..s },
            Command::DisplayResults,
        ),
        (Phase::Logging, ScanEvent::Logged(Err(e))) => (
            stopped(s),
            Command::Abort(Failure::LoggerError(e)),
        ),
        (Phase::Displaying, ScanEvent::Displayed) => (
            ScanState { phase: Phase::Sleeping, ..s },
            Command::Sleep(plan.interval),
        ),
        (Phase::Sleeping, ScanEvent::Woke) => visit(plan, 0, Seq::empty()),
        _ => (s, Command::Ignore),
    }
}

/// A scanner: a gateway client, the configuration, a logger, and the state
/// of the scan.
#[derive(Debug)]
pub struct NasdaqScanner {
    client: IbkrClient,
    config: ScannerConfig,
    logger: OptionLogger,
    phase: Phase,
    cursor: usize,
    price: Decimal,
    found: Vec<OptionChain>,
}

impl NasdaqScanner {
    /// While a request for a symbol is under way, the cursor is on a symbol.
    #[verifier::type_invariant]
    spec fn cursor_in_range(self) -> bool {
        (self.phase == Phase::FetchingPrice || self.phase == Phase::FetchingChain)
            ==> self.cursor < self.config.nasdaq_stocks@.len()
    }

    /// The plan that the scanner goes by.
    pub closed spec fn plan(self) -> ScanPlan {
        plan_of(self.config)
    }

    /// The state of the scan.
    pub closed spec fn state(self) -> ScanState {
        ScanState {
            phase: self.phase,
            cursor: self.cursor as nat,
            price: self.price,
            found: self.found@,
        }
    }

    /// The configuration of the scanner.
    pub closed spec fn settings(self) -> ScannerConfig {
        self.config
    }

    /// The client for the gateway.
    pub closed spec fn gateway(self) -> IbkrClient {
        self.client
    }

    /// The logger of the results.
    pub closed spec fn record_keeper(self) -> OptionLogger {
        self.logger
    }

    /// A scanner that was not started, with a logger that writes below the
    /// directory that `config` names.
    pub fn new(client: IbkrClient, config: ScannerConfig) -> (scanner: NasdaqScanner)
        ensures
            scanner.state() == initial_state(),
            scanner.plan() == plan_of(config),
            scanner.settings() == config,
            scanner.gateway() == client,
            scanner.record_keeper().directory() == config.options_log_dir@,
    {
        let logger = OptionLogger::new(config.options_log_dir.as_str());
        NasdaqScanner {
            client,
            config,
            logger,
            phase: Phase::Idle,
            cursor: 0,
            price: Decimal::zero(),
            found: Vec::new(),
        }
    }

    /// The client for the gateway.
    pub fn client(&self) -> (client: &IbkrClient)
        ensures
            *client == self.gateway(),
    {
        &self.client
    }

    /// The configuration of the scanner.
    pub fn config(&self) -> (config: &ScannerConfig)
        ensures
            *config == self.settings(),
    {
        &self.config
    }

    /// The logger of the results.
    pub fn logger(&self) -> (logger: &OptionLogger)
        ensures
            *logger == self.record_keeper(),
    {
        &self.logger
    }

    /// Where the scanner stands in its cycle.
    pub fn phase(&self) -> (phase: Phase)
        ensures
            phase == self.state().phase,
    {
        self.phase
    }

    /// What the cycle has kept so far; after the last symbol, the result of
    /// the cycle.
    pub fn results(&self) -> (found: &Vec<OptionChain>)
        ensures
            found@ == self.state().found,
    {
        &self.found
    }

    /// Turns to the symbol at `cursor`; see [`visit`].
    fn visit(&mut self, cursor: usize) -> (action: ScanAction)
        ensures
            final(self).plan() == old(self).plan(),
            final(self).settings() == old(self).settings(),
            final(self).gateway() == old(self).gateway(),
            final(self).record_keeper() == old(self).record_keeper(),
            (final(self).state(), action@) == visit(
                old(self).plan(),
                cursor as nat,
                old(self).state().found,
            ),
    {
        self.phase = Phase::Logging;
        self.price = Decimal::zero();
        self.cursor = cursor;
        if cursor < self.config.nasdaq_stocks.len() {
            self.phase = Phase::FetchingPrice;
            ScanAction::FetchPrice(self.config.nasdaq_stocks[cursor].clone())
        } else {
            ScanAction::LogResults
        }
    }

    /// Runs the scanner for one step: takes what happened and says what is
    /// to be done next; see [`transition`].
    pub fn run_scanner(&mut self, event: ScanEvent) -> (action: ScanAction)
        ensures
            final(self).plan() == old(self).plan(),
            final(self).settings() == old(self).settings(),
            final(self).gateway() == old(self).gateway(),
            final(self).record_keeper() == old(self).record_keeper(),
            (final(self).state(), action@) == transition(
                old(self).plan(),
                old(self).state(),
                event,
            ),
    {
        proof {
            use_type_invariant(&*self);
        }
        assert(self.config.nasdaq_stocks@.len() <= usize::MAX) by {
            vstd::std_specs::vec::axiom_spec_len(&self.config.nasdaq_stocks);
        }
        match (self.phase, event) {
            (Phase::Stopped, _) => ScanAction::Ignore,
            (_, ScanEvent::Cancel) => {
                self.phase = Phase::Stopped;
                ScanAction::Halt
            },
            (Phase::Idle, ScanEvent::Start) => {
                self.phase = Phase::Connecting;
                ScanAction::TestConnection
            },
            (Phase::Connecting, ScanEvent::Connection(Ok(true))) => {
                self.found = Vec::new();
                self.visit(0)
            },
            (Phase::Connecting, ScanEvent::Connection(Ok(false))) => {
                self.phase = Phase::Stopped;
                ScanAction::Abort(
                    ScannerError::ConfigError("Failed to connect to IBKR Gateway".to_string()),
                )
            },
            (Phase::Connecting, ScanEvent::Connection(Err(e))) => {
                self.phase = Phase::Stopped;
                ScanAction::Abort(ScannerError::IbkrError(e))
            },
            (Phase::FetchingPrice, ScanEvent::Price(Ok(price))) => {
                self.price = price;
                self.phase = Phase::FetchingChain;
                ScanAction::FetchChain(
                    self.config.nasdaq_stocks[self.cursor].clone(),
                    self.config.option_chain_depth,
                )
            },
            (Phase::FetchingPrice, ScanEvent::Price(Err(_))) => self.visit(self.cursor + 1),
            (Phase::FetchingChain, ScanEvent::Chain(Ok(chain))) => {
                let mut kept = evaluate_chain(chain, self.price, self.config.min_profit_percent);
                let mut found: Vec<OptionChain> = Vec::new();
                core::mem::swap(&mut self.found, &mut found);
                found.append(&mut kept);
                core::mem::swap(&mut self.found, &mut found);
                self.visit(self.cursor + 1)
            },
            (Phase::FetchingChain, ScanEvent::Chain(Err(_))) => self.visit(self.cursor + 1),
            (Phase::Logging, ScanEvent::Logged(Ok(_))) => {
                self.phase = Phase::Displaying;
                ScanAction::DisplayResults
            },
            (Phase::Logging, ScanEvent::Logged(Err(e))) => {
                self.phase = Phase::Stopped;
                ScanAction::Abort(ScannerError::LoggerError(e))
            },
            (Phase::Displaying, ScanEvent::Displayed) => {
                self.phase = Phase::Sleeping;
                ScanAction::Sleep(self.config.scan_interval_seconds)
            },
            (Phase::Sleeping, ScanEvent::Woke) => {
                self.found = Vec::new();
                self.visit(0)
            },
            _ => ScanAction::Ignore,
        }
    }
}

/// What the display shows after a cycle.
#[derive(Clone, Debug)]
pub enum Presentation {
    /// A notice that stands for an empty result.
    Notice(String),
    /// A title and below it a table: the column titles, then one row per
    /// option.
    Table { title: String, rows: Vec<Vec<String>> },
}

/// The titles of the columns of the table.
pub open spec fn column_titles() -> Seq<Seq<char>> {
    seq![
        "Symbol"@,
        "Type"@,
        "Expiry"@,
        "Strike"@,
        "Option Price"@,
        "Stock Price"@,
        "Profit %"@,
        "Volume"@,
        "IV %"@,
    ]
}

/// The row of an option in the table: money rounded to cents, the profit
/// to two places, the volatility as a percentage with one place.
pub open spec fn table_row(o: OptionChain) -> Seq<Seq<char>> {
    seq![
        o.symbol@,
        o.option_type.glyph() + " "@ + o.option_type.label(),
        strftime_text(o.expiration.seconds(), o.expiration.subsec_nanos(), DASHED_DATE@),
        currency_text(o.strike@),
        currency_text(o.option_price@),
        currency_text(o.stock_price@),
        percent_text(o.profit_percent@),
        integer_text(o.volume as int),
        fixed_point_text(o.implied_volatility@ * 100, 1) + "%"@,
    ]
}

/// One row per option, in order.
pub open spec fn table_rows(options: Seq<OptionChain>) -> Seq<Seq<Seq<char>>> {
    options.map_values(|o: OptionChain| table_row(o))
}

impl Presentation {
    /// Whether `self` shows `options`: the notice for none, and else the
    /// table of all of them, in order.
    pub open spec fn shows(self, options: Seq<OptionChain>) -> bool {
        match self {
            Presentation::Notice(text) => options.len() == 0 && text@
                == "No profitable options found."@,
            Presentation::Table { title, rows } => options.len() > 0 && title@
                == "\nProfitable Options Found:"@ && table(rows@) == seq![column_titles()]
                + table_rows(options),
        }
    }
}

fn money_cell(row: &mut Vec<String>, amount: Decimal)
    ensures
        texts(final(row)@) == texts(old(row)@).push(currency_text(amount@)),
{
    let mut cell = String::new();
    push_currency(&mut cell, amount);
    push_cell(row, cell);
}

impl NasdaqScanner {
    /// The column titles of the table.
    fn title_row(&self) -> (row: Vec<String>)
        ensures
            texts(row@) == column_titles(),
    {
        let mut row: Vec<String> = Vec::new();
        assert(texts(row@) =~= Seq::<Seq<char>>::empty());
        push_text_cell(&mut row, "Symbol");
        push_text_cell(&mut row, "Type");
        push_text_cell(&mut row, "Expiry");
        push_text_cell(&mut row, "Strike");
        push_text_cell(&mut row, "Option Price");
        push_text_cell(&mut row, "Stock Price");
        push_text_cell(&mut row, "Profit %");
        push_text_cell(&mut row, "Volume");
        push_text_cell(&mut row, "IV %");
        assert(texts(row@) =~= column_titles());
        row
    }

    /// The row of `option` in the table; see [`table_row`].
    fn option_row(&self, option: &OptionChain) -> (row: Vec<String>)
        ensures
            texts(row@) == table_row(*option),
    {
        let mut row: Vec<String> = Vec::new();
        assert(texts(row@) =~= Seq::<Seq<char>>::empty());
        push_text_cell(&mut row, option.symbol.as_str());
        let mut kind = option.option_type.emoji().to_string();
        push_text(&mut kind, " ");
        let label = option.option_type.to_string();
        push_text(&mut kind, label.as_str());
        push_cell(&mut row, kind);
        push_cell(&mut row, option.expiration.dashed_date());
        money_cell(&mut row, option.strike);
        money_cell(&mut row, option.option_price);
        money_cell(&mut row, option.stock_price);
        let mut profit = String::new();
        push_percent(&mut profit, option.profit_percent);
        push_cell(&mut row, profit);
        let mut volume = String::new();
        push_integer(&mut volume, option.volume as i64);
        push_cell(&mut row, volume);
        let mut volatility = String::new();
        push_fixed_point(&mut volatility, option.implied_volatility.units as i128 * 100, 1);
        push_text(&mut volatility, "%");
        push_cell(&mut row, volatility);
        assert(texts(row@) =~= table_row(*option));
        row
    }

    /// What the display is to show for the result of a cycle: a notice where
    /// nothing was found, and else the table of what was.
    pub fn display_results(&self, options: &Vec<OptionChain>) -> (shown: Presentation)
        ensures
            shown.shows(options@),
    {
        if options.len() == 0 {
            return Presentation::Notice("No profitable options found.".to_string());
        }
        let mut rows: Vec<Vec<String>> = Vec::new();
        rows.push(self.title_row());
        let mut i: usize = 0;
        assert(table(rows@) =~= seq![column_titles()] + table_rows(options@.take(0)));
        while i < options.len()
            invariant
                i <= options.len(),
                table(rows@) == seq![column_titles()] + table_rows(options@.take(i as int)),
            decreases options.len() - i,
        {
            let ghost held = rows@;
            let row = self.option_row(&options[i]);
            rows.push(row);
            i += 1;
            proof {
                assert(table(rows@) =~= table(held).push(texts(row@)));
                assert(options@.take(i as int) =~= options@.take(i - 1).push(options@[i - 1]));
                assert(table_rows(options@.take(i as int)) =~= table_rows(
                    options@.take(i - 1),
                ).push(table_row(options@[i - 1])));
                assert(table(rows@) =~= seq![column_titles()] + table_rows(
                    options@.take(i as int),
                ));
            }
        }
        assert(options@.take(i as int) =~= options@);
        Presentation::Table { title: "\nProfitable Options Found:".to_string(), rows }
    }
}

/// Sets a scanner up from the variables of the environment: reads the
/// configuration, makes the client for the gateway that it names, and the
/// scanner over both. The scanner is not started: the program starts it and
/// then does, step by step, what the scanner asks for. A configuration that
/// cannot be read is an error that carries the message of the cause.
pub fn run(vars: &Vec<(String, String)>) -> (r: Result<NasdaqScanner, ScannerError>)
    ensures
        match r {
            Ok(scanner) => {
                &&& config_error(vars@) is None
                &&& scanner.settings().reflects(vars@)
                &&& scanner.plan() == plan_of(scanner.settings())
                &&& scanner.state() == initial_state()
                &&& scanner.gateway().address() == scanner.settings().address()
                &&& scanner.gateway().account() == scanner.settings().ibkr_account_id@
                &&& scanner.gateway().timeout() == scanner.settings().request_timeout_seconds
                &&& scanner.record_keeper().directory() == scanner.settings().options_log_dir@
            },
            Err(e) => config_error(vars@) matches Some(cause) && e@ == Failure::ConfigError(
                cause.message(),
            ),
        },
{
    let config = match ScannerConfig::from_env(vars) {
        Ok(config) => config,
        Err(e) => {
            return Err(ScannerError::ConfigError(e.to_string()));
        },
    };
    let client = IbkrClient::new(
        config.base_url(),
        config.ibkr_account_id.clone(),
        config.request_timeout_seconds,
    );
    Ok(NasdaqScanner::new(client, config))
}

/// What the gateway gave for one symbol of a cycle.
pub enum Fetched {
    /// The price could not be had; the chain was not asked for.
    NoPrice(IbkrError),
    /// The price came and the chain could not be had.
    NoChain(Decimal, IbkrError),
    /// The price and the chain came.
    Both(Decimal, Vec<OptionChain>),
}

/// What a symbol adds to the result of a cycle: the contracts of its chain
/// that reach the threshold, and nothing where price or chain failed.
pub open spec fn contribution(fetched: Fetched, threshold: Decimal) -> Seq<OptionChain> {
    match fetched {
        Fetched::Both(price, chain) => evaluated(chain@, price, threshold),
        _ => Seq::empty(),
    }
}

/// The result of a cycle: what each symbol adds, in the order of the symbols.
pub open spec fn cycle_result(fetched: Seq<Fetched>, threshold: Decimal) -> Seq<OptionChain>
    decreases fetched.len(),
{
    if fetched.len() == 0 {
        Seq::empty()
    } else {
        cycle_result(fetched.drop_last(), threshold) + contribution(fetched.last(), threshold)
    }
}

/// The state after the events that one symbol gives rise to.
pub open spec fn after_symbol(plan: ScanPlan, s: ScanState, fetched: Fetched) -> ScanState {
    match fetched {
        Fetched::NoPrice(e) => transition(plan, s, ScanEvent::Price(Err(e))).0,
        Fetched::NoChain(price, e) => transition(
            plan,
            transition(plan, s, ScanEvent::Price(Ok(price))).0,
            ScanEvent::Chain(Err(e)),
        ).0,
        Fetched::Both(price, chain) => transition(
            plan,
            transition(plan, s, ScanEvent::Price(Ok(price))).0,
            ScanEvent::Chain(Ok(chain)),
        ).0,
    }
}

/// The state after the events that some symbols give rise to, one after the
/// other.
pub open spec fn after_symbols(plan: ScanPlan, s: ScanState, fetched: Seq<Fetched>) -> ScanState
    decreases fetched.len(),
{
    if fetched.len() == 0 {
        s
    } else {
        after_symbol(plan, after_symbols(plan, s, fetched.drop_last()), fetched.last())
    }
}

/// A cycle keeps what each symbol gave, in the order of the symbols: once
/// the gateway has answered for the first symbols of the plan, whatever the
/// answers, the scanner holds their contributions one after the other, a
/// symbol whose price or chain failed having added nothing, and it stands at
/// the next symbol, or, after the last, at the logger.
pub proof fn cycle_keeps_what_each_symbol_gave(plan: ScanPlan, fetched: Seq<Fetched>)
    requires
        fetched.len() <= plan.symbols.len(),
    ensures
        after_symbols(plan, visit(plan, 0, Seq::empty()).0, fetched) == visit(
            plan,
            fetched.len(),
            cycle_result(fetched, plan.threshold),
        ).0,
    decreases fetched.len(),
{
    if fetched.len() > 0 {
        cycle_keeps_what_each_symbol_gave(plan, fetched.drop_last());
    }
}

/// The phases follow the cycle. The connection is tested once: the test is
/// asked for only as an idle scanner starts, and no scanner becomes idle
/// again. The result goes to the logger first and to the display after it:
/// the display is asked for only as the logger reports success, and sleep
/// only as the display is done. A scanner that has stopped does nothing more.
pub proof fn phases_follow_the_cycle(plan: ScanPlan, s: ScanState, event: ScanEvent)
    ensures
        transition(plan, s, event).1 is TestConnection ==> s.phase is Idle && event is Start,
        transition(plan, s, event).0.phase is Idle ==> s.phase is Idle,
        transition(plan, s, event).0.phase is Connecting ==> s.phase is Idle || s.phase
            is Connecting,
        transition(plan, s, event).1 is DisplayResults ==> s.phase is Logging && event
            matches ScanEvent::Logged(Ok(_)),
        transition(plan, s, event).1 is Sleep ==> s.phase is Displaying && event is Displayed,
        s.phase is Stopped ==> transition(plan, s, event) == (s, Command::Ignore),
{
}

/// A symbol whose price or chain cannot be had costs the cycle nothing but
/// that symbol: what was kept stays as it was and the scanner turns to the
/// next symbol.
pub proof fn failed_fetch_costs_only_its_symbol(plan: ScanPlan, s: ScanState, e: IbkrError)
    ensures
        s.phase == Phase::FetchingPrice ==> transition(plan, s, ScanEvent::Price(Err(e))) == visit(
            plan,
            s.cursor + 1,
            s.found,
        ),
        s.phase == Phase::FetchingChain ==> transition(plan, s, ScanEvent::Chain(Err(e))) == visit(
            plan,
            s.cursor + 1,
            s.found,
        ),
        visit(plan, s.cursor + 1, s.found).0.found == s.found,
{
}

} // verus!
