//! What a scan leaves on disk: one record per profitable option in the
//! record file of the day, and a summary of the day grouped by symbol. The
//! logger decides names and contents; the program writes them.

use crate::models::decimal::{fixed_point_text, push_fixed_point};
use crate::models::option_chain::OptionChain;
use crate::models::timestamp::{display_text, rfc3339_text, strftime_text, Timestamp, COMPACT_DATE};
use crate::utils::helpers::{currency_text, percent_text, push_currency, push_percent};
use crate::utils::sequences::{lemma_filter_empty, lemma_filter_step};
use crate::utils::text::{
    decimal_text, integer_text, lemma_texts_add, lemma_texts_push, push_cell, push_decimal,
    push_integer, push_text, push_text_cell, same_text, texts,
};
use vstd::prelude::*;

verus! {

/// Why the results of a scan could not be written.
#[derive(Clone, Debug, PartialEq, Eq)]
pub enum LoggerError {
    /// A directory or a file could not be made or written.
    IoError(String),
    /// A record could not be written.
    CsvError(String),
}

impl LoggerError {
    /// The message of the error.
    pub open spec fn message(self) -> Seq<char> {
        match self {
            LoggerError::IoError(cause) => "IO error: "@ + cause@,
            LoggerError::CsvError(cause) => "CSV error: "@ + cause@,
        }
    }

    /// The message of the error.
    pub fn to_string(&self) -> (s: String)
        ensures
            s@ == self.message(),
    {
        match self {
            LoggerError::IoError(cause) => {
                let mut s = "IO error: ".to_string();
                push_text(&mut s, cause.as_str());
                s
            },
            LoggerError::CsvError(cause) => {
                let mut s = "CSV error: ".to_string();
                push_text(&mut s, cause.as_str());
                s
            },
        }
    }
}

/// The names of the columns of a record file.
pub open spec fn column_names() -> Seq<Seq<char>> {
    seq![
        "timestamp"@,
        "symbol"@,
        "option_type"@,
        "type_emoji"@,
        "expiration"@,
        "strike"@,
        "option_price"@,
        "stock_price"@,
        "profit_percent"@,
        "volume"@,
        "implied_volatility"@,
        "contract_id"@,
    ]
}

/// An instant as a record holds it: in RFC 3339 form.
pub open spec fn instant_text(t: Timestamp) -> Seq<char> {
    rfc3339_text(t.seconds(), t.subsec_nanos())
}

/// The record of an option: one field per column, amounts with all their
/// four decimal places.
pub open spec fn record_of(o: OptionChain) -> Seq<Seq<char>> {
    seq![
        instant_text(o.timestamp),
        o.symbol@,
        o.option_type.label(),
        o.option_type.glyph(),
        instant_text(o.expiration),
        fixed_point_text(o.strike@, 4),
        fixed_point_text(o.option_price@, 4),
        fixed_point_text(o.stock_price@, 4),
        fixed_point_text(o.profit_percent@, 4),
        integer_text(o.volume as int),
        fixed_point_text(o.implied_volatility@, 4),
        o.contract_id@,
    ]
}

/// The views of the rows of a table.
pub open spec fn table(rows: Seq<Vec<String>>) -> Seq<Seq<Seq<char>>> {
    rows.map_values(|row: Vec<String>| texts(row@))
}

/// One record per option, in order.
pub open spec fn records(options: Seq<OptionChain>) -> Seq<Seq<Seq<char>>> {
    options.map_values(|o: OptionChain| record_of(o))
}

/// The rows that a scan adds to a record file: the column names where the
/// file is new, then one record per option, in order.
pub open spec fn records_of(options: Seq<OptionChain>, record_exists: bool) -> Seq<
    Seq<Seq<char>>,
> {
    (if record_exists {
        Seq::empty()
    } else {
        seq![column_names()]
    }) + records(options)
}

/// The name of the record file of the day of `now`.
pub open spec fn record_name(now: Timestamp) -> Seq<char> {
    "options_"@ + strftime_text(now.seconds(), now.subsec_nanos(), COMPACT_DATE@) + ".csv"@
}

/// The name of the summary file of the day of `now`.
pub open spec fn summary_name(now: Timestamp) -> Seq<char> {
    "summary_"@ + strftime_text(now.seconds(), now.subsec_nanos(), COMPACT_DATE@) + ".txt"@
}

/// The test for the options of one symbol.
pub open spec fn of_symbol(symbol: Seq<char>) -> spec_fn(OptionChain) -> bool {
    |o: OptionChain| o.symbol@ == symbol
}

/// The line of an option in a summary.
pub open spec fn summary_entry(o: OptionChain) -> Seq<char> {
    "  "@ + o.option_type.glyph() + " "@ + o.option_type.label() + ": Strike "@ + currency_text(
        o.strike@,
    ) + ", Option "@ + currency_text(o.option_price@) + ", Profit "@ + percent_text(
        o.profit_percent@,
    )
}

/// The lines of some options in a summary, in order.
pub open spec fn summary_entries(members: Seq<OptionChain>) -> Seq<Seq<char>> {
    members.map_values(|o: OptionChain| summary_entry(o))
}

/// The part of a summary that speaks of one symbol: how many of the options
/// are its own, their lines in order, and an empty line.
pub open spec fn group_summary(options: Seq<OptionChain>, symbol: Seq<char>) -> Seq<Seq<char>> {
    let members = options.filter(of_symbol(symbol));
    seq![symbol + ": "@ + decimal_text(members.len()) + " options"@] + summary_entries(members)
        + seq![Seq::<char>::empty()]
}

/// Whether the option at `i` is the first of its symbol.
pub open spec fn opens_group(options: Seq<OptionChain>, i: int) -> bool {
    forall|j: int| 0 <= j < i ==> (#[trigger] options[j]).symbol@ != options[i].symbol@
}

/// The parts of a summary for the symbols that occur among the first `upto`
/// options, each symbol once, in the order in which the symbols first occur.
pub open spec fn groups_summary(options: Seq<OptionChain>, upto: int) -> Seq<Seq<char>>
    decreases upto,
{
    if upto <= 0 {
        Seq::empty()
    } else {
        groups_summary(options, upto - 1) + (if opens_group(options, upto - 1) {
            group_summary(options, options[upto - 1].symbol@)
        } else {
            Seq::empty()
        })
    }
}

/// The lines of the summary of a scan made at `now`.
pub open spec fn summary_of(options: Seq<OptionChain>, now: Timestamp) -> Seq<Seq<char>> {
    seq![
        "Option Scan Summary - "@ + display_text(now.seconds(), now.subsec_nanos()),
        "======================================"@,
        "Total profitable options found: "@ + decimal_text(options.len()),
        Seq::<char>::empty(),
    ] + groups_summary(options, options.len() as int)
}

/// What is to be written after a scan that found something.
#[derive(Clone, Debug)]
pub struct LogPlan {
    /// The name of the record file, to which `rows` are appended.
    pub record_file: String,
    pub rows: Vec<Vec<String>>,
    /// The name of the summary file, which `summary` replaces line by line.
    pub summary_file: String,
    pub summary: Vec<String>,
}

impl LogPlan {
    /// Whether `self` is what logging `options` at `now` asks for.
    pub open spec fn is_plan_for(
        self,
        options: Seq<OptionChain>,
        now: Timestamp,
        record_exists: bool,
    ) -> bool {
        &&& self.record_file@ == record_name(now)
        &&& table(self.rows@) == records_of(options, record_exists)
        &&& self.summary_file@ == summary_name(now)
        &&& texts(self.summary@) == summary_of(options, now)
    }
}

/// Plans what is written of the results of scans, below one directory.
#[derive(Clone, Debug)]
pub struct OptionLogger {
    log_dir: String,
}

fn push_amount(row: &mut Vec<String>, units: i64)
    ensures
        texts(final(row)@) == texts(old(row)@).push(fixed_point_text(units as int, 4)),
{
    let mut field = String::new();
    push_fixed_point(&mut field, units as i128, 4);
    push_cell(row, field);
}

impl OptionLogger {
    /// The directory below which the files are written.
    pub closed spec fn directory(self) -> Seq<char> {
        self.log_dir@
    }

    /// A logger that writes below `log_dir`.
    pub fn new(log_dir: &str) -> (logger: OptionLogger)
        ensures
            logger.directory() == log_dir@,
    {
        OptionLogger { log_dir: log_dir.to_string() }
    }

    /// The directory below which the files are written.
    pub fn log_dir(&self) -> (dir: &str)
        ensures
            dir@ == self.directory(),
    {
        self.log_dir.as_str()
    }

    /// The name of the record file of the day of `now`, as in
    /// `options_20241220.csv`.
    pub fn record_file_name(&self, now: &Timestamp) -> (name: String)
        ensures
            name@ == record_name(*now),
    {
        let mut name = "options_".to_string();
        let date = now.compact_date();
        push_text(&mut name, date.as_str());
        push_text(&mut name, ".csv");
        name
    }

    /// The name of the summary file of the day of `now`, as in
    /// `summary_20241220.txt`.
    pub fn summary_file_name(&self, now: &Timestamp) -> (name: String)
        ensures
            name@ == summary_name(*now),
    {
        let mut name = "summary_".to_string();
        let date = now.compact_date();
        push_text(&mut name, date.as_str());
        push_text(&mut name, ".txt");
        name
    }

    /// The names of the columns, which head a new record file.
    pub fn header(&self) -> (row: Vec<String>)
        ensures
            texts(row@) == column_names(),
    {
        let mut row: Vec<String> = Vec::new();
        assert(texts(row@) =~= Seq::<Seq<char>>::empty());
        push_text_cell(&mut row, "timestamp");
        push_text_cell(&mut row, "symbol");
        push_text_cell(&mut row, "option_type");
        push_text_cell(&mut row, "type_emoji");
        push_text_cell(&mut row, "expiration");
        push_text_cell(&mut row, "strike");
        push_text_cell(&mut row, "option_price");
        push_text_cell(&mut row, "stock_price");
        push_text_cell(&mut row, "profit_percent");
        push_text_cell(&mut row, "volume");
        push_text_cell(&mut row, "implied_volatility");
        push_text_cell(&mut row, "contract_id");
        assert(texts(row@) =~= column_names());
        row
    }

    /// The record of `option`; see [`record_of`].
    pub fn record_row(&self, option: &OptionChain) -> (row: Vec<String>)
        ensures
            texts(row@) == record_of(*option),
    {
        let mut row: Vec<String> = Vec::new();
        assert(texts(row@) =~= Seq::<Seq<char>>::empty());
        let stamp = option.timestamp.to_rfc3339();
        push_text_cell(&mut row, stamp.as_str());
        push_text_cell(&mut row, option.symbol.as_str());
        let label = option.option_type.to_string();
        push_text_cell(&mut row, label.as_str());
        push_text_cell(&mut row, option.option_type.emoji());
        let expiry = option.expiration.to_rfc3339();
        push_text_cell(&mut row, expiry.as_str());
        push_amount(&mut row, option.strike.units);
        push_amount(&mut row, option.option_price.units);
        push_amount(&mut row, option.stock_price.units);
        push_amount(&mut row, option.profit_percent.units);
        let mut volume = String::new();
        push_integer(&mut volume, option.volume as i64);
        push_text_cell(&mut row, volume.as_str());
        push_amount(&mut row, option.implied_volatility.units);
        push_text_cell(&mut row, option.contract_id.as_str());
        assert(texts(row@) =~= record_of(*option));
        row
    }

    /// What is to be written for the profitable options of a scan made at
    /// `now`, where `record_exists` says whether the record file of that day
    /// is already there. Nothing is to be written, and no file made, for a
    /// scan that found nothing.
    pub fn log_options(
        &self,
        options: &Vec<OptionChain>,
        now: &Timestamp,
        record_exists: bool,
    ) -> (r: Option<LogPlan>)
        ensures
            match r {
                Some(plan) => options@.len() > 0 && plan.is_plan_for(options@, *now, record_exists),
                None => options@.len() == 0,
            },
    {
        if options.len() == 0 {
            return None;
        }
        let mut rows: Vec<Vec<String>> = Vec::new();
        if !record_exists {
            rows.push(self.header());
        }
        let ghost head = table(rows@);
        assert(head =~= if record_exists {
            Seq::<Seq<Seq<char>>>::empty()
        } else {
            seq![column_names()]
        });
        let mut i: usize = 0;
        assert(table(rows@) =~= head + records(options@.take(0)));
        while i < options.len()
            invariant
                i <= options.len(),
                table(rows@) == head + records(options@.take(i as int)),
            decreases options.len() - i,
        {
            let ghost held = rows@;
            let row = self.record_row(&options[i]);
            rows.push(row);
            i += 1;
            proof {
                assert(table(rows@) =~= table(held).push(texts(row@)));
                assert(options@.take(i as int) =~= options@.take(i - 1).push(options@[i - 1]));
                assert(records(options@.take(i as int)) =~= records(options@.take(i - 1)).push(
                    record_of(options@[i - 1]),
                ));
                assert(table(rows@) =~= head + records(options@.take(i as int)));
            }
        }
        assert(options@.take(i as int) =~= options@);
        let plan = LogPlan {
            record_file: self.record_file_name(now),
            rows,
            summary_file: self.summary_file_name(now),
            summary: self.create_summary_log(options, now),
        };
        Some(plan)
    }

    /// The lines of the summary of a scan made at `now`: a heading, the
    /// number of options, and a part for each symbol in the order in which
    /// the symbols first occur.
    pub fn create_summary_log(&self, options: &Vec<OptionChain>, now: &Timestamp) -> (lines: Vec<
        String,
    >)
        ensures
            texts(lines@) == summary_of(options@, *now),
    {
        let mut lines: Vec<String> = Vec::new();
        assert(texts(lines@) =~= Seq::<Seq<char>>::empty());
        let mut title = "Option Scan Summary - ".to_string();
        let stamp = now.to_string();
        push_text(&mut title, stamp.as_str());
        push_text_cell(&mut lines, title.as_str());
        push_text_cell(&mut lines, "======================================");
        let mut total = "Total profitable options found: ".to_string();
        push_decimal(&mut total, options.len() as u128);
        push_text_cell(&mut lines, total.as_str());
        push_text_cell(&mut lines, "");
        let ghost head = texts(lines@);
        proof {
            reveal_strlit("");
            assert(""@ =~= Seq::<char>::empty());
            assert(head =~= seq![
                "Option Scan Summary - "@ + display_text(now.seconds(), now.subsec_nanos()),
                "======================================"@,
                "Total profitable options found: "@ + decimal_text(options@.len()),
                Seq::<char>::empty(),
            ]);
            assert(head + groups_summary(options@, 0) =~= head);
        }
        let mut i: usize = 0;
        while i < options.len()
            invariant
                i <= options.len(),
                texts(lines@) == head + groups_summary(options@, i as int),
            decreases options.len() - i,
        {
            if self.opens_group_at(options, i) {
                let ghost before = texts(lines@);
                self.push_group(&mut lines, options, options[i].symbol.as_str());
                assert(texts(lines@) =~= head + groups_summary(options@, i + 1));
            }
            i += 1;
        }
        lines
    }

    /// Whether the option at `i` is the first of its symbol.
    fn opens_group_at(&self, options: &Vec<OptionChain>, i: usize) -> (first: bool)
        requires
            i < options.len(),
        ensures
            first == opens_group(options@, i as int),
    {
        let mut j: usize = 0;
        while j < i
            invariant
                j <= i < options.len(),
                forall|k: int|
                    0 <= k < j ==> (#[trigger] options@[k]).symbol@ != options@[i as int].symbol@,
            decreases i - j,
        {
            if same_text(options[j].symbol.as_str(), options[i].symbol.as_str()) {
                return false;
            }
            j += 1;
        }
        true
    }

    /// Appends the part of a summary that speaks of `symbol`.
    fn push_group(&self, lines: &mut Vec<String>, options: &Vec<OptionChain>, symbol: &str)
        ensures
            texts(final(lines)@) == texts(old(lines)@) + group_summary(options@, symbol@),
    {
        let mut entries: Vec<String> = Vec::new();
        let mut count: usize = 0;
        let mut k: usize = 0;
        proof {
            lemma_filter_empty(options@.take(0), of_symbol(symbol@));
            assert(texts(entries@) =~= summary_entries(Seq::<OptionChain>::empty()));
        }
        while k < options.len()
            invariant
                k <= options.len(),
                count == options@.take(k as int).filter(of_symbol(symbol@)).len(),
                count <= k,
                texts(entries@) == summary_entries(
                    options@.take(k as int).filter(of_symbol(symbol@)),
                ),
            decreases options.len() - k,
        {
            let ghost members = options@.take(k as int).filter(of_symbol(symbol@));
            proof {
                lemma_filter_step(options@, of_symbol(symbol@), k as int);
            }
            let option = &options[k];
            if same_text(option.symbol.as_str(), symbol) {
                let mut entry = "  ".to_string();
                push_text(&mut entry, option.option_type.emoji());
                push_text(&mut entry, " ");
                let label = option.option_type.to_string();
                push_text(&mut entry, label.as_str());
                push_text(&mut entry, ": Strike ");
                push_currency(&mut entry, option.strike);
                push_text(&mut entry, ", Option ");
                push_currency(&mut entry, option.option_price);
                push_text(&mut entry, ", Profit ");
                push_percent(&mut entry, option.profit_percent);
                assert(entry@ =~= summary_entry(*option));
                proof {
                    lemma_texts_push(entries@, entry);
                    assert(summary_entries(members.push(*option)) =~= summary_entries(
                        members,
                    ).push(summary_entry(*option)));
                }
                entries.push(entry);
                count += 1;
            }
            k += 1;
        }
        assert(options@.take(k as int) =~= options@);
        let mut headline = symbol.to_string();
        push_text(&mut headline, ": ");
        push_decimal(&mut headline, count as u128);
        push_text(&mut headline, " options");
        let ghost before = texts(lines@);
        let ghost members = options@.filter(of_symbol(symbol@));
        assert(headline@ =~= symbol@ + ": "@ + decimal_text(members.len()) + " options"@);
        push_text_cell(lines, headline.as_str());
        proof {
            lemma_texts_add(lines@, entries@);
        }
        lines.append(&mut entries);
        assert(texts(lines@) =~= before.push(headline@) + summary_entries(members));
        push_text_cell(lines, "");
        proof {
            reveal_strlit("");
            assert(""@ =~= Seq::<char>::empty());
            assert(texts(lines@) =~= before + group_summary(options@, symbol@));
        }
    }
}

} // verus!
