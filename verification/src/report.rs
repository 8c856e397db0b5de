//! The report of a run: one line for each input that could be counted, a
//! warning for each that could not be opened, and a line of totals where there
//! is more than one input.
//!
//! The library reads nothing itself. Its caller opens and reads each input
//! and hands over what came of it as a `Reading`; the library answers with the
//! `Action` to perform.

use vstd::prelude::*;
use vstd::string::StringExecFns;
use crate::config::{is_stdin, names_stdin, Config};
use crate::counter::{count, counts_of, Counts, FileInfo};
use crate::format::{field_text, format_count};

verus! {

/// What came of opening and reading one input.
#[derive(Debug)]
pub enum Reading {
    /// The input could not be opened; the text says why.
    Unopened(String),
    /// The input was opened, and reading it failed.
    Unread,
    /// The input was read to its end: these are its bytes.
    Content(Vec<u8>),
}

/// A `Reading` by its contents.
pub ghost enum ReadingView {
    Unopened(Seq<char>),
    Unread,
    Content(Seq<u8>),
}

impl View for Reading {
    type V = ReadingView;

    open spec fn view(&self) -> ReadingView {
        match self {
            Reading::Unopened(reason) => ReadingView::Unopened(reason@),
            Reading::Unread => ReadingView::Unread,
            Reading::Content(bytes) => ReadingView::Content(bytes@),
        }
    }
}

/// What the caller is to do for one input, or at the end of the run.
#[derive(Debug)]
pub enum Action {
    /// Write this line to standard output.
    Print(String),
    /// Write this line to standard error.
    Warn(String),
    /// Write nothing.
    Nothing,
}

/// An `Action` by its contents.
pub ghost enum ActionView {
    Print(Seq<char>),
    Warn(Seq<char>),
    Nothing,
}

impl View for Action {
    type V = ActionView;

    open spec fn view(&self) -> ActionView {
        match self {
            Action::Print(line) => ActionView::Print(line@),
            Action::Warn(line) => ActionView::Warn(line@),
            Action::Nothing => ActionView::Nothing,
        }
    }
}

/// The columns of one line: lines, words, bytes and characters in this order,
/// each as `field_text` renders it, with nothing between them.
pub open spec fn row_text(config: Config, counts: Counts) -> Seq<char> {
    field_text(counts.lines, config.lines) + field_text(counts.words, config.words) + field_text(
        counts.bytes,
        config.bytes,
    ) + field_text(counts.chars, config.chars)
}

/// What follows the columns in the line of the input `name`: a space and the
/// name, or nothing for standard input.
pub open spec fn name_suffix(name: Seq<char>) -> Seq<char> {
    if names_stdin(name) {
        Seq::empty()
    } else {
        seq![' '] + name
    }
}

/// The line that reports `counts` for the input `name`.
pub open spec fn line_text(config: Config, counts: Counts, name: Seq<char>) -> Seq<char> {
    row_text(config, counts) + name_suffix(name)
}

/// The line that reports the sums `counts` of a run.
pub open spec fn total_text(config: Config, counts: Counts) -> Seq<char> {
    row_text(config, counts) + seq![' ', 't', 'o', 't', 'a', 'l']
}

/// The warning for the input `name`, which could not be opened for `reason`.
pub open spec fn warning_text(name: Seq<char>, reason: Seq<char>) -> Seq<char> {
    name + seq![':', ' '] + reason
}

/// What `reading` adds to the sums of a run: the counts of an input that was
/// read and holds text, and nothing otherwise.
pub open spec fn gain(reading: ReadingView) -> Counts {
    match reading {
        ReadingView::Content(bytes) => match counts_of(bytes) {
            Some(counts) => counts,
            None => Counts::zero(),
        },
        _ => Counts::zero(),
    }
}

/// What is to be done for the input `name` after `reading`: a warning where it
/// could not be opened, its line where it was read and holds text, and nothing
/// otherwise.
pub open spec fn action_for(config: Config, name: Seq<char>, reading: ReadingView) -> ActionView {
    match reading {
        ReadingView::Unopened(reason) => ActionView::Warn(warning_text(name, reason)),
        ReadingView::Unread => ActionView::Nothing,
        ReadingView::Content(bytes) => match counts_of(bytes) {
            Some(counts) => ActionView::Print(line_text(config, counts, name)),
            None => ActionView::Nothing,
        },
    }
}

/// Renders the four columns.
fn format_row(config: &Config, lines: u128, words: u128, bytes: u128, chars: u128) -> (res: String)
    ensures
        res@ == row_text(
            *config,
            Counts {
                lines: lines as nat,
                words: words as nat,
                bytes: bytes as nat,
                chars: chars as nat,
            },
        ),
{
    let mut row = format_count(lines, config.lines);
    row.append(format_count(words, config.words).as_str());
    row.append(format_count(bytes, config.bytes).as_str());
    row.append(format_count(chars, config.chars).as_str());
    row
}

/// Renders the line that reports the counts `info` of the input `name`.
pub fn format_line(config: &Config, info: &FileInfo, name: &str) -> (res: String)
    ensures
        res@ == line_text(*config, info@, name@),
{
    let mut line = format_row(
        config,
        info.num_lines as u128,
        info.num_words as u128,
        info.num_bytes as u128,
        info.num_chars as u128,
    );
    if !is_stdin(name) {
        proof {
            reveal_strlit(" ");
        }
        line.append(" ");
        line.append(name);
    }
    assert(line@ =~= line_text(*config, info@, name@));
    line
}

/// Renders the warning for the input `name`, which could not be opened for
/// `reason`.
pub fn format_warning(name: &str, reason: &str) -> (res: String)
    ensures
        res@ == warning_text(name@, reason@),
{
    proof {
        reveal_strlit(": ");
    }
    let mut line = String::from_str(name);
    line.append(": ");
    line.append(reason);
    assert(line@ =~= warning_text(name@, reason@));
    line
}

/// The sums of the counts of the inputs of a run. They are kept in a wider
/// type than the counts themselves, so that no run can overflow them.
#[derive(Debug, Clone, Copy, PartialEq, Eq, Structural)]
pub struct Totals {
    pub lines: u128,
    pub words: u128,
    pub bytes: u128,
    pub chars: u128,
}

impl View for Totals {
    type V = Counts;

    open spec fn view(&self) -> Counts {
        Counts {
            lines: self.lines as nat,
            words: self.words as nat,
            bytes: self.bytes as nat,
            chars: self.chars as nat,
        }
    }
}

/// Renders the line that reports the sums `total` of a run.
pub fn format_total(config: &Config, total: &Totals) -> (res: String)
    ensures
        res@ == total_text(*config, total@),
{
    proof {
        reveal_strlit(" total");
    }
    let mut line = format_row(config, total.lines, total.words, total.bytes, total.chars);
    line.append(" total");
    assert(line@ =~= total_text(*config, total@));
    line
}

/// The most that one input adds to a count.
const STEP_LIMIT: u128 = 0xFFFF_FFFF_FFFF_FFFF;

/// A run in progress: its configuration, how many of its inputs are done, and
/// the sums of their counts.
///
/// The caller asks for the `pending` input, opens and reads it, hands the
/// `Reading` to `step`, and performs the `Action` that comes back; when no
/// input is pending, it performs what `finish` returns.
pub struct Reporter {
    config: Config,
    done: usize,
    total: Totals,
}

impl Reporter {
    #[verifier::type_invariant]
    spec fn inv(self) -> bool {
        &&& self.done <= self.config.files@.len()
        &&& self.total.lines <= self.done * STEP_LIMIT
        &&& self.total.words <= self.done * STEP_LIMIT
        &&& self.total.bytes <= self.done * STEP_LIMIT
        &&& self.total.chars <= self.done * STEP_LIMIT
    }

    /// The configuration of the run.
    pub closed spec fn config(&self) -> Config {
        self.config
    }

    /// How many inputs are done.
    pub closed spec fn done(&self) -> nat {
        self.done as nat
    }

    /// The sums of the counts of the inputs that are done.
    pub closed spec fn total(&self) -> Counts {
        self.total@
    }

    /// Starts a run: no input is done and the sums are zero.
    pub fn new(config: Config) -> (res: Reporter)
        ensures
            res.config() == config,
            res.done() == 0,
            res.total() == Counts::zero(),
    {
        Reporter { config, done: 0, total: Totals { lines: 0, words: 0, bytes: 0, chars: 0 } }
    }

    /// The name of the input to open and read next: the first that is not
    /// done; `None` when all are done.
    pub fn pending(&self) -> (res: Option<&str>)
        ensures
            self.done() <= self.config().files@.len(),
            match res {
                Some(name) => self.done() < self.config().files@.len() && name@
                    == self.config().names()[self.done() as int],
                None => self.done() == self.config().files@.len(),
            },
    {
        proof {
            use_type_invariant(self);
        }
        if self.done < self.config.files.len() {
            Some(self.config.files[self.done].as_str())
        } else {
            None
        }
    }

    /// The sums of the counts of the inputs that are done.
    pub fn totals(&self) -> (res: Totals)
        ensures
            res@ == self.total(),
    {
        self.total
    }

    /// Takes what came of reading the pending input, and answers with what is
    /// to be done for it. The input is then done, and its counts, if it has
    /// any, are in the sums.
    pub fn step(&mut self, reading: &Reading) -> (action: Action)
        requires
            old(self).done() < old(self).config().files@.len(),
        ensures
            final(self).config() == old(self).config(),
            final(self).done() == old(self).done() + 1,
            final(self).total() == old(self).total().plus(gain(reading@)),
            action@ == action_for(
                old(self).config(),
                old(self).config().names()[old(self).done() as int],
                reading@,
            ),
    {
        proof {
            use_type_invariant(&*self);
        }
        let at = self.done;
        let inputs = self.config.files.len();
        assert(at < inputs);
        self.done = at + 1;
        match reading {
            Reading::Unopened(reason) => Action::Warn(
                format_warning(self.config.files[at].as_str(), reason.as_str()),
            ),
            Reading::Unread => Action::Nothing,
            Reading::Content(bytes) => match count(bytes.as_slice()) {
                Err(_) => Action::Nothing,
                Ok(info) => {
                    let line = format_line(&self.config, &info, self.config.files[at].as_str());
                    self.total.lines = self.total.lines + info.num_lines as u128;
                    self.total.words = self.total.words + info.num_words as u128;
                    self.total.bytes = self.total.bytes + info.num_bytes as u128;
                    self.total.chars = self.total.chars + info.num_chars as u128;
                    Action::Print(line)
                },
            },
        }
    }

    /// What is to be done when no input is pending: with more than one input,
    /// the line of the sums is printed, however many inputs went into them.
    pub fn finish(&self) -> (res: Option<String>)
        ensures
            match res {
                Some(line) => self.config().has_total() && line@ == total_text(
                    self.config(),
                    self.total(),
                ),
                None => !self.config().has_total(),
            },
    {
        if self.config.files.len() > 1 {
            Some(format_total(&self.config, &self.total))
        } else {
            None
        }
    }
}

/// The `Reading`s of `readings` by their contents.
pub open spec fn reading_views(readings: Seq<Reading>) -> Seq<ReadingView> {
    Seq::new(readings.len(), |i: int| readings[i]@)
}

/// The `Action`s of `actions` by their contents.
pub open spec fn action_views(actions: Seq<Action>) -> Seq<ActionView> {
    Seq::new(actions.len(), |i: int| actions[i]@)
}

/// The sums of what the first `n` of `readings` add.
pub open spec fn sum_of(readings: Seq<ReadingView>, n: int) -> Counts
    decreases n,
{
    if n <= 0 {
        Counts::zero()
    } else {
        sum_of(readings, n - 1).plus(gain(readings[n - 1]))
    }
}

/// The report of a whole run, in which `readings` came of the inputs of
/// `config`, one of each in the same order: the action for each input, then,
/// with more than one input, the line of the sums.
pub open spec fn report(config: Config, readings: Seq<ReadingView>) -> Seq<ActionView>
    recommends
        readings.len() == config.files@.len(),
{
    Seq::new(readings.len(), |i: int| action_for(config, config.names()[i], readings[i])) + if config.has_total() {
        seq![ActionView::Print(total_text(config, sum_of(readings, readings.len() as int)))]
    } else {
        Seq::empty()
    }
}

/// Reports a whole run, given what came of reading each input of `config`:
/// the actions to perform, in order.
pub fn run(config: Config, readings: &Vec<Reading>) -> (actions: Vec<Action>)
    requires
        readings@.len() == config.files@.len(),
    ensures
        action_views(actions@) == report(config, reading_views(readings@)),
{
    let ghost views = reading_views(readings@);
    let mut reporter = Reporter::new(config);
    let mut actions: Vec<Action> = Vec::new();
    let mut at: usize = 0;
    while at < readings.len()
        invariant
            at <= readings@.len(),
            readings@.len() == config.files@.len(),
            views == reading_views(readings@),
            reporter.config() == config,
            reporter.done() == at,
            reporter.total() == sum_of(views, at as int),
            actions@.len() == at,
            forall|i: int|
                0 <= i < at ==> (#[trigger] actions@[i])@ == action_for(
                    config,
                    config.names()[i],
                    views[i],
                ),
        decreases readings@.len() - at,
    {
        let action = reporter.step(&readings[at]);
        actions.push(action);
        at = at + 1;
    }
    match reporter.finish() {
        Some(line) => {
            actions.push(Action::Print(line));
        },
        None => {},
    }
    assert(action_views(actions@) =~= report(config, views));
    actions
}

/// With no count asked for, every line of the report shows the lines, the
/// words and the bytes in this order, and not the characters.
pub proof fn law_default_shows_lines_words_bytes(
    files: Vec<String>,
    counts: Counts,
    name: Seq<char>,
)
    ensures
        ({
            let config = Config::resolved(files, false, false, false, false);
            let columns = field_text(counts.lines, true) + field_text(counts.words, true)
                + field_text(counts.bytes, true);
            &&& line_text(config, counts, name) == columns + name_suffix(name)
            &&& total_text(config, counts) == columns + seq![' ', 't', 'o', 't', 'a', 'l']
        }),
{
    let config = Config::resolved(files, false, false, false, false);
    let columns = field_text(counts.lines, true) + field_text(counts.words, true) + field_text(
        counts.bytes,
        true,
    );
    assert(row_text(config, counts) =~= columns);
}

/// Of two inputs of which the first is read and holds text and the second
/// cannot be opened, the report has the line of the first, the warning for the
/// second, and a line of sums, which are the counts of the first alone.
pub proof fn law_unopened_input_adds_nothing(config: Config, content: Seq<u8>, reason: Seq<char>)
    requires
        config.files@.len() == 2,
        counts_of(content) is Some,
    ensures
        report(config, seq![ReadingView::Content(content), ReadingView::Unopened(reason)])
            == seq![
            ActionView::Print(line_text(config, counts_of(content)->0, config.names()[0])),
            ActionView::Warn(warning_text(config.names()[1], reason)),
            ActionView::Print(total_text(config, counts_of(content)->0)),
        ],
{
    let readings = seq![ReadingView::Content(content), ReadingView::Unopened(reason)];
    assert(sum_of(readings, 2) == counts_of(content)->0) by {
        reveal_with_fuel(sum_of, 3);
    }
    assert(report(config, readings) =~= seq![
        ActionView::Print(line_text(config, counts_of(content)->0, config.names()[0])),
        ActionView::Warn(warning_text(config.names()[1], reason)),
        ActionView::Print(total_text(config, counts_of(content)->0)),
    ]);
}

} // verus!
