//! What a run is asked to do: which inputs to read and which counts to show.

use vstd::prelude::*;
use vstd::string::StrSliceExecFns;

verus! {

/// The inputs of a run, in the order in which they are read and reported, and
/// the counts that each line of the report shows.
///
/// The four choices are independent: none excludes another.
#[derive(Debug)]
pub struct Config {
    pub files: Vec<String>,
    pub lines: bool,
    pub words: bool,
    pub bytes: bool,
    pub chars: bool,
}

/// Whether `name` stands for standard input: it is the single character `-`.
pub open spec fn names_stdin(name: Seq<char>) -> bool {
    name =~= seq!['-']
}

/// Tells whether `name` stands for standard input rather than a file.
pub fn is_stdin(name: &str) -> (res: bool)
    ensures
        res == names_stdin(name@),
{
    name.unicode_len() == 1 && name.get_char(0) == '-'
}

impl Config {
    /// The configuration for `files` and the counts asked for: those counts
    /// are shown, and where none is asked for, lines, words and bytes are.
    pub open spec fn resolved(
        files: Vec<String>,
        lines: bool,
        words: bool,
        bytes: bool,
        chars: bool,
    ) -> Config {
        if lines || words || bytes || chars {
            Config { files, lines, words, bytes, chars }
        } else {
            Config { files, lines: true, words: true, bytes: true, chars: false }
        }
    }

    /// The configuration for `files` and the counts asked for. Where none is
    /// asked for, lines, words and bytes are shown, and characters are not.
    pub fn new(files: Vec<String>, lines: bool, words: bool, bytes: bool, chars: bool) -> (res:
        Config)
        ensures
            res == Config::resolved(files, lines, words, bytes, chars),
    {
        let none = !(lines || words || bytes || chars);
        Config { files, lines: lines || none, words: words || none, bytes: bytes || none, chars }
    }

    /// The names of the inputs, as texts.
    pub open spec fn names(&self) -> Seq<Seq<char>> {
        Seq::new(self.files@.len(), |i: int| self.files@[i]@)
    }

    /// Whether a line for the whole run follows the lines of the inputs: with
    /// more than one input, however many of them can be read.
    pub open spec fn has_total(&self) -> bool {
        self.files@.len() > 1
    }
}

} // verus!
