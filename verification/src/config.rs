//! Command-line selection of count categories.
//!
//! `Cli` mirrors the raw flags; `Config` is the immutable configuration
//! derived from them once, with the implicit "all" mode (lines, words,
//! bytes) recorded in a field of its own.

use vstd::prelude::*;

verus! {

/// The raw command-line choices: the input paths and one boolean per
/// count category.
pub struct Cli {
    /// The paths of the inputs to analyze; `-` stands for standard input.
    pub files: Vec<String>,
    /// Count bytes.
    pub bytes: bool,
    /// Count lines.
    pub lines: bool,
    /// Count words.
    pub words: bool,
    /// Count Unicode scalar values.
    pub chars: bool,
}

/// The configuration of a run: the input paths, the explicitly enabled
/// categories, and whether the implicit "all" mode is in force.
pub struct Config {
    /// The paths of the inputs, in the order they are processed.
    pub files_paths: Vec<String>,
    /// Show the line count.
    pub lines: bool,
    /// Show the word count.
    pub words: bool,
    /// Show the byte count.
    pub bytes: bool,
    /// Show the character count.
    pub chars: bool,
    /// No category was enabled explicitly, so lines, words and bytes are
    /// all shown.
    pub all: bool,
}

impl Config {
    /// A well-formed configuration: the "all" mode holds exactly when no
    /// category was enabled explicitly.
    pub open spec fn wf(self) -> bool {
        self.all == !(self.lines || self.words || self.bytes || self.chars)
    }

    /// Words are tallied when requested explicitly or in "all" mode.
    pub open spec fn words_active(self) -> bool {
        self.words || self.all
    }

    /// Characters are tallied when requested explicitly or in "all" mode.
    pub open spec fn chars_active(self) -> bool {
        self.chars || self.all
    }

    /// Derives the immutable configuration from the raw flags.
    pub fn build(args: Cli) -> (r: Result<Config, &'static str>)
        ensures
            r is Ok,
            r.unwrap().files_paths == args.files,
            r.unwrap().lines == args.lines,
            r.unwrap().words == args.words,
            r.unwrap().bytes == args.bytes,
            r.unwrap().chars == args.chars,
            r.unwrap().wf(),
    {
        let all = is_all_enabled(&args);
        Ok(Config {
            files_paths: args.files,
            lines: args.lines,
            bytes: args.bytes,
            words: args.words,
            chars: args.chars,
            all,
        })
    }
}

/// The implicit "all" mode applies exactly when no category flag was given.
pub fn is_all_enabled(args: &Cli) -> (r: bool)
    ensures
        r == !(args.lines || args.bytes || args.words || args.chars),
{
    if args.lines || args.bytes || args.words || args.chars {
        return false;
    }
    true
}

} // verus!
