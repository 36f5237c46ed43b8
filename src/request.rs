use vstd::prelude::*;

verus! {

/// What a caller asks the engine to search for, and how.
#[derive(Clone, Debug)]
pub struct SearchRequest {
    pub root_path: String,
    pub pattern: String,
    pub encoding_name: String,
    pub skip_binary_detection: bool,
    pub case_insensitive: bool,
    pub multi_line: bool,
}

/// Why a run could not be started.
#[derive(Clone, Debug)]
pub enum ConfigError {
    /// The pattern does not compile; holds the regex engine's message.
    InvalidPattern(String),
    /// No decoder is known under this encoding name.
    UnknownEncoding(String),
}

/// One matching line of one file.
#[derive(Clone, Debug)]
pub struct MatchResult {
    pub path: String,
    /// 1-based line number.
    pub lnum: u64,
    /// The decoded line, without its line terminator.
    pub line: String,
    /// Byte offsets of the first match within `line`.
    pub start: usize,
    pub end: usize,
}

/// The mathematical value of a [`MatchResult`].
pub struct MatchView {
    pub path: Seq<char>,
    pub lnum: u64,
    pub line: Seq<char>,
    pub start: usize,
    pub end: usize,
}

impl View for MatchResult {
    type V = MatchView;

    open spec fn view(&self) -> MatchView {
        MatchView {
            path: self.path@,
            lnum: self.lnum,
            line: self.line@,
            start: self.start,
            end: self.end,
        }
    }
}

/// The span lies within the line: `start <= end <=` the line's length in
/// UTF-8 bytes.
pub open spec fn span_within_line(e: MatchView) -> bool {
    e.start <= e.end <= vstd::utf8::encode_utf8(e.line).len()
}

impl Default for MatchResult {
    fn default() -> (r: MatchResult)
        ensures
            r@ == (MatchView {
                path: Seq::empty(),
                lnum: 0,
                line: Seq::empty(),
                start: 0,
                end: 0,
            }),
    {
        MatchResult { path: String::new(), lnum: 0, line: String::new(), start: 0, end: 0 }
    }
}

} // verus!
