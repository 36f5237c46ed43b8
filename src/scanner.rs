use grep_searcher::sinks::Bytes;
use grep_searcher::{BinaryDetection, Encoding, Searcher, SearcherBuilder};
use vstd::prelude::*;
use vstd::utf8::{decode_utf8, valid_utf8};

use crate::matcher::PatternMatcher;
use crate::request::{span_within_line, ConfigError, MatchResult, MatchView};

verus! {

#[verifier::external_type_specification]
#[verifier::external_body]
pub struct ExEncoding(Encoding);

#[verifier::external_type_specification]
#[verifier::external_body]
pub struct ExBinaryDetection(BinaryDetection);

#[verifier::external_type_specification]
#[verifier::external_body]
pub struct ExSearcher(Searcher);

/// Whether grep-searcher knows an encoding under this label.
pub uninterp spec fn encoding_known(label: Seq<char>) -> bool;

/// The lines, with their 1-based numbers and their terminators, that
/// grep-searcher reports as matching when it searches `haystack` with the
/// pattern under the two flags, decoding it under `encoding`, and quitting at
/// the first NUL byte unless `skip_binary` is set.
pub uninterp spec fn matching_lines(
    pattern: Seq<char>,
    case_insensitive: bool,
    multi_line: bool,
    encoding: Seq<char>,
    skip_binary: bool,
    haystack: Seq<u8>,
) -> Seq<(u64, Seq<u8>)>;

/// Line numbers are at least 1 and strictly increase.
pub open spec fn numbered_in_order(lines: Seq<(u64, Seq<u8>)>) -> bool {
    &&& forall|i: int| 0 <= i < lines.len() ==> #[trigger] lines[i].0 >= 1
    &&& forall|i: int, j: int| 0 <= i < j < lines.len() ==> #[trigger] lines[i].0 < #[trigger] lines[j].0
}

/// Events carry line numbers that are at least 1 and strictly increase.
pub open spec fn events_in_line_order(events: Seq<MatchView>) -> bool {
    &&& forall|k: int| 0 <= k < events.len() ==> #[trigger] events[k].lnum >= 1
    &&& forall|k: int, l: int| 0 <= k < l < events.len() ==> #[trigger] events[k].lnum < #[trigger] events[l].lnum
}

/// Relies on grep-searcher's `Encoding::new`, which looks the label up with
/// encoding_rs's `for_label_no_replacement`: whether it succeeds depends on the
/// label alone.
#[verifier::external_body]
fn resolve_encoding(label: &str) -> (r: Option<Encoding>)
    ensures
        r is Some <==> encoding_known(label@),
{
    Encoding::new(label).ok()
}

/// Relies on grep-searcher's `BinaryDetection::none`.
pub assume_specification[ BinaryDetection::none ]() -> BinaryDetection;

/// Relies on grep-searcher's `BinaryDetection::quit`.
pub assume_specification[ BinaryDetection::quit ](binary_byte: u8) -> BinaryDetection;

/// Relies on grep-searcher's `SearcherBuilder`: a searcher that counts lines,
/// decodes under `encoding` and applies `detection`.
#[verifier::external_body]
fn build_searcher(encoding: Encoding, detection: BinaryDetection) -> Searcher {
    SearcherBuilder::new().binary_detection(detection).line_number(true).encoding(
        Some(encoding),
    ).build()
}

/// Relies on grep-searcher's `Searcher::search_slice` with a `Bytes` sink that
/// keeps every matching line it is handed: the lines are those the searcher
/// reports for these settings and bytes. It succeeds: the configuration check
/// passes (no heap limit; matcher and searcher both end lines with a line
/// feed), reading and transcoding a slice cannot fail, the sink has line
/// numbers, and the closure never fails. Line numbers start at 1 and grow by
/// the line terminators counted up to each reported line, which lies past the
/// terminator of the one reported before it, so they strictly increase.
#[verifier::external_body]
fn search_slice(scanner: &mut LineScanner, haystack: &[u8]) -> (r: Result<
    Vec<(u64, Vec<u8>)>,
    String,
>)
    ensures
        final(scanner).matcher == old(scanner).matcher,
        final(scanner).encoding == old(scanner).encoding,
        final(scanner).skip_binary == old(scanner).skip_binary,
        r is Ok,
        r matches Ok(lines) ==> numbered_in_order(lines.deep_view()),
        r matches Ok(lines) ==> lines.deep_view() == matching_lines(
            old(scanner).matcher.pattern(),
            old(scanner).matcher.case_insensitive(),
            old(scanner).matcher.multi_line(),
            old(scanner).encoding@,
            old(scanner).skip_binary,
            haystack@,
        ),
{
    let mut lines = Vec::new();
    let sink = Bytes(|lnum, line| Ok(record_line(&mut lines, lnum, line)));
    match scanner.searcher.search_slice(&scanner.matcher.regex, haystack, sink) {
        Ok(()) => Ok(lines),
        Err(e) => Err(e.to_string()),
    }
}

/// Appends one reported line to `lines`; always asks the searcher to go on.
fn record_line(lines: &mut Vec<(u64, Vec<u8>)>, lnum: u64, line: &[u8]) -> (r: bool)
    ensures
        final(lines).deep_view() == old(lines).deep_view().push((lnum, line@)),
        r,
{
    let copy = vstd::slice::slice_to_vec(line);
    proof {
        assert(copy.deep_view() =~= line@);
    }
    lines.push((lnum, copy));
    proof {
        assert(final(lines).deep_view() =~= old(lines).deep_view().push((lnum, line@)));
    }
    true
}

/// Relies on `String::from_utf8`: it succeeds exactly on well-formed UTF-8
/// and then holds the characters those bytes encode.
#[verifier::external_body]
fn decode_line(bytes: Vec<u8>) -> (r: Option<String>)
    ensures
        r is Some <==> valid_utf8(bytes@),
        r matches Some(s) ==> s@ == decode_utf8(bytes@),
{
    String::from_utf8(bytes).ok()
}

/// A line's text: the bytes without a final line feed, and without a carriage
/// return just before that line feed.
pub open spec fn line_text(raw: Seq<u8>) -> Seq<u8> {
    if raw.len() > 0 && raw.last() == 10u8 {
        let body = raw.drop_last();
        if body.len() > 0 && body.last() == 13u8 {
            body.drop_last()
        } else {
            body
        }
    } else {
        raw
    }
}

/// The event for line `lnum` of file `path` whose text is `text` and whose
/// first match span is `span`: none where the text is not UTF-8 or nothing
/// matched.
pub open spec fn line_event(path: Seq<char>, lnum: u64, text: Seq<u8>, span: Option<(usize, usize)>) -> Option<MatchView> {
    if valid_utf8(text) && span is Some {
        Some(
            MatchView {
                path,
                lnum,
                line: decode_utf8(text),
                start: span->Some_0.0,
                end: span->Some_0.1,
            },
        )
    } else {
        None
    }
}

/// The events of file `path`, given the lines that the searcher reported.
pub open spec fn file_events(m: PatternMatcher, path: Seq<char>, lines: Seq<(u64, Seq<u8>)>) -> Seq<MatchView>
    decreases lines.len(),
{
    if lines.len() == 0 {
        seq![]
    } else {
        let prev = file_events(m, path, lines.drop_last());
        let text = line_text(lines.last().1);
        match line_event(path, lines.last().0, text, m.spec_find(text)) {
            Some(e) => prev.push(e),
            None => prev,
        }
    }
}

/// Whether event `e` of file `path` stands for the reported `line`: it holds
/// the line's number, its decoded text, and the span that the matcher reports
/// on that text.
pub open spec fn reports(m: PatternMatcher, path: Seq<char>, line: (u64, Seq<u8>), e: MatchView) -> bool {
    let text = line_text(line.1);
    line_event(path, line.0, text, m.spec_find(text)) == Some(e)
}

/// Every event of a file stands for one of the reported lines, with that
/// line's number and the span of the first match in its text; and every
/// reported line whose text decodes and holds a match yields an event.
pub proof fn lemma_events_match_lines(m: PatternMatcher, path: Seq<char>, lines: Seq<(u64, Seq<u8>)>)
    ensures
        forall|k: int|
            0 <= k < file_events(m, path, lines).len() ==> exists|j: int|
                0 <= j < lines.len() && reports(m, path, lines[j], #[trigger] file_events(m, path, lines)[k]),
        forall|j: int|
            0 <= j < lines.len() && (#[trigger] line_event(
                path,
                lines[j].0,
                line_text(lines[j].1),
                m.spec_find(line_text(lines[j].1)),
            )) is Some ==> exists|k: int|
                0 <= k < file_events(m, path, lines).len() && reports(m, path, lines[j], file_events(m, path, lines)[k]),
    decreases lines.len(),
{
    if lines.len() > 0 {
        let prev_lines = lines.drop_last();
        let prev = file_events(m, path, prev_lines);
        let all = file_events(m, path, lines);
        lemma_events_match_lines(m, path, prev_lines);
        assert forall|k: int| 0 <= k < all.len() implies exists|j: int|
            0 <= j < lines.len() && reports(m, path, lines[j], #[trigger] all[k]) by {
            if k < prev.len() {
                let j = choose|j: int| 0 <= j < prev_lines.len() && reports(m, path, prev_lines[j], prev[k]);
                assert(prev_lines[j] == lines[j]);
                assert(all[k] == prev[k]);
            } else {
                assert(reports(m, path, lines[lines.len() - 1], all[k]));
            }
        }
        assert forall|j: int|
            0 <= j < lines.len() && (#[trigger] line_event(
                path,
                lines[j].0,
                line_text(lines[j].1),
                m.spec_find(line_text(lines[j].1)),
            )) is Some implies exists|k: int|
                0 <= k < all.len() && reports(m, path, lines[j], all[k]) by {
            if j < prev_lines.len() {
                assert(prev_lines[j] == lines[j]);
                assert(line_event(
                    path,
                    prev_lines[j].0,
                    line_text(prev_lines[j].1),
                    m.spec_find(line_text(prev_lines[j].1)),
                ) is Some);
                let k = choose|k: int| 0 <= k < prev.len() && reports(m, path, prev_lines[j], prev[k]);
                assert(all[k] == prev[k]);
            } else {
                assert(reports(m, path, lines[j], all[prev.len() as int]));
            }
        }
    }
}

/// Removes a final line feed, and a carriage return just before it.
pub fn strip_line_terminator(raw: &mut Vec<u8>)
    ensures
        final(raw)@ == line_text(old(raw)@),
{
    let n = raw.len();
    if n > 0 && raw[n - 1] == 10u8 {
        raw.pop();
        let m = raw.len();
        if m > 0 && raw[m - 1] == 13u8 {
            raw.pop();
        }
    }
}

/// Builds the event for line `lnum` of `path` from its text and the span the
/// matcher reported on that text.
pub fn event_for_line(path: &String, lnum: u64, text: Vec<u8>, span: Option<(usize, usize)>) -> (r: Option<MatchResult>)
    ensures
        r matches Some(e) ==> line_event(path@, lnum, text@, span) == Some(e@),
        r is None ==> line_event(path@, lnum, text@, span) is None,
{
    match span {
        None => None,
        Some((start, end)) => match decode_line(text) {
            None => None,
            Some(line) => Some(MatchResult { path: path.clone(), lnum, line, start, end }),
        },
    }
}

/// The events of file `path` for the lines the searcher reported, in their
/// order: one per line whose text decodes and holds a match.
pub fn events_from_lines(matcher: &PatternMatcher, path: &String, lines: &Vec<(u64, Vec<u8>)>) -> (r: Vec<MatchResult>)
    ensures
        r@.map_values(|e: MatchResult| e@) == file_events(*matcher, path@, lines.deep_view()),
        forall|k: int| 0 <= k < r@.len() ==> span_within_line(#[trigger] r@[k]@),
{
        let ghost all = lines.deep_view();
        let ghost m = *matcher;
        let mut events: Vec<MatchResult> = Vec::new();
        let mut i: usize = 0;
        while i < lines.len()
            invariant
                m == *matcher,
                all == lines.deep_view(),
                0 <= i <= lines@.len(),
                events@.map_values(|e: MatchResult| e@) == file_events(m, path@, all.take(i as int)),
                forall|k: int| 0 <= k < events@.len() ==> span_within_line(#[trigger] events@[k]@),
            decreases lines@.len() - i,
        {
            let lnum = lines[i].0;
            let mut text = vstd::slice::slice_to_vec(lines[i].1.as_slice());
            strip_line_terminator(&mut text);
            let span = matcher.find(text.as_slice());
            let ghost prev = events@;
            let ghost text_bytes = text@;
            match event_for_line(path, lnum, text, span) {
                Some(e) => events.push(e),
                None => {},
            }
            proof {
                if events@.len() > prev.len() {
                    vstd::utf8::decode_utf8_encode_utf8(text_bytes);
                    assert(span_within_line(events@[prev.len() as int]@));
                }
                let next = all.take(i + 1);
                assert(next.drop_last() =~= all.take(i as int));
                assert(next.last() == all[i as int]);
                assert(all[i as int].1 == lines@[i as int].1@);
                assert(events@.map_values(|e: MatchResult| e@) =~= file_events(m, path@, next));
            }
            i = i + 1;
        }
        proof {
            assert(all.take(lines@.len() as int) =~= all);
        }
    events
}

/// Where the reported lines are numbered in order, so are the events.
pub proof fn lemma_events_in_line_order(m: PatternMatcher, path: Seq<char>, lines: Seq<(u64, Seq<u8>)>)
    requires
        numbered_in_order(lines),
    ensures
        events_in_line_order(file_events(m, path, lines)),
    decreases lines.len(),
{
    if lines.len() > 0 {
        let prev_lines = lines.drop_last();
        let prev = file_events(m, path, prev_lines);
        let all = file_events(m, path, lines);
        assert(numbered_in_order(prev_lines)) by {
            assert forall|i: int, j: int| 0 <= i < j < prev_lines.len() implies #[trigger] prev_lines[i].0
                < #[trigger] prev_lines[j].0 by {
                assert(prev_lines[i] == lines[i] && prev_lines[j] == lines[j]);
            }
            assert forall|i: int| 0 <= i < prev_lines.len() implies #[trigger] prev_lines[i].0 >= 1 by {
                assert(prev_lines[i] == lines[i]);
            }
        }
        lemma_events_in_line_order(m, path, prev_lines);
        lemma_events_match_lines(m, path, prev_lines);
        if all.len() > prev.len() {
            let last = lines.len() - 1;
            assert(all[prev.len() as int].lnum == lines[last].0);
            assert forall|k: int| 0 <= k < prev.len() implies #[trigger] all[k].lnum < lines[last].0 by {
                let j = choose|j: int| 0 <= j < prev_lines.len() && reports(m, path, prev_lines[j], prev[k]);
                assert(prev_lines[j] == lines[j]);
                assert(all[k] == prev[k]);
                assert(lines[j].0 < lines[last].0);
            }
            assert forall|k: int, l: int| 0 <= k < l < all.len() implies #[trigger] all[k].lnum
                < #[trigger] all[l].lnum by {
                assert(all[k] == prev[k]);
                if l < prev.len() {
                    assert(all[l] == prev[l]);
                }
            }
            assert forall|k: int| 0 <= k < all.len() implies #[trigger] all[k].lnum >= 1 by {
                if k < prev.len() {
                    assert(all[k] == prev[k]);
                }
            }
        }
    }
}

/// What one run scans with: a matcher, a decoder and a binary-data policy.
pub struct LineScanner {
    searcher: Searcher,
    matcher: PatternMatcher,
    encoding: String,
    skip_binary: bool,
}

impl LineScanner {
    pub closed spec fn matcher(&self) -> PatternMatcher {
        self.matcher
    }

    pub closed spec fn encoding(&self) -> Seq<char> {
        self.encoding@
    }

    pub closed spec fn skip_binary(&self) -> bool {
        self.skip_binary
    }

    /// Resolves `encoding`; fails exactly when no decoder is known under it.
    pub fn new(matcher: PatternMatcher, encoding: &str, skip_binary: bool) -> (r: Result<
        LineScanner,
        ConfigError,
    >)
        ensures
            r is Ok <==> encoding_known(encoding@),
            r matches Err(e) ==> e matches ConfigError::UnknownEncoding(l) && l@ == encoding@,
            r matches Ok(s) ==> s.matcher() == matcher && s.encoding() == encoding@
                && s.skip_binary() == skip_binary,
    {
        match resolve_encoding(encoding) {
            None => Err(ConfigError::UnknownEncoding(encoding.to_owned())),
            Some(enc) => {
                let detection = if skip_binary {
                    BinaryDetection::none()
                } else {
                    BinaryDetection::quit(0u8)
                };
                Ok(
                    LineScanner {
                        searcher: build_searcher(enc, detection),
                        matcher,
                        encoding: encoding.to_owned(),
                        skip_binary,
                    },
                )
            },
        }
    }

    /// The lines of `bytes` that the searcher reports for these settings.
    pub open spec fn spec_lines(&self, bytes: Seq<u8>) -> Seq<(u64, Seq<u8>)> {
        matching_lines(
            self.matcher().pattern(),
            self.matcher().case_insensitive(),
            self.matcher().multi_line(),
            self.encoding(),
            self.skip_binary(),
            bytes,
        )
    }

    /// Scans the contents of file `path`: one event per reported line whose
    /// text decodes and holds a match, in the order of the lines. It always
    /// succeeds.
    pub fn scan(&mut self, path: &String, bytes: &[u8]) -> (r: Result<Vec<MatchResult>, String>)
        ensures
            final(self).matcher() == old(self).matcher(),
            final(self).encoding() == old(self).encoding(),
            final(self).skip_binary() == old(self).skip_binary(),
            r is Ok,
            r matches Ok(events) ==> events@.map_values(|e: MatchResult| e@) == file_events(
                old(self).matcher(),
                path@,
                old(self).spec_lines(bytes@),
            ),
            r matches Ok(events) ==> forall|k: int|
                0 <= k < events@.len() ==> span_within_line(#[trigger] events@[k]@),
            r matches Ok(events) ==> events_in_line_order(events@.map_values(|e: MatchResult| e@)),
    {
        let lines = match search_slice(self, bytes) {
            Ok(lines) => lines,
            Err(msg) => return Err(msg),
        };
        let events = events_from_lines(&self.matcher, path, &lines);
        proof {
            lemma_events_in_line_order(self.matcher, path@, lines.deep_view());
        }
        Ok(events)
    }
}

} // verus!
