//! The content pattern: a compiled regular expression and the scan that finds
//! every match of it on one line.

use vstd::prelude::*;
use vstd::string::*;
use vstd::utf8::*;

verus! {

/// One match on a line: the half-open byte interval `[start, end)`.
pub type Span = (usize, usize);

/// Why a pattern of the request could not be compiled. Each variant carries the
/// source text that was refused.
#[derive(Debug)]
pub enum PatternError {
    /// The content pattern is no valid regular expression.
    Regex(String),
    /// The file-name pattern is no valid glob.
    Glob(String),
}

/// `regex::Regex`, a compiled regular expression; nothing inside it is seen.
#[verifier::external_type_specification]
#[verifier::external_body]
pub struct ExRegex(regex::Regex);

/// `regex::Error`, which says why a source text did not compile.
#[verifier::external_type_specification]
#[verifier::external_body]
pub struct ExRegexError(regex::Error);

/// Whether `regex::Regex::new` compiles this source text.
pub uninterp spec fn regex_accepts(source: Seq<char>) -> bool;

/// The source text that a compiled expression was built from, which
/// `regex::Regex::as_str` hands out.
pub uninterp spec fn regex_pattern(re: &regex::Regex) -> Seq<char>;

/// What `regex::Regex::find_at` returns for the expression compiled from
/// `pattern`, searching `haystack` from byte offset `start`: the offsets of the
/// leftmost match that begins at or after `start`, if there is one.
pub uninterp spec fn regex_first_match(pattern: Seq<char>, haystack: Seq<char>, start: int) -> Option<
    Span,
>;

/// Calls `regex::Regex::new`. Trusted: it succeeds exactly on the sources that
/// `regex_accepts` names, and the compiled expression remembers its source.
#[verifier::external_body]
fn regex_new(source: &str) -> (r: Result<regex::Regex, regex::Error>)
    ensures
        r.is_ok() == regex_accepts(source@),
        r matches Ok(re) ==> regex_pattern(&re) == source@,
{
    regex::Regex::new(source)
}

/// Calls `regex::Regex::find_at`. Trusted: the result is the named one; a match
/// lies within the searched part of the line, its start is not behind its end,
/// and both offsets are character boundaries. The call panics on a `start`
/// beyond the line's end, which `requires` leaves out.
#[verifier::external_body]
fn regex_find_at(re: &regex::Regex, line: &str, start: usize) -> (r: Option<Span>)
    requires
        start <= line.spec_bytes().len(),
        is_char_boundary(line.spec_bytes(), start as int),
    ensures
        r == regex_first_match(regex_pattern(re), line@, start as int),
        r matches Some(span) ==> start <= span.0 && span_fits(line.spec_bytes(), span),
{
    match re.find_at(line, start) {
        Some(found) => Some((found.start(), found.end())),
        None => None,
    }
}

/// A span lies within the text and cuts no character in two.
pub open spec fn span_fits(bytes: Seq<u8>, span: Span) -> bool {
    &&& span.0 <= span.1 <= bytes.len()
    &&& is_char_boundary(bytes, span.0 as int)
    &&& is_char_boundary(bytes, span.1 as int)
}

/// The spans of one line as the library reports them: each holds at least one
/// byte and fits the text, and each begins where the one before it has ended,
/// or later.
pub open spec fn spans_ordered(bytes: Seq<u8>, spans: Seq<Span>) -> bool {
    &&& forall|i: int| 0 <= i < spans.len() ==> (#[trigger] spans[i]).0 < spans[i].1 && span_fits(bytes, spans[i])
    &&& forall|i: int, j: int| 0 <= i < j < spans.len() ==> (#[trigger] spans[i]).1 <= (#[trigger] spans[j]).0
}

/// How many bytes from `pos` on continue a character that began earlier.
pub open spec fn continuation_run(bytes: Seq<u8>, pos: int) -> nat
    decreases bytes.len() - pos,
{
    if pos < 0 || pos >= bytes.len() || is_char_boundary(bytes, pos) {
        0
    } else {
        1 + continuation_run(bytes, pos + 1)
    }
}

/// The first character boundary behind `pos`: where the character that begins
/// at `pos` ends.
pub open spec fn boundary_after(bytes: Seq<u8>, pos: int) -> int {
    pos + 1 + continuation_run(bytes, pos + 1)
}

/// What the scan does with the outcome of one search.
#[derive(Debug, Clone, Copy, PartialEq, Eq, Structural)]
pub enum ScanStep {
    /// Nothing more is to be found on this line.
    Stop,
    /// The match was empty: it is passed over, and the scan goes on one
    /// character further.
    Skip { resume: usize },
    /// The match is reported, and the scan goes on where it ended.
    Take { start: usize, end: usize },
}

/// The step that follows a search from `pos` which came back with `found`.
///
/// A match that does not lie in `[pos, len]` on character boundaries ends the
/// scan, as no match does. An empty match is never reported: the scan moves on
/// by one character, or stops at the end of the line.
pub open spec fn step_after(bytes: Seq<u8>, pos: int, found: Option<Span>) -> ScanStep {
    match found {
        None => ScanStep::Stop,
        Some(span) => if !(pos <= span.0 && span_fits(bytes, span)) {
            ScanStep::Stop
        } else if span.0 < span.1 {
            ScanStep::Take { start: span.0, end: span.1 }
        } else if span.1 < bytes.len() {
            ScanStep::Skip { resume: boundary_after(bytes, span.1 as int) as usize }
        } else {
            ScanStep::Stop
        },
    }
}

/// Every match of `pattern` on `line` that the scan reports from `pos` on, from
/// left to right.
pub open spec fn matches_from(pattern: Seq<char>, line: Seq<char>, pos: int) -> Seq<Span>
    decreases encode_utf8(line).len() - pos,
{
    let bytes = encode_utf8(line);
    if pos < 0 || pos > bytes.len() {
        Seq::empty()
    } else {
        match step_after(bytes, pos, regex_first_match(pattern, line, pos)) {
            ScanStep::Stop => Seq::empty(),
            ScanStep::Skip { resume } => if pos < resume <= bytes.len() {
                matches_from(pattern, line, resume as int)
            } else {
                Seq::empty()
            },
            ScanStep::Take { start, end } => seq![(start, end)] + matches_from(pattern, line, end as int),
        }
    }
}

/// Every match of `pattern` on `line`.
pub open spec fn all_matches(pattern: Seq<char>, line: Seq<char>) -> Seq<Span> {
    matches_from(pattern, line, 0)
}

/// The end of the character that begins at `pos`.
pub fn next_boundary(line: &str, pos: usize) -> (r: usize)
    requires
        pos < line.spec_bytes().len(),
    ensures
        r == boundary_after(line.spec_bytes(), pos as int),
        pos < r <= line.spec_bytes().len(),
        is_char_boundary(line.spec_bytes(), r as int),
{
    let ghost bytes = line.spec_bytes();
    proof {
        encode_utf8_valid_utf8(line@);
        is_char_boundary_start_end_of_seq(bytes);
    }
    let len: usize = line.as_bytes().len();
    let mut r: usize = pos + 1;
    while r < len && !line.is_char_boundary(r)
        invariant
            bytes == line.spec_bytes(),
            len == bytes.len(),
            pos < r <= len,
            is_char_boundary(bytes, len as int),
            boundary_after(bytes, pos as int) == r + continuation_run(bytes, r as int),
        decreases len - r,
    {
        r = r + 1;
    }
    r
}

/// Decides how the scan goes on after one search of `line` from `pos`.
pub fn scan_step(line: &str, pos: usize, found: Option<Span>) -> (step: ScanStep)
    ensures
        step == step_after(line.spec_bytes(), pos as int, found),
        step matches ScanStep::Skip { resume } ==> pos < resume <= line.spec_bytes().len()
            && is_char_boundary(line.spec_bytes(), resume as int),
        step matches ScanStep::Take { start, end } ==> pos <= start < end && span_fits(
            line.spec_bytes(),
            (start, end),
        ),
{
    match found {
        None => ScanStep::Stop,
        Some(span) => {
            let (start, end) = span;
            let len: usize = line.as_bytes().len();
            if !(pos <= start && start <= end && end <= len && line.is_char_boundary(start)
                && line.is_char_boundary(end)) {
                ScanStep::Stop
            } else if start < end {
                ScanStep::Take { start, end }
            } else if end < len {
                ScanStep::Skip { resume: next_boundary(line, end) }
            } else {
                ScanStep::Stop
            }
        },
    }
}

/// A compiled content pattern. Its view is the source text it was compiled
/// from.
pub struct PatternMatcher {
    regex: regex::Regex,
}

impl View for PatternMatcher {
    type V = Seq<char>;

    closed spec fn view(&self) -> Seq<char> {
        regex_pattern(&self.regex)
    }
}

impl PatternMatcher {
    /// Compiles the content pattern, or says that it is no regular expression.
    pub fn compile(source: &str) -> (r: Result<PatternMatcher, PatternError>)
        ensures
            r.is_ok() == regex_accepts(source@),
            r matches Ok(m) ==> m@ == source@,
            r matches Err(e) ==> e matches PatternError::Regex(text) && text@ == source@,
    {
        match regex_new(source) {
            Ok(regex) => Ok(PatternMatcher { regex }),
            Err(_) => Err(PatternError::Regex(source.to_owned())),
        }
    }

    /// All matches on one line, from left to right. A match that holds no byte
    /// is not reported. The matcher is not changed, and the result depends on
    /// the pattern and the line alone.
    pub fn find_all(&self, line: &str) -> (spans: Vec<Span>)
        ensures
            spans@ == all_matches(self@, line@),
            spans_ordered(line.spec_bytes(), spans@),
    {
        let ghost bytes = line.spec_bytes();
        proof {
            encode_utf8_valid_utf8(line@);
            is_char_boundary_start_end_of_seq(bytes);
        }
        let mut spans: Vec<Span> = Vec::new();
        let mut pos: usize = 0;
        loop
            invariant
                bytes == line.spec_bytes(),
                bytes == encode_utf8(line@),
                pos <= bytes.len(),
                is_char_boundary(bytes, pos as int),
                spans_ordered(bytes, spans@),
                forall|i: int| 0 <= i < spans.len() ==> (#[trigger] spans[i]).1 <= pos,
                all_matches(self@, line@) == spans@ + matches_from(self@, line@, pos as int),
            ensures
                spans@ == all_matches(self@, line@),
                spans_ordered(bytes, spans@),
            decreases bytes.len() - pos,
        {
            let found = regex_find_at(&self.regex, line, pos);
            match scan_step(line, pos, found) {
                ScanStep::Stop => {
                    break ;
                },
                ScanStep::Skip { resume } => {
                    pos = resume;
                },
                ScanStep::Take { start, end } => {
                    proof {
                        assert(spans@.push((start, end)) + matches_from(self@, line@, end as int)
                            =~= spans@ + (seq![(start, end)] + matches_from(
                            self@,
                            line@,
                            end as int,
                        )));
                    }
                    spans.push((start, end));
                    pos = end;
                },
            }
        }
        spans
    }
}

/// Searching a line twice gives the same spans: the result of `find_all` is a
/// function of the pattern and the line.
pub proof fn find_all_repeats(matcher: PatternMatcher, line: Seq<char>, first: Seq<Span>, second: Seq<Span>)
    requires
        first == all_matches(matcher@, line),
        second == all_matches(matcher@, line),
    ensures
        first == second,
{
}

/// What `find_all` reports is in ascending order, overlaps nowhere and stays
/// within the line.
pub proof fn found_spans_ordered(spans: Seq<Span>, bytes: Seq<u8>, i: int, j: int)
    requires
        spans_ordered(bytes, spans),
        0 <= i < j < spans.len(),
    ensures
        0 <= spans[i].0 < spans[i].1 <= spans[j].0 < spans[j].1 <= bytes.len(),
{
}

} // verus!
