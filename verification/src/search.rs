//! Searching the text of one file: its lines, and the record of every line on
//! which the content pattern matches.

use vstd::prelude::*;
use vstd::string::*;
use vstd::utf8::*;
use crate::matcher::{all_matches, spans_ordered, PatternMatcher, Span};

verus! {

/// The matches on one line of a file.
#[derive(Debug)]
pub struct LineMatch {
    /// The line's position in the file, counted from 1.
    pub line_number: usize,
    /// The matches, from left to right, as byte offsets into `line_text`.
    pub spans: Vec<Span>,
    /// The line without its terminator.
    pub line_text: String,
}

/// What a `LineMatch` stands for.
pub ghost struct LineModel {
    pub line_number: nat,
    pub spans: Seq<Span>,
    pub line_text: Seq<char>,
}

impl View for LineMatch {
    type V = LineModel;

    open spec fn view(&self) -> LineModel {
        LineModel { line_number: self.line_number as nat, spans: self.spans@, line_text: self.line_text@ }
    }
}

/// A line is worth a record when lines are counted from 1, something was found
/// on it, and the spans are in order within its text.
pub open spec fn line_recorded(line: LineModel) -> bool {
    &&& line.line_number >= 1
    &&& line.spans.len() > 0
    &&& spans_ordered(encode_utf8(line.line_text), line.spans)
}

/// The outcome of searching one file.
#[derive(Debug)]
pub struct FileResult {
    /// The file that was searched.
    pub file_path: String,
    /// The lines with a match, by ascending line number; empty when nothing
    /// was found.
    pub matches: Vec<LineMatch>,
}

/// What a `FileResult` stands for.
pub ghost struct FileModel {
    pub file_path: Seq<char>,
    pub matches: Seq<LineModel>,
}

/// The models of a run of line records.
pub open spec fn line_models(lines: Seq<LineMatch>) -> Seq<LineModel> {
    Seq::new(lines.len(), |i: int| lines[i]@)
}

impl View for FileResult {
    type V = FileModel;

    open spec fn view(&self) -> FileModel {
        FileModel { file_path: self.file_path@, matches: line_models(self.matches@) }
    }
}

/// Every line of the record is worth its place, and line numbers ascend.
pub open spec fn lines_recorded(lines: Seq<LineModel>) -> bool {
    &&& forall|i: int| 0 <= i < lines.len() ==> line_recorded(#[trigger] lines[i])
    &&& forall|i: int, j: int|
        0 <= i < j < lines.len() ==> (#[trigger] lines[i]).line_number < (#[trigger] lines[j]).line_number
}

impl FileResult {
    /// The record is as a search leaves it.
    pub open spec fn wf(&self) -> bool {
        lines_recorded(self@.matches)
    }

    /// The record of a file in which nothing has been found yet.
    pub fn new(file_path: &str) -> (result: FileResult)
        ensures
            result@.file_path == file_path@,
            result@.matches == Seq::<LineModel>::empty(),
            result.wf(),
    {
        let result = FileResult { file_path: file_path.to_owned(), matches: Vec::new() };
        proof {
            assert(line_models(result.matches@) =~= Seq::<LineModel>::empty());
        }
        result
    }
}

/// Why the bytes of a file could not be searched.
#[derive(Debug, Clone, Copy, PartialEq, Eq, Structural)]
pub enum SearchError {
    /// The file could not be opened or read.
    Io,
    /// The bytes are no valid UTF-8 text.
    Decode,
}

/// `core::str::Utf8Error`, which says where bytes stop being UTF-8.
#[verifier::external_type_specification]
#[verifier::external_body]
pub struct ExUtf8Error(core::str::Utf8Error);

/// `core::str::from_utf8` hands the bytes back as text exactly when they are
/// valid UTF-8, and the text then holds those bytes.
pub assume_specification<'a>[ core::str::from_utf8 ](v: &'a [u8]) -> (r: Result<
    &'a str,
    core::str::Utf8Error,
>)
    ensures
        r.is_ok() == valid_utf8(v@),
        r matches Ok(s) ==> s.spec_bytes() == v@,
;

/// The line terminator.
pub const NEWLINE: u8 = 10;

/// The offset of the first terminator at or behind `from`, or the length of the
/// text when there is none.
pub open spec fn newline_at(bytes: Seq<u8>, from: int) -> int
    decreases bytes.len() - from,
{
    if from < 0 || from >= bytes.len() || bytes[from] == NEWLINE {
        from
    } else {
        newline_at(bytes, from + 1)
    }
}

/// The first line of a text that is not empty, without its terminator.
pub open spec fn first_line(bytes: Seq<u8>) -> Seq<u8> {
    bytes.subrange(0, newline_at(bytes, 0))
}

/// What follows the terminator of the first line; nothing where the first line
/// has no terminator.
pub open spec fn after_first_line(bytes: Seq<u8>) -> Seq<u8> {
    let cut = newline_at(bytes, 0);
    if 0 <= cut < bytes.len() {
        bytes.subrange(cut + 1, bytes.len() as int)
    } else {
        Seq::empty()
    }
}

/// The lines of a text. A terminator ends a line; what follows the last
/// terminator is a line too, unless it is empty.
pub open spec fn lines_of(bytes: Seq<u8>) -> Seq<Seq<u8>>
    decreases bytes.len(),
{
    if bytes.len() == 0 {
        Seq::empty()
    } else {
        seq![first_line(bytes)] + lines_of(after_first_line(bytes))
    }
}

/// The records of the first `count` lines: one for each line with a match,
/// numbered by the line's position.
pub open spec fn matches_in(pattern: Seq<char>, lines: Seq<Seq<u8>>, count: int) -> Seq<LineModel>
    decreases count,
{
    if count <= 0 || count > lines.len() {
        Seq::empty()
    } else {
        let text = decode_utf8(lines[count - 1]);
        let spans = all_matches(pattern, text);
        let before = matches_in(pattern, lines, count - 1);
        if spans.len() > 0 {
            before.push(LineModel { line_number: count as nat, spans, line_text: text })
        } else {
            before
        }
    }
}

/// The records of a whole text.
pub open spec fn content_matches(pattern: Seq<char>, bytes: Seq<u8>) -> Seq<LineModel> {
    matches_in(pattern, lines_of(bytes), lines_of(bytes).len() as int)
}

/// Where the first line of `bytes` ends.
fn find_newline(bytes: &[u8]) -> (cut: usize)
    ensures
        cut == newline_at(bytes@, 0),
        cut <= bytes@.len(),
        cut < bytes@.len() ==> bytes@[cut as int] == NEWLINE,
{
    let mut cut: usize = 0;
    while cut < bytes.len() && bytes[cut] != NEWLINE
        invariant
            cut <= bytes@.len(),
            newline_at(bytes@, 0) == newline_at(bytes@, cut as int),
        decreases bytes@.len() - cut,
    {
        cut = cut + 1;
    }
    cut
}

/// Cuts the first line off a text: the line without its terminator, and what
/// follows the terminator. An empty text has no line.
pub fn split_line<'a>(text: &'a str) -> (r: Option<(&'a str, &'a str)>)
    ensures
        r is None <==> text.spec_bytes().len() == 0,
        r matches Some(parts) ==> parts.0.spec_bytes() == first_line(text.spec_bytes())
            && parts.1.spec_bytes() == after_first_line(text.spec_bytes()) && parts.1.spec_bytes().len()
            < text.spec_bytes().len(),
{
    let ghost bytes = text.spec_bytes();
    if text.as_bytes().len() == 0 {
        return None;
    }
    proof {
        encode_utf8_valid_utf8(text@);
        is_char_boundary_start_end_of_seq(bytes);
    }
    let cut = find_newline(text.as_bytes());
    proof {
        if cut < bytes.len() {
            is_char_boundary_iff_not_is_continuation_byte(bytes, cut as int);
        }
    }
    let (head, tail) = text.split_at(cut);
    if tail.as_bytes().len() == 0 {
        proof {
            assert(tail.spec_bytes() =~= Seq::<u8>::empty());
        }
        Some((head, tail))
    } else {
        let ghost rest = tail.spec_bytes();
        proof {
            encode_utf8_valid_utf8(tail@);
            assert(rest[0] == NEWLINE);
            assert(length_of_first_scalar(rest) == 1);
            reveal_with_fuel(is_char_boundary, 2);
            reveal_with_fuel(valid_utf8, 2);
            assert(is_char_boundary(rest, 1));
        }
        let (_, after) = tail.split_at(1);
        proof {
            assert(after.spec_bytes() =~= bytes.subrange(cut + 1, bytes.len() as int));
        }
        Some((head, after))
    }
}

/// Searches the text of a file line by line. Lines are numbered from 1, and a
/// line with no match leaves no record.
pub fn search_text(file_path: &str, content: &str, matcher: &PatternMatcher) -> (result: FileResult)
    ensures
        result@.file_path == file_path@,
        result@.matches == content_matches(matcher@, content.spec_bytes()),
        result.wf(),
{
    let ghost all = lines_of(content.spec_bytes());
    let ghost total = content.spec_bytes().len();
    let limit: usize = content.as_bytes().len();
    let mut matches: Vec<LineMatch> = Vec::new();
    let mut rest: &str = content;
    let mut seen: usize = 0;
    loop
        invariant
            total == limit,
            seen + rest.spec_bytes().len() <= total,
            seen <= all.len(),
            all =~= all.subrange(0, seen as int) + lines_of(rest.spec_bytes()),
            line_models(matches@) == matches_in(matcher@, all, seen as int),
            lines_recorded(line_models(matches@)),
            forall|i: int| 0 <= i < matches.len() ==> (#[trigger] matches[i]).line_number <= seen,
        ensures
            line_models(matches@) == matches_in(matcher@, all, all.len() as int),
            lines_recorded(line_models(matches@)),
        decreases rest.spec_bytes().len(),
    {
        match split_line(rest) {
            None => {
                proof {
                    assert(lines_of(rest.spec_bytes()) =~= Seq::<Seq<u8>>::empty());
                    assert(all.subrange(0, seen as int) =~= all);
                }
                break ;
            },
            Some((line, after)) => {
                proof {
                    encode_utf8_decode_utf8(line@);
                    assert(all[seen as int] == line.spec_bytes());
                    assert(all =~= all.subrange(0, seen + 1) + lines_of(after.spec_bytes()));
                }
                let spans = matcher.find_all(line);
                seen = seen + 1;
                if spans.len() > 0 {
                    let ghost before = line_models(matches@);
                    let record = LineMatch { line_number: seen, spans, line_text: line.to_owned() };
                    matches.push(record);
                    proof {
                        assert(line_models(matches@) =~= before.push(record@));
                    }
                }
                rest = after;
            },
        }
    }
    let mut result = FileResult::new(file_path);
    result.matches = matches;
    result
}

/// Searches the bytes of a file: they are decoded as UTF-8 and searched as
/// text, or refused when they are no valid UTF-8.
pub fn search_bytes(file_path: &str, content: &[u8], matcher: &PatternMatcher) -> (r: Result<
    FileResult,
    SearchError,
>)
    ensures
        r.is_ok() == valid_utf8(content@),
        r matches Ok(result) ==> result@.file_path == file_path@ && result@.matches
            == content_matches(matcher@, content@) && result.wf(),
        r matches Err(e) ==> e == SearchError::Decode,
{
    match core::str::from_utf8(content) {
        Ok(text) => Ok(search_text(file_path, text, matcher)),
        Err(_) => Err(SearchError::Decode),
    }
}

/// One file as a search meets it: its path, and its bytes where it could be
/// read.
pub ghost struct FileInput {
    pub path: Seq<char>,
    pub content: Option<Seq<u8>>,
}

/// What the search of one file comes to. It depends on the pattern and on the
/// file alone.
pub open spec fn outcome(pattern: Seq<char>, input: FileInput) -> Result<FileModel, SearchError> {
    match input.content {
        None => Err(SearchError::Io),
        Some(bytes) => if valid_utf8(bytes) {
            Ok(FileModel { file_path: input.path, matches: content_matches(pattern, bytes) })
        } else {
            Err(SearchError::Decode)
        },
    }
}

/// What the searches of a run of files come to, file by file.
pub open spec fn outcomes(pattern: Seq<char>, inputs: Seq<FileInput>) -> Seq<Result<FileModel, SearchError>> {
    Seq::new(inputs.len(), |i: int| outcome(pattern, inputs[i]))
}

/// The file that a search is handed: its path, and what reading it gave.
pub open spec fn input_of(file_path: Seq<char>, content: Option<&[u8]>) -> FileInput {
    FileInput {
        path: file_path,
        content: match content {
            Some(bytes) => Some(bytes@),
            None => None,
        },
    }
}

/// Searches a file from what reading it gave: its bytes, or nothing when it
/// could not be read.
pub fn search_read(file_path: &str, content: Option<&[u8]>, matcher: &PatternMatcher) -> (r: Result<
    FileResult,
    SearchError,
>)
    ensures
        match r {
            Ok(result) => outcome(matcher@, input_of(file_path@, content)) == Ok::<FileModel, SearchError>(
                result@,
            ) && result.wf(),
            Err(e) => outcome(matcher@, input_of(file_path@, content)) == Err::<FileModel, SearchError>(e),
        },
{
    match content {
        None => Err(SearchError::Io),
        Some(bytes) => search_bytes(file_path, bytes, matcher),
    }
}

/// The order in which files are searched does not change what is found: two
/// runs over the same files, in whatever order, come to the same outcomes,
/// each as often in one run as in the other.
pub proof fn outcomes_ignore_order(pattern: Seq<char>, first: Seq<FileInput>, second: Seq<FileInput>)
    requires
        first.to_multiset() == second.to_multiset(),
    ensures
        outcomes(pattern, first).to_multiset() == outcomes(pattern, second).to_multiset(),
    decreases first.len(),
{
    broadcast use vstd::seq_lib::group_to_multiset_ensures;

    first.to_multiset_ensures();
    second.to_multiset_ensures();
    if first.len() == 0 {
        assert(second.len() == 0);
        assert(outcomes(pattern, first) =~= outcomes(pattern, second));
    } else {
        let last = first.last();
        let rest = first.drop_last();
        assert(first =~= rest.push(last));
        assert(second.to_multiset().count(last) > 0);
        assert(second.contains(last));
        let at = choose|at: int| 0 <= at < second.len() && second[at] == last;
        let others = second.remove(at);
        assert(rest.to_multiset() =~= others.to_multiset());
        outcomes_ignore_order(pattern, rest, others);
        assert(outcomes(pattern, first) =~= outcomes(pattern, rest).push(outcome(pattern, last)));
        assert(outcomes(pattern, second).remove(at) =~= outcomes(pattern, others));
        assert(outcomes(pattern, second)[at] == outcome(pattern, last));
        assert(outcomes(pattern, second).to_multiset() =~= outcomes(pattern, others).to_multiset().insert(
            outcome(pattern, last),
        ));
    }
}

/// A file that cannot be read or decoded changes nothing for the others:
/// without it, the outcomes of the other files are what they were.
pub proof fn outcomes_stand_alone(pattern: Seq<char>, inputs: Seq<FileInput>, at: int)
    requires
        0 <= at < inputs.len(),
    ensures
        outcomes(pattern, inputs.remove(at)) == outcomes(pattern, inputs).remove(at),
        outcomes(pattern, inputs)[at] == outcome(pattern, inputs[at]),
{
    assert(outcomes(pattern, inputs.remove(at)) =~= outcomes(pattern, inputs).remove(at));
}

} // verus!
