//! Reporting: every match of a file's record becomes one line of output, with
//! the text of its line cut into what stands before the match, the match, and
//! what stands after it.

use vstd::prelude::*;
use vstd::string::*;
use vstd::utf8::*;
use crate::matcher::{span_fits, Span};
use crate::search::{FileModel, FileResult, LineMatch, LineModel};

verus! {

/// One match, ready to be shown.
#[derive(Debug)]
pub struct Rendered {
    /// The file in which the match was found.
    pub file_path: String,
    /// The line of the match, counted from 1.
    pub line_number: usize,
    /// The byte offset in the line at which the match begins.
    pub start: usize,
    /// The line's text before the match.
    pub before: String,
    /// The matched text.
    pub matched: String,
    /// The line's text after the match.
    pub after: String,
}

/// What a `Rendered` stands for.
pub ghost struct RenderedModel {
    pub file_path: Seq<char>,
    pub line_number: nat,
    pub start: nat,
    pub before: Seq<char>,
    pub matched: Seq<char>,
    pub after: Seq<char>,
}

impl View for Rendered {
    type V = RenderedModel;

    open spec fn view(&self) -> RenderedModel {
        RenderedModel {
            file_path: self.file_path@,
            line_number: self.line_number as nat,
            start: self.start as nat,
            before: self.before@,
            matched: self.matched@,
            after: self.after@,
        }
    }
}

/// The models of a run of rendered matches.
pub open spec fn rendered_models(items: Seq<Rendered>) -> Seq<RenderedModel> {
    Seq::new(items.len(), |i: int| items[i]@)
}

/// A record cannot be shown: one of its spans reaches beyond its line or cuts
/// a character in two.
#[derive(Debug, Clone, Copy, PartialEq, Eq, Structural)]
pub enum RenderError {
    /// A span does not fit the text of its line.
    Misaligned,
}

/// One span of a line, cut out of the line's text.
pub open spec fn segment(path: Seq<char>, number: nat, text: Seq<char>, span: Span) -> RenderedModel {
    let bytes = encode_utf8(text);
    RenderedModel {
        file_path: path,
        line_number: number,
        start: span.0 as nat,
        before: decode_utf8(bytes.subrange(0, span.0 as int)),
        matched: decode_utf8(bytes.subrange(span.0 as int, span.1 as int)),
        after: decode_utf8(bytes.subrange(span.1 as int, bytes.len() as int)),
    }
}

/// The first `count` spans of a line, each cut out of the line's text.
pub open spec fn line_segments(path: Seq<char>, line: LineModel, count: int) -> Seq<RenderedModel>
    decreases count,
{
    if count <= 0 || count > line.spans.len() {
        Seq::empty()
    } else {
        line_segments(path, line, count - 1).push(
            segment(path, line.line_number, line.line_text, line.spans[count - 1]),
        )
    }
}

/// Every span of the first `count` lines of a record, line after line.
pub open spec fn file_segments(file: FileModel, count: int) -> Seq<RenderedModel>
    decreases count,
{
    if count <= 0 || count > file.matches.len() {
        Seq::empty()
    } else {
        file_segments(file, count - 1) + line_segments(
            file.file_path,
            file.matches[count - 1],
            file.matches[count - 1].spans.len() as int,
        )
    }
}

/// Every span of the line fits the line's text.
pub open spec fn line_fits(line: LineModel) -> bool {
    forall|k: int| 0 <= k < line.spans.len() ==> span_fits(encode_utf8(line.line_text), #[trigger] line.spans[k])
}

/// Every span of the record fits the text of its line.
pub open spec fn file_fits(file: FileModel) -> bool {
    forall|i: int| 0 <= i < file.matches.len() ==> line_fits(#[trigger] file.matches[i])
}

/// A boundary of a text is a boundary of each part of the text that ends on a
/// boundary behind it.
proof fn boundary_in_prefix(bytes: Seq<u8>, start: int, end: int)
    requires
        valid_utf8(bytes),
        0 <= start <= end <= bytes.len(),
        is_char_boundary(bytes, start),
        is_char_boundary(bytes, end),
    ensures
        valid_utf8(bytes.subrange(0, end)),
        is_char_boundary(bytes.subrange(0, end), start),
{
    let head = bytes.subrange(0, end);
    valid_utf8_split(bytes, end);
    if start < end {
        is_char_boundary_iff_not_is_continuation_byte(bytes, start);
        is_char_boundary_iff_not_is_continuation_byte(head, start);
    } else {
        is_char_boundary_start_end_of_seq(head);
    }
}

/// Cuts one span out of the text of its line.
pub fn render_span(file_path: &str, line_number: usize, text: &str, span: Span) -> (r: Result<
    Rendered,
    RenderError,
>)
    ensures
        r.is_ok() == span_fits(text.spec_bytes(), span),
        r matches Ok(item) ==> item@ == segment(file_path@, line_number as nat, text@, span),
        r matches Err(e) ==> e == RenderError::Misaligned,
{
    let ghost bytes = text.spec_bytes();
    let (start, end) = span;
    let len: usize = text.as_bytes().len();
    if !(start <= end && end <= len && text.is_char_boundary(start) && text.is_char_boundary(end)) {
        return Err(RenderError::Misaligned);
    }
    proof {
        encode_utf8_valid_utf8(text@);
        boundary_in_prefix(bytes, start as int, end as int);
    }
    let (head, after) = text.split_at(end);
    let (before, matched) = head.split_at(start);
    proof {
        encode_utf8_decode_utf8(before@);
        encode_utf8_decode_utf8(matched@);
        encode_utf8_decode_utf8(after@);
        assert(before.spec_bytes() =~= bytes.subrange(0, start as int));
        assert(matched.spec_bytes() =~= bytes.subrange(start as int, end as int));
    }
    Ok(
        Rendered {
            file_path: file_path.to_owned(),
            line_number,
            start,
            before: before.to_owned(),
            matched: matched.to_owned(),
            after: after.to_owned(),
        },
    )
}

/// Cuts every span of a line out of the line's text and adds them to `out`, or
/// leaves `out` as it is when a span does not fit.
pub fn render_line(file_path: &str, line: &LineMatch, out: &mut Vec<Rendered>) -> (r: Result<
    (),
    RenderError,
>)
    ensures
        r.is_ok() == line_fits(line@),
        r is Ok ==> rendered_models(final(out)@) == rendered_models(old(out)@) + line_segments(
            file_path@,
            line@,
            line.spans.len() as int,
        ),
        r matches Err(e) ==> e == RenderError::Misaligned && final(out)@ == old(out)@,
{
    let mut items: Vec<Rendered> = Vec::new();
    let mut k: usize = 0;
    while k < line.spans.len()
        invariant
            k <= line.spans.len(),
            forall|j: int| 0 <= j < k ==> span_fits(encode_utf8(line@.line_text), #[trigger] line@.spans[j]),
            rendered_models(items@) == line_segments(file_path@, line@, k as int),
        decreases line.spans.len() - k,
    {
        match render_span(file_path, line.line_number, line.line_text.as_str(), line.spans[k]) {
            Ok(item) => {
                let ghost before = rendered_models(items@);
                items.push(item);
                proof {
                    assert(rendered_models(items@) =~= before.push(item@));
                }
            },
            Err(e) => {
                proof {
                    assert(!span_fits(encode_utf8(line@.line_text), line@.spans[k as int]));
                }
                return Err(e);
            },
        }
        k = k + 1;
    }
    let ghost old_models = rendered_models(out@);
    let ghost new_models = rendered_models(items@);
    out.append(&mut items);
    proof {
        assert(rendered_models(out@) =~= old_models + new_models);
    }
    Ok(())
}

/// Everything that is shown for one file: one item for each span of each line,
/// in the record's order. A record without matches gives nothing.
pub fn render(result: &FileResult) -> (r: Result<Vec<Rendered>, RenderError>)
    ensures
        r.is_ok() == file_fits(result@),
        r matches Ok(items) ==> rendered_models(items@) == file_segments(
            result@,
            result@.matches.len() as int,
        ),
        r matches Ok(items) ==> (result@.matches.len() == 0 ==> items@.len() == 0),
        r matches Err(e) ==> e == RenderError::Misaligned,
{
    let mut items: Vec<Rendered> = Vec::new();
    let mut i: usize = 0;
    while i < result.matches.len()
        invariant
            i <= result.matches.len(),
            forall|j: int| 0 <= j < i ==> line_fits(#[trigger] result@.matches[j]),
            rendered_models(items@) == file_segments(result@, i as int),
        decreases result.matches.len() - i,
    {
        match render_line(result.file_path.as_str(), &result.matches[i], &mut items) {
            Ok(()) => {},
            Err(e) => {
                proof {
                    assert(!line_fits(result@.matches[i as int]));
                }
                return Err(e);
            },
        }
        i = i + 1;
    }
    Ok(items)
}

/// The decimal digit for a number below ten.
pub open spec fn digit_char(digit: nat) -> char {
    if digit == 0 {
        '0'
    } else if digit == 1 {
        '1'
    } else if digit == 2 {
        '2'
    } else if digit == 3 {
        '3'
    } else if digit == 4 {
        '4'
    } else if digit == 5 {
        '5'
    } else if digit == 6 {
        '6'
    } else if digit == 7 {
        '7'
    } else if digit == 8 {
        '8'
    } else {
        '9'
    }
}

/// A number in decimal, without leading zeros.
pub open spec fn decimal(n: nat) -> Seq<char>
    decreases n,
{
    if n < 10 {
        seq![digit_char(n)]
    } else {
        decimal(n / 10).push(digit_char(n % 10))
    }
}

/// The line of plain text that shows one match: the file, the line number and
/// the offset, joined by colons, then a blank and the text of the line.
pub open spec fn plain_line(item: RenderedModel) -> Seq<char> {
    item.file_path + seq![':'] + decimal(item.line_number) + seq![':'] + decimal(item.start) + seq![' ']
        + item.before + item.matched + item.after
}

/// The text of one decimal digit.
fn digit_text(digit: usize) -> (text: &'static str)
    requires
        digit < 10,
    ensures
        text@ == seq![digit_char(digit as nat)],
{
    proof {
        reveal_strlit("0");
        reveal_strlit("1");
        reveal_strlit("2");
        reveal_strlit("3");
        reveal_strlit("4");
        reveal_strlit("5");
        reveal_strlit("6");
        reveal_strlit("7");
        reveal_strlit("8");
        reveal_strlit("9");
    }
    let text = if digit == 0 {
        "0"
    } else if digit == 1 {
        "1"
    } else if digit == 2 {
        "2"
    } else if digit == 3 {
        "3"
    } else if digit == 4 {
        "4"
    } else if digit == 5 {
        "5"
    } else if digit == 6 {
        "6"
    } else if digit == 7 {
        "7"
    } else if digit == 8 {
        "8"
    } else {
        "9"
    };
    assert(text@ =~= seq![digit_char(digit as nat)]);
    text
}

/// Writes a number in decimal.
pub fn decimal_text(n: usize) -> (text: String)
    ensures
        text@ == decimal(n as nat),
    decreases n,
{
    if n < 10 {
        digit_text(n).to_owned()
    } else {
        let mut text = decimal_text(n / 10);
        text.append(digit_text(n % 10));
        assert(text@ =~= decimal(n as nat));
        text
    }
}

/// Writes the line of plain text that shows one match.
pub fn plain_text(item: &Rendered) -> (text: String)
    ensures
        text@ == plain_line(item@),
{
    proof {
        reveal_strlit(":");
        reveal_strlit(" ");
        assert(":"@ =~= seq![':']);
        assert(" "@ =~= seq![' ']);
    }
    let mut text = item.file_path.clone();
    text.append(":");
    text.append(decimal_text(item.line_number).as_str());
    text.append(":");
    text.append(decimal_text(item.start).as_str());
    text.append(" ");
    text.append(item.before.as_str());
    text.append(item.matched.as_str());
    text.append(item.after.as_str());
    text
}

/// A rendered span holds the whole text of its line: what stands before the
/// match, the match, and what stands after it, put together again.
pub proof fn segments_rebuild_line(path: Seq<char>, number: nat, text: Seq<char>, span: Span)
    requires
        span_fits(encode_utf8(text), span),
    ensures
        ({
            let item = segment(path, number, text, span);
            item.before + item.matched + item.after == text
        }),
{
    let bytes = encode_utf8(text);
    let head = bytes.subrange(0, span.1 as int);
    encode_utf8_valid_utf8(text);
    encode_utf8_decode_utf8(text);
    boundary_in_prefix(bytes, span.0 as int, span.1 as int);
    decode_utf8_split(bytes, span.1 as int);
    decode_utf8_split(head, span.0 as int);
    assert(head.subrange(0, span.0 as int) =~= bytes.subrange(0, span.0 as int));
    assert(head.subrange(span.0 as int, head.len() as int) =~= bytes.subrange(span.0 as int, span.1 as int));
    let item = segment(path, number, text, span);
    assert(item.before + item.matched + item.after =~= text);
}

/// What has been rendered so far, in the order in which the records came.
pub struct ResultSink {
    items: Vec<Rendered>,
}

impl View for ResultSink {
    type V = Seq<RenderedModel>;

    closed spec fn view(&self) -> Seq<RenderedModel> {
        rendered_models(self.items@)
    }
}

impl ResultSink {
    /// A sink that holds nothing.
    pub fn new() -> (sink: ResultSink)
        ensures
            sink@ == Seq::<RenderedModel>::empty(),
    {
        let sink = ResultSink { items: Vec::new() };
        proof {
            assert(rendered_models(sink.items@) =~= Seq::<RenderedModel>::empty());
        }
        sink
    }

    /// Takes one file's record: its matches are rendered and added behind what
    /// the sink holds. A record without matches adds nothing, and one with a
    /// span that does not fit is refused and adds nothing either.
    pub fn consume(&mut self, result: &FileResult) -> (r: Result<(), RenderError>)
        ensures
            r.is_ok() == file_fits(result@),
            r is Ok ==> final(self)@ == old(self)@ + file_segments(result@, result@.matches.len() as int),
            r matches Err(e) ==> e == RenderError::Misaligned && final(self)@ == old(self)@,
            result@.matches.len() == 0 ==> final(self)@ == old(self)@,
    {
        match render(result) {
            Ok(items) => {
                let mut items = items;
                let ghost old_models = rendered_models(self.items@);
                let ghost new_models = rendered_models(items@);
                self.items.append(&mut items);
                proof {
                    assert(rendered_models(self.items@) =~= old_models + new_models);
                }
                Ok(())
            },
            Err(e) => Err(e),
        }
    }

    /// Hands out everything that the sink holds and leaves it empty.
    pub fn drain(&mut self) -> (items: Vec<Rendered>)
        ensures
            rendered_models(items@) == old(self)@,
            final(self)@ == Seq::<RenderedModel>::empty(),
    {
        let mut items: Vec<Rendered> = Vec::new();
        let ghost held = rendered_models(self.items@);
        items.append(&mut self.items);
        proof {
            assert(rendered_models(items@) =~= held);
            assert(rendered_models(self.items@) =~= Seq::<RenderedModel>::empty());
        }
        items
    }
}

} // verus!
