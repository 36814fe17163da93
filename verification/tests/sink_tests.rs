use treegrep::matcher::PatternMatcher;
use treegrep::search::{search_text, FileResult, LineMatch};
use treegrep::sink::{decimal_text, plain_text, render, render_span, RenderError, ResultSink};

#[test]
fn a_record_without_matches_shows_nothing() {
    let matcher = PatternMatcher::compile("foo").unwrap();
    let result = search_text("./b.txt", "baz\nbar", &matcher);
    assert_eq!(render(&result).unwrap().len(), 0);
    let mut sink = ResultSink::new();
    assert_eq!(sink.consume(&result), Ok(()));
    assert_eq!(sink.drain().len(), 0);
}

#[test]
fn each_span_becomes_one_item() {
    let matcher = PatternMatcher::compile("é+").unwrap();
    let result = search_text("./a.txt", "xéy éé\n\nzé", &matcher);
    let items = render(&result).unwrap();
    assert_eq!(items.len(), 3);
    assert_eq!(items[0].line_number, 1);
    assert_eq!(items[0].start, 1);
    assert_eq!(items[0].before, "x");
    assert_eq!(items[0].matched, "é");
    assert_eq!(items[0].after, "y éé");
    assert_eq!(items[1].line_number, 1);
    assert_eq!(items[1].start, 5);
    assert_eq!(items[1].before, "xéy ");
    assert_eq!(items[1].matched, "éé");
    assert_eq!(items[1].after, "");
    assert_eq!(items[2].file_path, "./a.txt");
    assert_eq!(items[2].line_number, 3);
    assert_eq!(items[2].start, 1);
    assert_eq!(items[2].before, "z");
    assert_eq!(items[2].matched, "é");
    assert_eq!(items[2].after, "");
}

#[test]
fn a_span_that_does_not_fit_is_refused() {
    assert_eq!(render_span("f", 1, "é", (0, 1)).err(), Some(RenderError::Misaligned));
    assert_eq!(render_span("f", 1, "é", (1, 2)).err(), Some(RenderError::Misaligned));
    assert_eq!(render_span("f", 1, "abc", (2, 1)).err(), Some(RenderError::Misaligned));
    assert_eq!(render_span("f", 1, "abc", (1, 4)).err(), Some(RenderError::Misaligned));
    assert!(render_span("f", 1, "abc", (3, 3)).is_ok());
}

#[test]
fn a_refused_record_leaves_the_sink_as_it_was() {
    let matcher = PatternMatcher::compile("a").unwrap();
    let good = search_text("./a.txt", "a", &matcher);
    let bad = FileResult {
        file_path: "./b.txt".to_string(),
        matches: vec![
            LineMatch { line_number: 1, spans: vec![(0, 1)], line_text: "ab".to_string() },
            LineMatch { line_number: 2, spans: vec![(0, 1), (1, 5)], line_text: "ab".to_string() },
        ],
    };
    let mut sink = ResultSink::new();
    assert_eq!(sink.consume(&good), Ok(()));
    assert_eq!(sink.consume(&bad), Err(RenderError::Misaligned));
    let items = sink.drain();
    assert_eq!(items.len(), 1);
    assert_eq!(items[0].file_path, "./a.txt");
    assert_eq!(sink.drain().len(), 0);
}

#[test]
fn records_are_shown_in_the_order_they_came() {
    let matcher = PatternMatcher::compile("o").unwrap();
    let mut sink = ResultSink::new();
    sink.consume(&search_text("./1", "foo", &matcher)).unwrap();
    sink.consume(&search_text("./2", "bar", &matcher)).unwrap();
    sink.consume(&search_text("./3", "x\no", &matcher)).unwrap();
    let items = sink.drain();
    let places: Vec<(String, usize, usize)> =
        items.iter().map(|i| (i.file_path.clone(), i.line_number, i.start)).collect();
    assert_eq!(
        places,
        vec![("./1".to_string(), 1, 1), ("./1".to_string(), 1, 2), ("./3".to_string(), 2, 0)]
    );
}

#[test]
fn plain_text_joins_place_and_line() {
    let matcher = PatternMatcher::compile("bar").unwrap();
    let result = search_text("./dir/a.txt", "x\ny\nfoo bar baz", &matcher);
    let items = render(&result).unwrap();
    assert_eq!(items.len(), 1);
    assert_eq!(plain_text(&items[0]), "./dir/a.txt:3:4 foo bar baz");
}

#[test]
fn decimal_text_writes_numbers_without_leading_zeros() {
    assert_eq!(decimal_text(0), "0");
    assert_eq!(decimal_text(7), "7");
    assert_eq!(decimal_text(10), "10");
    assert_eq!(decimal_text(1234567890), "1234567890");
    assert_eq!(decimal_text(usize::MAX), usize::MAX.to_string());
}

#[test]
fn the_segments_of_an_item_make_up_its_line() {
    let matcher = PatternMatcher::compile("[€é]+").unwrap();
    let line = "a€b éé c";
    let result = search_text("f", line, &matcher);
    let items = render(&result).unwrap();
    assert_eq!(items.len(), 2);
    for item in items {
        assert_eq!(format!("{}{}{}", item.before, item.matched, item.after), line);
    }
}
