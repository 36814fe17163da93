use treegrep::filter::NameFilter;
use treegrep::matcher::PatternMatcher;
use treegrep::search::{search_bytes, search_read, search_text, split_line, FileResult, SearchError};
use treegrep::sink::render;

#[test]
fn one_match_in_one_of_two_files() {
    let filter = NameFilter::compile_rooted("*.txt").unwrap();
    let matcher = PatternMatcher::compile("foo").unwrap();
    let files = vec![("./a.txt", "foo bar"), ("./b.txt", "baz")];
    let mut shown = Vec::new();
    for (path, content) in files {
        assert!(filter.matches(path));
        let result = search_text(path, content, &matcher);
        shown.extend(render(&result).unwrap());
    }
    assert_eq!(shown.len(), 1);
    assert_eq!(shown[0].file_path, "./a.txt");
    assert_eq!(shown[0].line_number, 1);
    assert_eq!(shown[0].start, 0);
    assert_eq!(shown[0].matched, "foo");
    assert_eq!(shown[0].before, "");
    assert_eq!(shown[0].after, " bar");
}

#[test]
fn three_adjacent_matches_on_one_line() {
    let matcher = PatternMatcher::compile("a").unwrap();
    let result = search_text("f", "aaa", &matcher);
    assert_eq!(result.matches.len(), 1);
    assert_eq!(result.matches[0].line_number, 1);
    assert_eq!(result.matches[0].spans, vec![(0, 1), (1, 2), (2, 3)]);
    assert_eq!(result.matches[0].line_text, "aaa");
}

#[test]
fn lines_are_numbered_from_one() {
    let matcher = PatternMatcher::compile("foo").unwrap();
    let result = search_text("f", "x\nfoo\n\nfoo foo", &matcher);
    assert_eq!(result.file_path, "f");
    assert_eq!(result.matches.len(), 2);
    assert_eq!(result.matches[0].line_number, 2);
    assert_eq!(result.matches[0].spans, vec![(0, 3)]);
    assert_eq!(result.matches[0].line_text, "foo");
    assert_eq!(result.matches[1].line_number, 4);
    assert_eq!(result.matches[1].spans, vec![(0, 3), (4, 7)]);
    assert_eq!(result.matches[1].line_text, "foo foo");
}

#[test]
fn a_last_line_without_terminator_is_a_line() {
    let matcher = PatternMatcher::compile("^$|b").unwrap();
    let with = search_text("f", "a\nb\n", &matcher);
    let without = search_text("f", "a\nb", &matcher);
    assert_eq!(with.matches.len(), 1);
    assert_eq!(without.matches.len(), 1);
    assert_eq!(with.matches[0].line_number, 2);
    assert_eq!(without.matches[0].line_number, 2);
}

#[test]
fn a_pattern_does_not_reach_over_a_line_end() {
    let matcher = PatternMatcher::compile(r"a\s*b").unwrap();
    let result = search_text("f", "a\nb\na b", &matcher);
    assert_eq!(result.matches.len(), 1);
    assert_eq!(result.matches[0].line_number, 3);
}

#[test]
fn empty_content_has_no_matches() {
    let matcher = PatternMatcher::compile("a").unwrap();
    assert_eq!(search_text("f", "", &matcher).matches.len(), 0);
    assert_eq!(search_text("f", "\n\n\n", &matcher).matches.len(), 0);
    assert_eq!(search_text("f", "bcd\nefg", &matcher).matches.len(), 0);
}

#[test]
fn split_line_cuts_at_the_first_terminator() {
    assert_eq!(split_line("a\nb\nc"), Some(("a", "b\nc")));
    assert_eq!(split_line("abc"), Some(("abc", "")));
    assert_eq!(split_line("abc\n"), Some(("abc", "")));
    assert_eq!(split_line("\nabc"), Some(("", "abc")));
    assert_eq!(split_line("\n"), Some(("", "")));
    assert_eq!(split_line("é\nü"), Some(("é", "ü")));
    assert_eq!(split_line(""), None);
}

#[test]
fn bytes_are_decoded_before_the_search() {
    let matcher = PatternMatcher::compile("ü").unwrap();
    let result = search_bytes("f", "é\nxü".as_bytes(), &matcher).unwrap();
    assert_eq!(result.matches.len(), 1);
    assert_eq!(result.matches[0].line_number, 2);
    assert_eq!(result.matches[0].spans, vec![(1, 3)]);
}

#[test]
fn bytes_that_are_no_text_are_refused() {
    let matcher = PatternMatcher::compile("a").unwrap();
    let bytes: Vec<u8> = vec![97, 255, 97];
    match search_bytes("f", &bytes, &matcher) {
        Err(e) => assert_eq!(e, SearchError::Decode),
        Ok(_) => panic!("invalid UTF-8 must be refused"),
    }
}

#[test]
fn every_record_keeps_its_spans_in_order() {
    let matcher = PatternMatcher::compile(r"[a-z]+|\d").unwrap();
    let result = search_text("f", "ab 12 cd\n\n--\nx9é y", &matcher);
    assert_eq!(result.matches.len(), 2);
    let mut last_line = 0;
    for line in &result.matches {
        assert!(last_line < line.line_number);
        last_line = line.line_number;
        assert!(!line.spans.is_empty());
        let mut last_end = 0;
        for &(start, end) in &line.spans {
            assert!(last_end <= start && start < end && end <= line.line_text.len());
            last_end = end;
        }
    }
}

#[test]
fn a_file_that_was_not_read_is_an_io_error() {
    let matcher = PatternMatcher::compile("a").unwrap();
    match search_read("f", None, &matcher) {
        Err(e) => assert_eq!(e, SearchError::Io),
        Ok(_) => panic!("a file that was not read cannot be searched"),
    }
    let found = search_read("f", Some("a".as_bytes()), &matcher).unwrap();
    assert_eq!(found.matches.len(), 1);
    let bytes: Vec<u8> = vec![192];
    match search_read("f", Some(&bytes), &matcher) {
        Err(e) => assert_eq!(e, SearchError::Decode),
        Ok(_) => panic!("invalid UTF-8 must be refused"),
    }
}

#[test]
fn the_order_of_the_files_does_not_change_what_is_found() {
    let matcher = PatternMatcher::compile("o+").unwrap();
    let files = vec![("./a", "foo\nbar"), ("./b", "none"), ("./c", "x\nboo o")];
    let found = |order: Vec<usize>| {
        let mut lines = Vec::new();
        for i in order {
            let result = search_text(files[i].0, files[i].1, &matcher);
            for item in render(&result).unwrap() {
                lines.push((item.file_path, item.line_number, item.start, item.matched));
            }
        }
        lines.sort();
        lines
    };
    let forward = found(vec![0, 1, 2]);
    let shuffled = found(vec![2, 0, 1]);
    assert_eq!(forward.len(), 4);
    assert_eq!(forward, shuffled);
}

#[test]
fn a_new_record_holds_no_match() {
    let result = FileResult::new("./a.txt");
    assert_eq!(result.file_path, "./a.txt");
    assert!(result.matches.is_empty());
    assert_eq!(render(&result).unwrap().len(), 0);
}
