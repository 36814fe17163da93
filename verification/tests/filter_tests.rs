use treegrep::filter::NameFilter;
use treegrep::matcher::PatternError;

#[test]
#[allow(non_snake_case)]
fn testMf() {
    let glob = NameFilter::compile("./*.txt").unwrap();
    println!("{}", glob.matches("./aa.txt"));
    assert!(glob.matches("./aa.txt"));
}

#[test]
fn rooted_glob_matches_from_the_search_root() {
    let filter = NameFilter::compile_rooted("*.txt").unwrap();
    assert!(filter.matches("./aa.txt"));
    assert!(filter.matches("./a.txt"));
    assert!(!filter.matches("./sub/aa.txt"));
    assert!(!filter.matches("aa.txt"));
    assert!(!filter.matches("./aa.rs"));
}

#[test]
fn recursive_segment_crosses_directories() {
    let filter = NameFilter::compile_rooted("**/*.txt").unwrap();
    assert!(filter.matches("./sub/aa.txt"));
    assert!(filter.matches("./sub/deeper/aa.txt"));
    assert!(filter.matches("./aa.txt"));
    assert!(!filter.matches("./sub/aa.rs"));
}

#[test]
fn question_mark_matches_one_character() {
    let filter = NameFilter::compile_rooted("a?.txt").unwrap();
    assert!(filter.matches("./ab.txt"));
    assert!(!filter.matches("./a.txt"));
    assert!(!filter.matches("./abc.txt"));
    assert!(!filter.matches("./a/.txt"));
}

#[test]
fn matching_is_case_sensitive() {
    let filter = NameFilter::compile_rooted("*.txt").unwrap();
    assert!(!filter.matches("./AA.TXT"));
    assert!(!filter.matches("./aa.Txt"));
}

#[test]
fn invalid_glob_is_refused() {
    match NameFilter::compile("[") {
        Err(PatternError::Glob(text)) => assert_eq!(text, "["),
        _ => panic!("an unclosed class must be refused"),
    }
    match NameFilter::compile_rooted("{a,b") {
        Err(PatternError::Glob(text)) => assert_eq!(text, "./{a,b"),
        _ => panic!("an unclosed alternative must be refused"),
    }
}
