use runiq::HashUniqueTester;
use runiq::RegexUniqueTester;
use runiq::UniqueTester;
use runiq::filter_input;

fn lines(xs: &[&str]) -> Vec<String> {
    xs.iter().map(|s| s.to_string()).collect()
}

fn exact_filter(input: &[&str]) -> Vec<String> {
    let mut tester = HashUniqueTester::new();
    filter_input(&lines(input), &mut tester)
}

fn pattern_filter(pattern: &str, input: &[&str]) -> Vec<String> {
    let mut tester = match RegexUniqueTester::new(pattern.to_string()) {
        Ok(t) => t,
        Err(e) => panic!("pattern {} refused: {}", e.pattern, e.message),
    };
    filter_input(&lines(input), &mut tester)
}

#[test]
fn exact_repeated_line_kept_once() {
    assert_eq!(exact_filter(&["same line", "same line"]), lines(&["same line"]));
}

#[test]
fn exact_scenario() {
    assert_eq!(exact_filter(&["a", "b", "a", "c", "b"]), lines(&["a", "b", "c"]));
}

#[test]
fn exact_distinct_lines_both_kept() {
    assert_eq!(exact_filter(&["abc", "abd"]), lines(&["abc", "abd"]));
}

#[test]
fn exact_one_character_difference() {
    assert_eq!(exact_filter(&["", " ", ""]), lines(&["", " "]));
}

#[test]
fn exact_empty_input() {
    assert_eq!(exact_filter(&[]), lines(&[]));
}

#[test]
fn exact_order_preserved() {
    assert_eq!(
        exact_filter(&["z", "y", "z", "x", "y", "w"]),
        lines(&["z", "y", "x", "w"])
    );
}

#[test]
fn exact_visit_records_first_occurrence() {
    let mut tester = HashUniqueTester::new();
    let line = "a line".to_string();
    assert!(!tester.visit(&line));
    assert!(tester.visit(&line));
    assert!(tester.visit(&line));
}

#[test]
fn pattern_empty_input() {
    assert_eq!(pattern_filter(r"(\d+)", &[]), lines(&[]));
}

#[test]
fn pattern_grouping() {
    assert_eq!(
        pattern_filter(r"(\d+)", &["id=42 foo", "id=42 bar", "id=43 baz"]),
        lines(&["id=42 foo", "id=43 baz"])
    );
}

#[test]
fn pattern_scenario() {
    assert_eq!(
        pattern_filter(
            r"user:(\w+)",
            &["user:alice login", "user:bob login", "user:alice logout", "no match here"]
        ),
        lines(&["user:alice login", "user:bob login", "no match here"])
    );
}

#[test]
fn pattern_nonmatching_lines_never_deduplicated() {
    assert_eq!(
        pattern_filter(r"x(\d+)", &["hello", "hello", "x1 a", "x1 b", "hello"]),
        lines(&["hello", "hello", "x1 a", "hello"])
    );
}

#[test]
fn pattern_nonmatch_does_not_record() {
    let mut tester = RegexUniqueTester::new(r"k=(\w+)".to_string()).unwrap_or_else(|e| {
        panic!("pattern {} refused: {}", e.pattern, e.message)
    });
    let stray = "no key here".to_string();
    assert!(!tester.visit(&stray));
    assert!(!tester.visit(&stray));
    let keyed = "k=a".to_string();
    assert!(!tester.visit(&keyed));
    assert!(tester.visit(&keyed));
}

#[test]
fn pattern_multiple_groups_in_declaration_order() {
    assert_eq!(
        pattern_filter(
            r"(\w+):(\w+)",
            &["a:b one", "a:b two", "a:c three", "b:a four"]
        ),
        lines(&["a:b one", "a:c three", "b:a four"])
    );
}

#[test]
fn pattern_optional_group_counts_as_empty() {
    // In "a x" only the first group participates, in "b y" only the second;
    // the missing group contributes an empty string to the fingerprint.
    assert_eq!(
        pattern_filter(r"(a)|(b)", &["a x", "b y", "a z", "b w"]),
        lines(&["a x", "b y"])
    );
}

#[test]
fn pattern_leftmost_match_decides() {
    // Both lines hold two candidate matches; only the leftmost one counts.
    assert_eq!(
        pattern_filter(r"(\d+)", &["1 then 2", "1 then 3", "2 then 1"]),
        lines(&["1 then 2", "2 then 1"])
    );
}

#[test]
fn pattern_whole_match_excluded_from_fingerprint() {
    // Same capture, different surrounding match text: still a duplicate.
    assert_eq!(
        pattern_filter(r"=(\d+);", &["a=7; x", "b=7; y", "c=8; z"]),
        lines(&["a=7; x", "c=8; z"])
    );
}

#[test]
fn invalid_pattern_rejected() {
    match RegexUniqueTester::new("(".to_string()) {
        Ok(_) => panic!("unbalanced parenthesis accepted"),
        Err(e) => {
            assert_eq!(e.pattern, "(".to_string());
            assert!(!e.message.is_empty());
        }
    }
}

#[test]
fn invalid_character_class_rejected() {
    assert!(RegexUniqueTester::new("a[".to_string()).is_err());
}

#[test]
fn valid_pattern_accepted() {
    assert!(RegexUniqueTester::new(r"^\s*(\S+)".to_string()).is_ok());
}
