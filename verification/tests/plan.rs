use boardjudge::judger::plan::ends_with_suffix;
use boardjudge::judger::plan::plan_tests;
use boardjudge::judger::plan::str_eq;
use boardjudge::judger::plan::str_lt;

fn strings(names: &[&str]) -> Vec<String> {
    names.iter().map(|s| s.to_string()).collect()
}

#[test]
fn only_paired_names_are_planned() {
    let r = plan_tests(&strings(&["a.in", "a.out", "b.in", "c.out"]));
    assert_eq!(r, vec!["a".to_string()]);
}

#[test]
fn planned_tests_come_in_lexicographic_order() {
    let r = plan_tests(&strings(&["b.out", "c.in", "a.in", "b.in", "a.out", "c.out"]));
    assert_eq!(r, strings(&["a", "b", "c"]));
}

#[test]
fn duplicate_listings_are_planned_once() {
    let r = plan_tests(&strings(&["a.in", "a.in", "a.out", "a.out"]));
    assert_eq!(r, vec!["a".to_string()]);
}

#[test]
fn an_empty_directory_plans_nothing() {
    let r = plan_tests(&strings(&[]));
    assert!(r.is_empty());
}

#[test]
fn unrelated_files_are_ignored() {
    let r = plan_tests(&strings(&["readme.txt", "a.in", "a.out", "a.ans"]));
    assert_eq!(r, vec!["a".to_string()]);
}

#[test]
fn numeric_names_sort_as_text() {
    let r = plan_tests(&strings(&["10.in", "10.out", "2.in", "2.out", "1.in", "1.out"]));
    assert_eq!(r, strings(&["1", "10", "2"]));
}

#[test]
fn str_lt_is_lexicographic() {
    assert!(str_lt("a", "b"));
    assert!(str_lt("a", "ab"));
    assert!(!str_lt("b", "a"));
    assert!(!str_lt("a", "a"));
    assert!(str_lt("", "a"));
}

#[test]
fn str_eq_compares_contents() {
    assert!(str_eq("abc", "abc"));
    assert!(!str_eq("abc", "abd"));
    assert!(!str_eq("abc", "abcd"));
    assert!(str_eq("", ""));
}

#[test]
fn suffix_test_looks_at_the_tail() {
    assert!(ends_with_suffix("a.in", ".in"));
    assert!(!ends_with_suffix("a.in", ".out"));
    assert!(!ends_with_suffix("in", ".in"));
    assert!(ends_with_suffix(".in", ".in"));
}
