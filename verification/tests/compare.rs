use boardjudge::judger::compare::normal_compare;

fn eq(a: &[u8], b: &[u8]) -> bool {
    normal_compare(&a.to_vec(), &b.to_vec())
}

#[test]
fn trailing_newline_is_tolerated() {
    assert!(eq(b"3\n", b"3"));
    assert!(eq(b"3", b"3\n"));
}

#[test]
fn different_content_is_rejected() {
    assert!(!eq(b"3\n", b"4\n"));
    assert!(!eq(b"asd", b"qwe"));
}

#[test]
fn trailing_line_whitespace_is_tolerated() {
    assert!(eq(b"1 2 \n3 4", b"1 2\n3 4"));
    assert!(eq(b"1 2  \n3 4", b"1 2    \t\n3 4"));
    assert!(eq(b"1\t\n", b"1\r\n"));
}

#[test]
fn trailing_blank_lines_are_tolerated() {
    assert!(eq(b"1\n\n\n", b"1"));
    assert!(eq(b"1\r\n\r\n\r\n", b"1  "));
    assert!(eq(b"\n", b""));
    assert!(eq(b" \n", b" "));
}

#[test]
fn carriage_returns_before_newlines_are_tolerated() {
    assert!(eq(b"1 2\n3 4", b"1 2\r\n3 4\n"));
    assert!(eq(b"1\r\n2\r\n", b"1 \n2\t\n"));
}

#[test]
fn interior_whitespace_differences_are_rejected() {
    assert!(!eq(b"1 3\n", b"1\t3\n"));
    assert!(!eq(b"1 3\n", b"1         3\n"));
    assert!(!eq(b" asd", b"  asd"));
    assert!(!eq(b" asd", b"\nasd"));
}

#[test]
fn missing_lines_are_rejected() {
    assert!(!eq(b"1\na", b"1\n"));
    assert!(!eq(b"1\n", b"1\na"));
    assert!(!eq(b"1\n\n3\n", b"1\n3\n"));
}

#[test]
fn trailing_content_differences_are_rejected() {
    assert!(!eq(b"1a", b"1"));
    assert!(!eq(b"1 a", b"1 "));
    assert!(!eq(b"1a \nb", b"1  \nb"));
}

#[test]
fn blank_interior_lines_are_kept() {
    assert!(eq(b"1\n\n3\n", b"1\r\n  \r\n3\t\n"));
}

#[test]
fn agrees_with_the_reference_comparator() {
    let cases: Vec<(&[u8], &[u8])> = vec![
        (b"1", b"2"),
        (b"1\r\n", b"2\n"),
        (b"1 3\n", b"1\t3\n"),
        (b"1 2\n3 4", b"1 2\r\n3 4\n"),
        (b"\n", b""),
        (b" \n", b" "),
        (b"1\n", b"1"),
        (b"1 \n", b"1"),
        (b"1\t\n", b"1\r\n"),
        (b"1\r\n\r\n\r\n", b"1  "),
        (b"\t\n1", b"\r\n1"),
        (b"asd", b"qwe"),
        (b" asd", b"  asd"),
        (b" asd", b"\nasd"),
        (b"1\na", b"1\n"),
        (b"1a", b"1"),
        (b"1 a", b"1 "),
        (b"1\n\n3\n", b"1\r\n  \r\n3\t\n"),
        (b"1\n3\n", b"1\r\n  \r\n3\t\n"),
    ];
    for (a, b) in cases {
        let mut ra: &[u8] = a;
        let mut rb: &[u8] = b;
        let reference = ojcmp::try_normal_compare(&mut ra, &mut rb).unwrap();
        let accepted = reference == ojcmp::Comparison::AC;
        assert_eq!(
            eq(a, b),
            accepted,
            "disagreement on {:?} vs {:?}",
            a,
            b
        );
    }
}
