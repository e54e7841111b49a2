use ubi_doc::parser::converter::extract_comment::{extract_comment, extract_comments};
use ubi_doc::parser::cleanup_comment;

#[test]
fn test_line_comment() {
    let input = String::from("// line comment");
    let expected = "line comment";
    assert_eq!(extract_comment(input), expected);
}

#[test]
fn test_block_comment() {
    let input = String::from("/* block comment */");
    let expected = "block comment";
    assert_eq!(extract_comment(input), expected);
}

#[test]
fn test_doc_block_comment_single_line() {
    let input = String::from("/** doc block */");
    let expected = "doc block";
    assert_eq!(extract_comment(input), expected);
}

#[test]
fn test_doc_block_comment_multi_line() {
    let input = String::from(
        r#"/**
 * これは複数行にわたる
 * DocBlockコメント
 */"#,
    );
    let expected = "これは複数行にわたる\nDocBlockコメント";
    assert_eq!(extract_comment(input), expected);
}

#[test]
fn test_non_comment() {
    let input = String::from("Hello, World!");
    let expected = "Hello, World!";
    assert_eq!(extract_comment(input), expected);
}

#[test]
fn test_extract_comments_each() {
    let inputs = vec![
        String::from("// a"),
        String::from("/* b */"),
        String::from("/** c */"),
    ];
    let cleaned = extract_comments(inputs);
    assert_eq!(cleaned, vec!["a".to_string(), "b".to_string(), "c".to_string()]);
}

#[test]
fn test_cleanup_comment_matches_extract_comment() {
    let input = String::from("/**\n * one\n * two\n */");
    assert_eq!(cleanup_comment(input), "one\ntwo");
}

#[test]
fn test_repeated_leading_slashes_are_stripped() {
    // trim_start_matches removes every leading occurrence of `//`.
    let input = String::from("////// deep comment");
    assert_eq!(extract_comment(input), "deep comment");
}
