use ubi_doc::parser::comment_node_collect::comment_node_collect;
use ubi_doc::parser::get_comments;
use ubi_doc::parser::grammars::php_syntax_tree;

#[test]
fn test_comment_node_collect_simple() {
    let code = r#"
<?php
// line comment
?>
"#;

    let tree = php_syntax_tree(code).expect("Failed to parse code");
    let comments = comment_node_collect(&tree);

    assert_eq!(comments.len(), 1);
    assert_eq!(comments[0], "// line comment");
}

#[test]
fn test_comment_node_collect_multiple() {
    let code = r#"
<?php
// first comment
/* block comment */
public function test() {
}
/**
 * DocBlock comment
 */
?>
"#;

    let tree = php_syntax_tree(code).expect("Failed to parse code");
    let comments = comment_node_collect(&tree);

    assert_eq!(comments.len(), 3);
    assert_eq!(comments[0], "// first comment");
    assert_eq!(comments[1], "/* block comment */");
    assert_eq!(comments[2], "/**\n * DocBlock comment\n */");
}

#[test]
fn test_get_comments_mixed() {
    let code = r#"
<?php
    // 行コメント1
    /* 通常ブロックコメント */
    /**
     * DocBlockコメント
     * @tag タグ説明
     */
    // 行コメント2
?>
"#;
    let comments = get_comments(code);

    let expected = vec![
        "行コメント1",
        "通常ブロックコメント",
        "DocBlockコメント\n@tag タグ説明",
        "行コメント2",
    ];

    assert_eq!(comments, expected);
}

#[test]
fn test_get_comments_no_comments() {
    let code = r#"
<?php
    echo "Hello";
?>
"#;
    let comments = get_comments(code);
    assert_eq!(comments.len(), 0);
}

#[test]
fn test_docblock_multiline() {
    let code = r#"
<?php
        /**
 * タグ無しのコメント
 * @タグ タグの説明
 */
"#;
    let comments = get_comments(code);

    assert_eq!(comments, vec!["タグ無しのコメント\n@タグ タグの説明"]);
}
