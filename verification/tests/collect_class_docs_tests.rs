use ubi_doc::parser::grammars::{java_syntax_tree, php_syntax_tree, ruby_syntax_tree};
use ubi_doc::parser::java::collect_class_docs::collect_class_docs as java_collect_class_docs;
use ubi_doc::parser::php::collect_class_docs::collect_class_docs as php_collect_class_docs;
use ubi_doc::parser::ruby::collect_class_docs::collect_class_docs as ruby_collect_class_docs;

#[test]
fn test_collect_class_docs_simple() {
    let code = r#"
<?php
/**
 * Foo class doc
 */
class Foo {
}
"#;

    let tree = php_syntax_tree(code).expect("Failed to parse code");
    let docs = php_collect_class_docs(&tree);

    assert_eq!(docs.len(), 1);
    assert_eq!(docs[0].class_name, "Foo");
    assert!(docs[0].doc_comment.contains("Foo class doc"));
}

#[test]
fn test_collect_class_docs_multiple() {
    let code = r#"
<?php
/**
 * Doc for Foo
 */
class Foo {
}

/**
 * Doc for Bar
 */
class Bar {}

/**
 * This is not a class
 */
function baz() {}
"#;

    let tree = php_syntax_tree(code).expect("Failed to parse code");
    let docs = php_collect_class_docs(&tree);

    assert_eq!(docs.len(), 2);

    assert_eq!(docs[0].class_name, "Foo");
    assert!(docs[0].doc_comment.contains("Doc for Foo"));
    assert_eq!(docs[1].class_name, "Bar");
    assert!(docs[1].doc_comment.contains("Doc for Bar"));
}

#[test]
fn test_collect_class_docs_no_doc() {
    let code = r#"
<?php
// これはクラスの上に DocBlock がない例
class NoDocClass {
}
"#;

    let tree = php_syntax_tree(code).expect("Failed to parse code");
    let docs = php_collect_class_docs(&tree);

    assert_eq!(docs.len(), 0);
}

#[test]
fn test_collect_class_docs_docblock_and_comment() {
    let code = r#"
<?php
// 一般的なコメント (DocBlock ではない)
/// Another style comment (C# style, not recognized as doc)
/**
 * Actual DocBlock
 */
class WithDocBlock {}
"#;

    let tree = php_syntax_tree(code).expect("Failed to parse code");
    let docs = php_collect_class_docs(&tree);

    assert_eq!(docs.len(), 1);
    assert_eq!(docs[0].class_name, "WithDocBlock");
    assert!(docs[0].doc_comment.contains("Actual DocBlock"));
}

#[test]
fn test_collect_class_docs_with_javadoc() {
    let code = r#"
        /**
         * A sample doc comment
         */
        public class Foo {
        }
        "#;

    let tree = java_syntax_tree(code).expect("Failed to parse code");
    let docs = java_collect_class_docs(&tree);
    assert_eq!(docs.len(), 1);

    let foo = &docs[0];
    assert_eq!(foo.class_name, "Foo");
    assert!(foo.doc_comment.contains("A sample doc comment"));
    assert_eq!(foo.doc_comment_line, Some(2));
}

#[test]
fn test_collect_class_docs_without_javadoc() {
    let code = r#"
        // 通常コメントのみ
        public class Bar {
        }
        "#;

    let tree = java_syntax_tree(code).expect("Failed to parse code");
    let docs = java_collect_class_docs(&tree);
    assert_eq!(docs.len(), 0);
}

#[test]
fn test_collect_class_docs_multiple_classes() {
    let code = r#"
        /**
         * First JavaDoc
         */
        public class Alpha {
        }

        // これはJavaDocではない普通のコメント
        /**
         * Second JavaDoc
         */
        public class Beta {
        }
        "#;

    let tree = java_syntax_tree(code).expect("Failed to parse code");
    let docs = java_collect_class_docs(&tree);
    assert_eq!(docs.len(), 2);

    let alpha = &docs[0];
    assert_eq!(alpha.class_name, "Alpha");
    assert!(alpha.doc_comment.contains("First JavaDoc"));

    let beta = &docs[1];
    assert_eq!(beta.class_name, "Beta");
    assert!(beta.doc_comment.contains("Second JavaDoc"));
}

#[test]
fn test_collect_class_docs_interrupted_by_other_node() {
    let code = r#"
        public class NoDoc {
        }

        // ここに別のクラスがあるので、次のJavaDocがその前に割り込まれる
        /**
         * JavaDoc for Bar
         */
        public class Bar {}
        "#;

    let tree = java_syntax_tree(code).expect("Failed to parse code");
    let docs = java_collect_class_docs(&tree);

    assert_eq!(docs.len(), 1);
    assert_eq!(docs[0].class_name, "Bar");
    assert!(docs[0].doc_comment.contains("JavaDoc for Bar"));
}

#[test]
fn test_collect_class_docs_with_comment() {
    let code = r#"
        # A sample doc comment
        class Foo
        end
        "#;

    let tree = ruby_syntax_tree(code).expect("Failed to parse code");
    let docs = ruby_collect_class_docs(&tree);
    assert_eq!(docs.len(), 1);

    let foo = &docs[0];
    assert_eq!(foo.class_name, "Foo");
    assert!(foo.doc_comment.contains("A sample doc comment"));
    assert_eq!(foo.doc_comment_line, Some(2));
}

#[test]
fn collect_class_docs_test_collect_class_docs_multiple_classes() {
    let code = r#"
        # First doc comment
        class Alpha
        end

        # first comment
        # second comment
        class Beta
        end
        "#;

    let tree = ruby_syntax_tree(code).expect("Failed to parse code");
    let docs = ruby_collect_class_docs(&tree);
    assert_eq!(docs.len(), 2);

    let alpha = &docs[0];
    assert_eq!(alpha.class_name, "Alpha");
    assert!(alpha.doc_comment.contains("First doc comment"));

    let beta = &docs[1];
    assert_eq!(beta.class_name, "Beta");
    assert!(beta.doc_comment.contains("first comment"));
    assert!(beta.doc_comment.contains("second comment"));
}

#[test]
fn collect_class_docs_test_collect_class_docs_interrupted_by_other_node() {
    let code = r#"
        class NoDoc
        end

        # ここに別のクラスがあるので、次のコメントがその前に割り込まれる
        # Doc for Bar
        class Bar
        end
        "#;

    let tree = ruby_syntax_tree(code).expect("Failed to parse code");
    let docs = ruby_collect_class_docs(&tree);

    assert_eq!(docs.len(), 1);
    assert_eq!(docs[0].class_name, "Bar");
    assert!(docs[0].doc_comment.contains("Doc for Bar"));
}
