use ubi_doc::outputs::html::ubiquitous_row::UbiquitousRow;
use ubi_doc::outputs::html::ubiquitous_rows::UbiquitousRows;
use ubi_doc::parser::file_io::read_sources_from_dir::CodeFile;
use ubi_doc::parser::get_comment;
use ubi_doc::parser::get_ubiquitous_list::get_ubiquitous_list;
use ubi_doc::parser::kotlin::get_ubiquitous::get_ubiquitous as kotlin_get_ubiquitous;
use ubi_doc::parser::kotlin::get_ubiquitous::get_ubiquitous_in_tree as kotlin_in_tree;
use ubi_doc::parser::php::get_ubiquitous::get_ubiquitous as php_get_ubiquitous;
use ubi_doc::parser::syntax_tree::SyntaxNode;
use ubi_doc::parser::ubiquitous::Ubiquitous;

#[test]
fn test_tag_parsing_one_record_per_tagged_declaration() {
    let code = "/** @ubiquitous X\n * @context Y\n * @description Z */\nclass Foo {}\n";
    let records = php_get_ubiquitous(code, "x.php");
    assert_eq!(records.len(), 1);
    assert_eq!(records[0].class_name, Some("Foo".to_string()));
    assert_eq!(records[0].ubiquitous, "X");
    assert_eq!(records[0].context, Some("Y".to_string()));
    assert_eq!(records[0].description, Some("Z".to_string()));
}

#[test]
fn test_tagless_doc_comment_yields_no_record() {
    // A documentation comment with none of the three tag markers is not
    // glossary content: the declaration contributes zero records even
    // though it has a name.
    let code = "/**\n * Explains the class, carries no marker.\n */\nclass Foo {}\n";
    let records = php_get_ubiquitous(code, "x.php");
    assert_eq!(records.len(), 0);
}

#[test]
fn test_permuted_file_lists_yield_equal_sorted_rows() {
    let a = CodeFile {
        code: "/** @ubiquitous One\n * @context B */\nclass One {}\n".to_string(),
        extension: "php".to_string(),
        file_path: "a.php".to_string(),
    };
    let b = CodeFile {
        code: "# @ubiquitous Two\n# @context A\nclass Two\nend\n".to_string(),
        extension: "rb".to_string(),
        file_path: "b.rb".to_string(),
    };
    let mk = |swap: bool| {
        let files = if swap {
            vec![
                CodeFile {
                    code: b.code.clone(),
                    extension: b.extension.clone(),
                    file_path: b.file_path.clone(),
                },
                CodeFile {
                    code: a.code.clone(),
                    extension: a.extension.clone(),
                    file_path: a.file_path.clone(),
                },
            ]
        } else {
            vec![
                CodeFile {
                    code: a.code.clone(),
                    extension: a.extension.clone(),
                    file_path: a.file_path.clone(),
                },
                CodeFile {
                    code: b.code.clone(),
                    extension: b.extension.clone(),
                    file_path: b.file_path.clone(),
                },
            ]
        };
        let mut rows = UbiquitousRows::new();
        for u in get_ubiquitous_list(files) {
            rows.add(
                UbiquitousRow::new()
                    .set_class_name(u.class_name.clone().unwrap_or_default())
                    .set_ubiquitous(u.ubiquitous.clone())
                    .set_context(u.context.clone().unwrap_or_default())
                    .set_github_url(
                        "owner/repo".to_string(),
                        "main".to_string(),
                        u.file_path.clone().unwrap_or_default(),
                        u.line_number.unwrap_or_default(),
                    ),
            );
        }
        rows.sort();
        rows.rows
            .iter()
            .map(|r| (r.context.clone(), r.ubiquitous.clone(), r.github_url.clone()))
            .collect::<Vec<_>>()
    };
    assert_eq!(mk(false), mk(true));
}

#[test]
fn test_is_all_none_checks_every_semantic_field() {
    assert!(Ubiquitous::new().is_all_none());
    assert!(!Ubiquitous::new().set_class_name("Foo".to_string()).is_all_none());
    assert!(!Ubiquitous::new().set_ubiquitous("t".to_string()).is_all_none());
    assert!(!Ubiquitous::new().set_context("c".to_string()).is_all_none());
    assert!(!Ubiquitous::new().set_description("d".to_string()).is_all_none());
}

#[test]
fn test_plain_line_comment_above_class_yields_no_record() {
    // PHP requires the `/**` documentation prefix: a plain `//` comment
    // carries no record, even with a marker inside.
    let code = "// @ubiquitous X\nclass Foo {}\n";
    let records = php_get_ubiquitous(code, "x.php");
    assert_eq!(records.len(), 0);
}

#[test]
fn test_sample_php_scenario() {
    let code = "/**\n * @ubiquitous Invoice\n * @context Billing\n */\nclass Invoice {}\n";
    let files = vec![CodeFile {
        code: code.to_string(),
        extension: "php".to_string(),
        file_path: "sample.php".to_string(),
    }];
    let records = get_ubiquitous_list(files);
    assert_eq!(records.len(), 1);
    let r = &records[0];
    assert_eq!(r.class_name, Some("Invoice".to_string()));
    assert_eq!(r.ubiquitous, "Invoice");
    assert_eq!(r.context, Some("Billing".to_string()));
    assert_eq!(r.description, None);
    assert_eq!(r.file_path, Some("sample.php".to_string()));
    assert_eq!(r.line_number, Some(2));
}

#[test]
fn test_output_order_sorts_contexts() {
    // Two declarations with contexts "B" and "A": the "A" record leads.
    let code = "<?php\n/** @ubiquitous One\n * @context B */\nclass One {}\n/** @ubiquitous Two\n * @context A */\nclass Two {}\n";
    let files = vec![CodeFile {
        code: code.to_string(),
        extension: "php".to_string(),
        file_path: "s.php".to_string(),
    }];
    let records = get_ubiquitous_list(files);
    assert_eq!(records.len(), 2);
    let mut rows = UbiquitousRows::new();
    for u in &records {
        let row = UbiquitousRow::new()
            .set_class_name(u.class_name.clone().unwrap_or_default())
            .set_ubiquitous(u.ubiquitous.clone())
            .set_context(u.context.clone().unwrap_or_default())
            .set_description(u.description.clone().unwrap_or_default())
            .set_github_url(
                "owner/repo".to_string(),
                "main".to_string(),
                u.file_path.clone().unwrap_or_default(),
                u.line_number.unwrap_or_default(),
            );
        rows.add(row);
    }
    rows.sort();
    assert_eq!(rows.rows[0].context, "A");
    assert_eq!(rows.rows[0].ubiquitous, "Two");
    assert_eq!(rows.rows[1].context, "B");
    assert_eq!(rows.rows[1].ubiquitous, "One");
}

#[test]
fn test_pipeline_twice_yields_identical_records() {
    let code = "<?php\n/** @ubiquitous A\n * @context C */\nclass A {}\n";
    let mk = || {
        vec![
            CodeFile {
                code: code.to_string(),
                extension: "php".to_string(),
                file_path: "a.php".to_string(),
            },
            CodeFile {
                code: "class NotPhp".to_string(),
                extension: "txt".to_string(),
                file_path: "b.txt".to_string(),
            },
        ]
    };
    let first = get_ubiquitous_list(mk());
    let second = get_ubiquitous_list(mk());
    assert_eq!(first, second);
    assert_eq!(first.len(), 1);
}

#[test]
fn test_unsupported_extension_contributes_zero_records() {
    let files = vec![CodeFile {
        code: "/** @ubiquitous X */ class Foo {}".to_string(),
        extension: "xyz".to_string(),
        file_path: "f.xyz".to_string(),
    }];
    let records = get_ubiquitous_list(files);
    assert_eq!(records.len(), 0);
}

#[test]
fn test_empty_file_list_yields_no_records() {
    let records = get_ubiquitous_list(Vec::new());
    assert_eq!(records.len(), 0);
}

#[test]
fn test_get_comment_keeps_non_empty_terms() {
    let records = vec![
        Ubiquitous::new().set_ubiquitous("first".to_string()),
        Ubiquitous::new().set_context("only-context".to_string()),
        Ubiquitous::new().set_ubiquitous("second".to_string()),
    ];
    let terms = get_comment(records);
    assert_eq!(terms, vec!["first".to_string(), "second".to_string()]);
}

fn leaf(kind: &str, text: &str, row: usize) -> SyntaxNode {
    SyntaxNode {
        kind: kind.to_string(),
        named: true,
        text: text.to_string(),
        start_row: row,
        children: Vec::new(),
    }
}

#[test]
fn test_kotlin_records_from_tree() {
    // A hand-built Kotlin tree: a documentation comment, then a class
    // declaration whose name is a type_identifier child.
    let class_decl = SyntaxNode {
        kind: "class_declaration".to_string(),
        named: true,
        text: "class Order".to_string(),
        start_row: 3,
        children: vec![leaf("type_identifier", "Order", 3)],
    };
    let root = SyntaxNode {
        kind: "source_file".to_string(),
        named: true,
        text: String::new(),
        start_row: 0,
        children: vec![
            leaf("comment", "/** @ubiquitous Order\n * @context Sales */", 1),
            class_decl,
        ],
    };
    let records = kotlin_in_tree(&root, "order.kt");
    assert_eq!(records.len(), 1);
    assert_eq!(records[0].class_name, Some("Order".to_string()));
    assert_eq!(records[0].ubiquitous, "Order");
    assert_eq!(records[0].context, Some("Sales".to_string()));
    assert_eq!(records[0].file_path, Some("order.kt".to_string()));
    assert_eq!(records[0].line_number, Some(2));
}

#[test]
fn test_kotlin_source_is_not_parsed() {
    // No Kotlin grammar is linked, so Kotlin source text yields nothing.
    let records = kotlin_get_ubiquitous("/** @ubiquitous X */ class K", "k.kt");
    assert_eq!(records.len(), 0);
}

#[test]
fn test_java_and_ruby_files_through_the_list() {
    let java = "/**\n * @ubiquitous Account\n * @context Banking\n */\npublic class Account {}\n";
    let ruby = "# @ubiquitous Ledger\n# @context Banking\nclass Ledger\nend\n";
    let files = vec![
        CodeFile {
            code: java.to_string(),
            extension: "java".to_string(),
            file_path: "Account.java".to_string(),
        },
        CodeFile {
            code: ruby.to_string(),
            extension: "rb".to_string(),
            file_path: "ledger.rb".to_string(),
        },
    ];
    let records = get_ubiquitous_list(files);
    assert_eq!(records.len(), 2);
    assert_eq!(records[0].ubiquitous, "Account");
    assert_eq!(records[0].file_path, Some("Account.java".to_string()));
    assert_eq!(records[0].line_number, Some(2));
    assert_eq!(records[1].ubiquitous, "Ledger");
    assert_eq!(records[1].file_path, Some("ledger.rb".to_string()));
    assert_eq!(records[1].line_number, Some(1));
}
