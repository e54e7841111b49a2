use ubi_doc::parser::extract_ubiquitous::extract_ubiquitous;
use ubi_doc::parser::php::extract_ubiquitous::extract_ubiquitous as extract_ubiquitous_params;
use ubi_doc::parser::php::extract_ubiquitous::ExtractUbiquitousParam;
use ubi_doc::parser::ubiquitous::Ubiquitous;

#[test]
fn test_extract_ubiquitous_empty() {
    let comments = vec![
        String::from("/* nothing here */"),
        String::from("// hello world"),
    ];

    let result = extract_ubiquitous(comments);
    assert!(result.is_empty());
}

#[test]
fn test_extract_ubiquitous_single() {
    let comments = vec![
        String::from("// normal comment"),
        String::from("// @ubiquitous first"),
    ];

    let result = extract_ubiquitous(comments);
    assert_eq!(result.len(), 1);
    assert_eq!(
        result[0],
        Ubiquitous::new().set_ubiquitous("first".to_string())
    );
}

#[test]
fn test_extract_ubiquitous_multi_fields() {
    let comments = vec![String::from(
        r#"/**
 * @ubiquitous ubiquitous_lang
 * @context context_example
 * @description description_text
 */"#,
    )];
    let result = extract_ubiquitous(comments);
    assert_eq!(result.len(), 1);

    let expected = Ubiquitous::new()
        .set_ubiquitous("ubiquitous_lang".to_string())
        .set_context("context_example".to_string())
        .set_description("description_text".to_string());
    assert_eq!(result[0], expected);
}

#[test]
fn extract_ubiquitous_test_extract_ubiquitous_empty() {
    let doc_comments = vec![];

    let result = extract_ubiquitous_params(doc_comments);
    assert!(result.is_empty());
}

#[test]
fn extract_ubiquitous_test_extract_ubiquitous_single() {
    let class_docs = vec![ExtractUbiquitousParam {
        class_name: "class_name".to_string(),
        doc_comment: r#"/**
    * @ubiquitous ubiquitous_lang
    */"#
            .to_string(),
        file_path: "tmp/saple.php".to_string(),
        line_number: 2,
    }];
    let result = extract_ubiquitous_params(class_docs);
    assert_eq!(result.len(), 1);
    assert_eq!(
        result[0],
        Ubiquitous::new()
            .set_class_name("class_name".to_string())
            .set_ubiquitous("ubiquitous_lang".to_string())
            .set_file_path("tmp/saple.php".to_string())
            .set_line_number(3)
    );
}

#[test]
fn extract_ubiquitous_test_extract_ubiquitous_multi_fields() {
    let class_docs = vec![ExtractUbiquitousParam {
        class_name: "class_name".to_string(),
        doc_comment: r#"/**
    *
    * @ubiquitous ubiquitous_lang
    * @context context_example
    * @description description_text
    */"#
            .to_string(),
        file_path: "tmp/saple.php".to_string(),
        line_number: 3,
    }];
    let result = extract_ubiquitous_params(class_docs);
    assert_eq!(result.len(), 1);

    let expected = Ubiquitous::new()
        .set_class_name("class_name".to_string())
        .set_ubiquitous("ubiquitous_lang".to_string())
        .set_context("context_example".to_string())
        .set_description("description_text".to_string())
        .set_file_path("tmp/saple.php".to_string())
        .set_line_number(5);
    assert_eq!(result[0], expected);
}

#[test]
fn test_repeated_marker_last_occurrence_wins() {
    let comments = vec![String::from(
        "// @ubiquitous first\n// @ubiquitous second",
    )];
    let result = extract_ubiquitous(comments);
    assert_eq!(result.len(), 1);
    assert_eq!(result[0].ubiquitous, "second");
}

#[test]
fn test_context_only_comment_keeps_record_with_empty_term() {
    // A lone @context still yields a record; its term stays empty. The
    // record survives the noise filter because one field is present.
    let comments = vec![String::from("// @context billing")];
    let result = extract_ubiquitous(comments);
    assert_eq!(result.len(), 1);
    assert_eq!(result[0].ubiquitous, "");
    assert_eq!(result[0].context, Some("billing".to_string()));
}

#[test]
fn test_ubiquitous_line_is_not_read_as_context() {
    // The first recognized marker on a line wins; later markers on the
    // same line are ignored.
    let comments = vec![String::from("// @ubiquitous a @context b")];
    let result = extract_ubiquitous(comments);
    assert_eq!(result.len(), 1);
    assert_eq!(result[0].ubiquitous, "a @context b");
    assert_eq!(result[0].context, None);
}
