use ubi_doc::outputs::html::ubiquitous_row::UbiquitousRow;
use ubi_doc::outputs::html::ubiquitous_rows::UbiquitousRows;

#[test]
fn test_set_github_url() {
    let repo = "owner/repo".to_string();
    let branch = "main".to_string();
    let file_path = "src/lib.rs".to_string();
    let line_number = 42;

    let row = UbiquitousRow::new().set_github_url(repo, branch, file_path, line_number);

    assert_eq!(
        row.github_url,
        "https://github.com/owner/repo/blob/main/src/lib.rs#L42"
    );
}

#[test]
fn test_set_github_url_normalizes_path() {
    let row = UbiquitousRow::new().set_github_url(
        "owner/repo".to_string(),
        "main".to_string(),
        ".\\src\\lib.rs".to_string(),
        7,
    );
    assert_eq!(row.file_path, "src/lib.rs");
    assert_eq!(
        row.github_url,
        "https://github.com/owner/repo/blob/main/src/lib.rs#L7"
    );
}

#[test]
fn test_sort_by_context_and_ubiquitous() {
    let mut rows = UbiquitousRows::new();

    let row1 = UbiquitousRow {
        class_name: "C1".to_string(),
        ubiquitous: "z".to_string(),
        context: "A".to_string(),
        description: "".to_string(),
        file_path: "".to_string(),
        line_number: 0,
        github_url: "".to_string(),
    };
    let row2 = UbiquitousRow {
        class_name: "C2".to_string(),
        ubiquitous: "m".to_string(),
        context: "A".to_string(),
        description: "".to_string(),
        file_path: "".to_string(),
        line_number: 0,
        github_url: "".to_string(),
    };
    let row3 = UbiquitousRow {
        class_name: "C3".to_string(),
        ubiquitous: "a".to_string(),
        context: "B".to_string(),
        description: "".to_string(),
        file_path: "".to_string(),
        line_number: 0,
        github_url: "".to_string(),
    };
    let row4 = UbiquitousRow {
        class_name: "C4".to_string(),
        ubiquitous: "a".to_string(),
        context: "A".to_string(),
        description: "".to_string(),
        file_path: "".to_string(),
        line_number: 0,
        github_url: "".to_string(),
    };
    let row5 = UbiquitousRow {
        class_name: "C5".to_string(),
        ubiquitous: "z".to_string(),
        context: "B".to_string(),
        description: "".to_string(),
        file_path: "".to_string(),
        line_number: 0,
        github_url: "".to_string(),
    };

    rows.add(row1);
    rows.add(row2);
    rows.add(row3);
    rows.add(row4);
    rows.add(row5);

    rows.sort();

    assert_eq!(rows.rows.len(), 5);

    assert_eq!(rows.rows[0].context, "A");
    assert_eq!(rows.rows[0].ubiquitous, "a");

    assert_eq!(rows.rows[1].context, "A");
    assert_eq!(rows.rows[1].ubiquitous, "m");

    assert_eq!(rows.rows[2].context, "A");
    assert_eq!(rows.rows[2].ubiquitous, "z");

    assert_eq!(rows.rows[3].context, "B");
    assert_eq!(rows.rows[3].ubiquitous, "a");

    assert_eq!(rows.rows[4].context, "B");
    assert_eq!(rows.rows[4].ubiquitous, "z");
}

#[test]
fn test_sort_is_stable_for_equal_keys() {
    let mut rows = UbiquitousRows::new();
    let mk = |class_name: &str| UbiquitousRow {
        class_name: class_name.to_string(),
        ubiquitous: "same".to_string(),
        context: "ctx".to_string(),
        description: "".to_string(),
        file_path: "".to_string(),
        line_number: 0,
        github_url: "".to_string(),
    };
    rows.add(mk("First"));
    rows.add(mk("Second"));
    rows.add(mk("Third"));
    rows.sort();
    assert_eq!(rows.rows[0].class_name, "First");
    assert_eq!(rows.rows[1].class_name, "Second");
    assert_eq!(rows.rows[2].class_name, "Third");
}

#[test]
fn test_sort_twice_changes_nothing() {
    let mut rows = UbiquitousRows::new();
    for (ctx, term) in [("B", "x"), ("A", "z"), ("A", "a")] {
        rows.add(
            UbiquitousRow::new()
                .set_context(ctx.to_string())
                .set_ubiquitous(term.to_string()),
        );
    }
    rows.sort();
    let first: Vec<(String, String)> = rows
        .rows
        .iter()
        .map(|r| (r.context.clone(), r.ubiquitous.clone()))
        .collect();
    rows.sort();
    let second: Vec<(String, String)> = rows
        .rows
        .iter()
        .map(|r| (r.context.clone(), r.ubiquitous.clone()))
        .collect();
    assert_eq!(first, second);
    assert_eq!(
        first,
        vec![
            ("A".to_string(), "a".to_string()),
            ("A".to_string(), "z".to_string()),
            ("B".to_string(), "x".to_string()),
        ]
    );
}
