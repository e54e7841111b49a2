use ubi_doc::parser::get_ubiquitous_list::FileType;
use ubi_doc::parser::guess_language_by_extension::{
    guess_language_by_extension, SupportedLanguage,
};
use ubi_doc::parser::language::Language;

#[test]
fn test_from_path() {
    let cases = [
        ("index.php", Language::Php),
        ("main.rs", Language::Rust),
        ("HelloWorld.java", Language::Java),
        ("src/unknown.xyz", Language::Unknown("xyz".into())),
        ("some/directory/", Language::Unknown("no_ext".into())),
        ("file_without_ext", Language::Unknown("no_ext".into())),
    ];

    for (input, expected) in cases {
        let got = Language::from_path(input);
        assert_eq!(
            got, expected,
            "Language::from_path(\"{input}\") => {:?}, but expected {:?}",
            got, expected
        );
    }
}

#[test]
fn test_guess_language_by_extension_php() {
    let php_path = "tests/fixtures/sample.php";
    let lang = guess_language_by_extension(php_path);
    assert_eq!(lang, SupportedLanguage::Php);
}

#[test]
fn test_guess_language_by_extension_unknown() {
    let unknown_path = "tests/fixtures/sample.unknown";
    let lang = guess_language_by_extension(unknown_path);
    assert_eq!(lang, SupportedLanguage::Unknown);
}

#[test]
fn test_guess_language_no_extension() {
    let no_extension = "tests/fixtures/file";
    let lang = guess_language_by_extension(no_extension);
    assert_eq!(lang, SupportedLanguage::Unknown);
}

#[test]
fn test_file_type_from_extension() {
    assert!(matches!(FileType::from_extension("php"), FileType::Php));
    assert!(matches!(FileType::from_extension("kt"), FileType::Kotlin));
    assert!(matches!(FileType::from_extension("rb"), FileType::Ruby));
    assert!(matches!(FileType::from_extension("java"), FileType::Java));
    match FileType::from_extension("txt") {
        FileType::Other(e) => assert_eq!(e, "txt"),
        _ => panic!("txt must classify as unsupported"),
    }
}

#[test]
fn test_hidden_file_has_no_extension() {
    let lang = guess_language_by_extension("dir/.php");
    assert_eq!(lang, SupportedLanguage::Unknown);
}
