use translatable::catalog::Language;
use translatable::config::{Config, MacroConfig, SeekMode, TranslationOverlap};
use translatable::document::{parse, Document};
use translatable::error::FileRelatedError;
use translatable::location::FileLocation;
use translatable::nesting::NestingType;
use translatable::runtime::{decimal, join_path};
use translatable::tables::{load_translation_static, split_dotted};
use translatable::text::{chars_of, contains_text, eq_ignore_ascii_case, is_ident, text_lt};

#[test]
fn locations_of_byte_offsets() {
    let text = "ab\ncd\n\nxyz";
    let at = |i: usize| FileLocation::from_byte_index(text, i).map(|l| (l.line(), l.column()));
    assert_eq!(at(0), Some((0, 0)));
    assert_eq!(at(1), Some((0, 1)));
    assert_eq!(at(2), Some((0, 2)));
    assert_eq!(at(3), Some((1, 0)));
    assert_eq!(at(6), Some((2, 0)));
    assert_eq!(at(7), Some((3, 0)));
    assert_eq!(at(9), Some((3, 2)));
    assert_eq!(at(10), None);
    assert_eq!(FileLocation::from_byte_index("", 0), None);
    assert_eq!(FileLocation::from_byte_index("a\r\nb", 3).map(|l| (l.line(), l.column())), Some((1, 1)));
    assert_eq!(FileLocation::from_byte_index("a\r\n", 2), None);
    assert_eq!(FileLocation::from_optional_range(text, Some(4..6)), FileLocation::new(1, 1));
    assert_eq!(FileLocation::from_optional_range(text, Some(40..60)), FileLocation::zero());
    assert_eq!(FileLocation::from_optional_range(text, None), FileLocation::zero());
}

#[test]
fn file_related_errors_keep_their_parts() {
    let e = FileRelatedError::from_data(
        translatable::tree::TranslationTreeErrorDescription::EmptyTable,
        Some("f.toml".to_string()),
        Some(FileLocation::new(2, 3)),
    );
    assert_eq!(e.file_path(), Some(&"f.toml".to_string()));
    assert_eq!(e.at_character(), &Some(FileLocation::new(2, 3)));
    let e = FileRelatedError::with_desc_only(translatable::tree::TranslationTreeErrorDescription::EmptyTable);
    assert_eq!(e.file_path(), None);
    assert_eq!(e.at_character(), &None);
    let e = FileRelatedError::complete(
        translatable::tree::TranslationTreeErrorDescription::EmptyTable,
        None,
        Some(FileLocation::zero()),
    );
    assert_eq!(e.at_character().unwrap().line(), 0);
}

#[test]
fn settings_are_read_back() {
    let c = MacroConfig::new("./translations".to_string(), SeekMode::Unalphabetical, TranslationOverlap::Ignore);
    assert_eq!(c.path(), "./translations");
    assert_eq!(c.seek_mode(), SeekMode::Unalphabetical);
    assert_eq!(c.overlap(), TranslationOverlap::Ignore);
    assert_eq!(SeekMode::default(), SeekMode::Alphabetical);
    assert_eq!(TranslationOverlap::default(), TranslationOverlap::Overwrite);
    assert_eq!(SeekMode::from_str("Unalphabetical"), Some(SeekMode::Unalphabetical));
    assert_eq!(SeekMode::from_str("Alphabetical"), Some(SeekMode::Alphabetical));
    assert_eq!(SeekMode::from_str("alphabetical"), None);
    assert_eq!(TranslationOverlap::from_str("Ignore"), Some(TranslationOverlap::Ignore));
    assert_eq!(TranslationOverlap::from_str("Overwrite"), Some(TranslationOverlap::Overwrite));
    assert_eq!(TranslationOverlap::from_str(""), None);
    let c = Config::new("./src".to_string(), Some(Language::EN), None);
    assert_eq!(c.sources_path(), "./src");
    assert_eq!(c.fallback_language(), Some(Language::EN));
    assert_eq!(c.fallback_translation(), None);
}

#[test]
fn similar_languages_are_listed() {
    let s = Language::get_similarities("an", 3);
    assert_eq!(s.similarities(), &["Avestan (AE)", "Afrikaans (AF)", "Akan (AK)"]);
    let all = Language::get_similarities("an", 1000);
    assert_eq!(all.overflow_by(), 0);
    assert_eq!(s.overflow_by(), all.similarities().len() - 3);
    let s = Language::get_similarities("(ES)", 10);
    assert_eq!(s.similarities(), &["Spanish (ES)"]);
    assert_eq!(s.overflow_by(), 0);
    let s = Language::get_similarities("no such thing", 10);
    assert!(s.similarities().is_empty());
    let s = Language::get_similarities("", 0);
    assert!(s.similarities().is_empty());
    assert_eq!(s.overflow_by(), 184);
}

#[test]
fn nesting_paths() {
    let leaf = vec![("es".to_string(), "Hola".to_string())];
    let tree = NestingType::Object(vec![(
        "a".to_string(),
        NestingType::Object(vec![("b".to_string(), NestingType::Translation(leaf.clone()))]),
    )]);
    assert_eq!(tree.get_path(vec!["a", "b"]), Some(&leaf));
    assert_eq!(tree.get_path(vec!["a"]), None);
    assert_eq!(tree.get_path(vec!["a", "c"]), None);
    assert_eq!(tree.get_path(vec!["a", "b", "c"]), None);
    assert_eq!(tree.get_path(vec![]), None);
    assert_eq!(NestingType::Translation(leaf.clone()).get_path(vec![]), Some(&leaf));
}

#[test]
fn text_helpers() {
    assert!(is_ident("_a1"));
    assert!(is_ident("Z"));
    assert!(!is_ident(""));
    assert!(!is_ident("1a"));
    assert!(!is_ident("a-b"));
    assert!(!is_ident("ñ"));
    assert_eq!(chars_of("añb"), vec!['a', 'ñ', 'b']);
    assert!(eq_ignore_ascii_case(&chars_of("AbC"), &chars_of("aBc")));
    assert!(!eq_ignore_ascii_case(&chars_of("Ñ"), &chars_of("ñ")));
    assert!(!eq_ignore_ascii_case(&chars_of("ab"), &chars_of("abc")));
    assert!(text_lt(&chars_of("a"), &chars_of("ab")));
    assert!(text_lt(&chars_of("ab"), &chars_of("b")));
    assert!(!text_lt(&chars_of("b"), &chars_of("ab")));
    assert!(!text_lt(&chars_of("a"), &chars_of("a")));
    assert!(text_lt(&chars_of(""), &chars_of("a")));
    assert!(contains_text(&chars_of("Spanish (ES)"), &chars_of("ish")));
    assert!(contains_text(&chars_of("abc"), &chars_of("")));
    assert!(contains_text(&chars_of("abc"), &chars_of("abc")));
    assert!(!contains_text(&chars_of("abc"), &chars_of("abcd")));
    assert!(!contains_text(&chars_of("abc"), &chars_of("ca")));
    assert_eq!(decimal(0), "0");
    assert_eq!(decimal(7), "7");
    assert_eq!(decimal(10), "10");
    assert_eq!(decimal(9081726354), "9081726354");
    assert_eq!(join_path(&vec![]), "");
    assert_eq!(join_path(&vec!["a".to_string()]), "a");
    assert_eq!(join_path(&vec!["a".to_string(), "b".to_string(), "".to_string()]), "a::b::");
}

#[test]
fn valid_and_invalid_tables() {
    let valid = |raw: &str| translatable::tables::translations_valid(&parse(raw).unwrap());
    assert!(valid("[a.b]\nen = \"Hi {name}\"\nes = \"{{x}}\"\n"));
    assert!(valid(""));
    assert!(valid("[a]\n"));
    assert!(!valid("[a]\nen = \"Hi {name\"\n"));
    assert!(!valid("[a]\nen = \"}{\"\n[a.b]\nen = \"x\"\n"));
    assert!(valid("[a]\nen = \"}{\"\n"));
    assert!(!valid("[a]\nxx = \"x\"\n"));
    assert!(!valid("[a]\nen = 1\n"));
    assert!(!valid("en = \"x\"\n[a]\nen = \"x\"\n"));
    assert!(!translatable::tables::translations_valid(&Document::Other { at: None }));
    assert!(translatable::tables::braces_balanced("{ñ}"));
    assert!(!translatable::tables::braces_balanced("{{ñ}"));
}

#[test]
fn language_errors_in_words() {
    let e = translatable::LanguageError::from_data("Spnish".to_string(), Some("Spanish".to_string()));
    assert_eq!(e.message(), "\"Spnish\" is not a valid language, perhaps you meant \"Spanish\"?");
    let e = translatable::LanguageError::from_data("x".to_string(), None);
    assert_eq!(e.message(), "\"x\" is not a valid language.");
}

#[test]
fn dotted_paths_in_tables() {
    assert_eq!(split_dotted("a.b.c"), vec!["a", "b", "c"]);
    assert_eq!(split_dotted(""), vec![""]);
    assert_eq!(split_dotted("a."), vec!["a", ""]);
    assert_eq!(split_dotted(".ñ."), vec!["", "ñ", ""]);
    let docs: Vec<Document> = vec![
        parse("[x.y]\nes = \"uno\"\nen = \"one\"\n").unwrap(),
        parse("[x.y]\nes = \"dos\"\n").unwrap(),
        parse("[x.z]\nes = \"tres\"\n").unwrap(),
    ];
    let load = |overlap, lang: &str, path: &str| load_translation_static(&docs, overlap, lang, path);
    assert_eq!(load(TranslationOverlap::Ignore, "es", "x.y").unwrap(), Some("uno".to_string()));
    assert_eq!(load(TranslationOverlap::Overwrite, "es", "x.y").unwrap(), Some("dos".to_string()));
    assert_eq!(load(TranslationOverlap::Overwrite, "en", "x.y").unwrap(), Some("one".to_string()));
    assert_eq!(load(TranslationOverlap::Overwrite, "es", "x.z").unwrap(), Some("tres".to_string()));
    assert_eq!(load(TranslationOverlap::Ignore, "fr", "x.y").unwrap(), None);
    assert_eq!(load(TranslationOverlap::Ignore, "es", "x").unwrap(), None);
    assert_eq!(load(TranslationOverlap::Ignore, "es", "x.y.z").unwrap(), None);
    assert_eq!(load(TranslationOverlap::Ignore, "ES", "x.y").unwrap(), None);
    let err = load(TranslationOverlap::Ignore, "spanich", "x.y").unwrap_err();
    assert_eq!(err.attempt(), "spanich");
    assert_eq!(err.closest(), Some(&"Spanish".to_string()));
}
