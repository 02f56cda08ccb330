use translatable::catalog::Language;
use translatable::document::{parse, Document};
use translatable::tree::{
    TranslationNotFound, TranslationTree, TranslationTreeErrorDescription,
};

fn text(key: &str, value: &str) -> (String, Document) {
    (key.to_string(), Document::Text { value: value.to_string(), at: None })
}

fn table(key: &str, entries: Vec<(String, Document)>) -> (String, Document) {
    (key.to_string(), Document::Table { entries, at: None })
}

fn root(entries: Vec<(String, Document)>) -> Document {
    Document::Table { entries, at: None }
}

fn path(segments: &[&str]) -> Vec<String> {
    segments.iter().map(|s| s.to_string()).collect()
}

fn greeting_tree() -> TranslationTree {
    let doc = root(vec![table(
        "common",
        vec![table("greeting", vec![text("en", "Hi {name}!"), text("es", "¡Hola {name}!")])],
    )]);
    TranslationTree::from_document(None, "", &doc)
}

fn description(tree: &TranslationTree) -> &TranslationTreeErrorDescription {
    match tree {
        TranslationTree::NestingError(e) => e.description(),
        other => panic!("expected a broken branch, found {:?}", other),
    }
}

#[test]
fn finds_a_translation() {
    let tree = greeting_tree();
    let found = tree.find_path(&path(&["common", "greeting"])).unwrap();
    assert_eq!(found.available_languages(), vec![Language::EN, Language::ES]);
    assert!(found.language_available(&Language::ES));
    assert!(!found.language_available(&Language::FR));
    assert!(found.get_language(&Language::FR).is_none());
    let template = found.get_language(&Language::ES).unwrap();
    assert_eq!(
        template.replace_with(&vec![("name".to_string(), "Amigo".to_string())]),
        "¡Hola Amigo!"
    );
}

#[test]
fn path_past_a_leaf_is_its_own_error() {
    let tree = greeting_tree();
    match tree.find_path(&path(&["common", "greeting", "extra"])) {
        Err(TranslationNotFound::FoundEarlyTranslation {
            accomplished_segments,
            attempted_segment,
        }) => {
            assert_eq!(accomplished_segments, path(&["common", "greeting"]));
            assert_eq!(attempted_segment, "extra");
        }
        other => panic!("unexpected {:?}", other),
    }
}

#[test]
fn path_to_a_namespace_is_its_own_error() {
    let tree = greeting_tree();
    match tree.find_path(&path(&["common"])) {
        Err(TranslationNotFound::PathLeadsToNesting { accomplished_segments }) => {
            assert_eq!(accomplished_segments, path(&["common"]));
        }
        other => panic!("unexpected {:?}", other),
    }
    match tree.find_path(&path(&[])) {
        Err(TranslationNotFound::PathLeadsToNesting { accomplished_segments }) => {
            assert!(accomplished_segments.is_empty());
        }
        other => panic!("unexpected {:?}", other),
    }
}

#[test]
fn missing_segment_suggests_the_closest_sibling() {
    let doc = root(vec![table(
        "common",
        vec![
            table("farewell", vec![text("en", "Bye")]),
            table("greeting", vec![text("en", "Hi")]),
        ],
    )]);
    let tree = TranslationTree::from_document(None, "", &doc);
    match tree.find_path(&path(&["common", "greting"])) {
        Err(TranslationNotFound::NotFoundInNode {
            accomplished_segments,
            attempted_segment,
            closest_next_possibility,
        }) => {
            assert_eq!(accomplished_segments, path(&["common"]));
            assert_eq!(attempted_segment, "greting");
            assert_eq!(closest_next_possibility, Some("greeting".to_string()));
        }
        other => panic!("unexpected {:?}", other),
    }
    let empty = TranslationTree::empty_nesting();
    match empty.find_path(&path(&["x"])) {
        Err(TranslationNotFound::NotFoundInNode { closest_next_possibility, .. }) => {
            assert_eq!(closest_next_possibility, None);
        }
        other => panic!("unexpected {:?}", other),
    }
}

#[test]
fn mixed_tables_are_broken_whatever_the_order() {
    let string_first = root(vec![text("en", "Hi"), table("more", vec![text("en", "x")])]);
    let tree = TranslationTree::from_document(None, "", &string_first);
    assert!(matches!(
        description(&tree),
        TranslationTreeErrorDescription::InvalidValueInNesting
    ));
    let table_first = root(vec![table("more", vec![text("en", "x")]), text("en", "Hi")]);
    let tree = TranslationTree::from_document(None, "", &table_first);
    assert!(matches!(
        description(&tree),
        TranslationTreeErrorDescription::InvalidValueInTranslation
    ));
}

#[test]
fn faults_of_a_table() {
    let tree = TranslationTree::from_document(None, "", &root(vec![]));
    assert!(matches!(description(&tree), TranslationTreeErrorDescription::EmptyTable));

    let other = root(vec![("n".to_string(), Document::Other { at: None })]);
    let tree = TranslationTree::from_document(None, "", &other);
    assert!(matches!(
        description(&tree),
        TranslationTreeErrorDescription::InvalidValueInNesting
    ));

    let tree = TranslationTree::from_document(None, "", &Document::Other { at: None });
    assert!(matches!(
        description(&tree),
        TranslationTreeErrorDescription::InvalidValueInNesting
    ));

    let tree = TranslationTree::from_document(None, "", &root(vec![text("klingon", "nuqneH")]));
    match description(&tree) {
        TranslationTreeErrorDescription::InvalidLanguageKey(e) => {
            assert_eq!(e.attempt(), "klingon");
            assert!(e.closest().is_some());
        }
        other => panic!("unexpected {:?}", other),
    }

    let tree = TranslationTree::from_document(None, "", &root(vec![text("en", "Hi {")]));
    match description(&tree) {
        TranslationTreeErrorDescription::TemplateError(e) => {
            assert_eq!(e.message(), "Found unclosed brace at index 3");
        }
        other => panic!("unexpected {:?}", other),
    }
}

#[test]
fn a_broken_branch_leaves_its_siblings() {
    let doc = root(vec![
        table("good", vec![text("en", "fine")]),
        table("bad", vec![]),
    ]);
    let tree = TranslationTree::from_document(Some("file.toml"), "", &doc);
    assert!(tree.find_path(&path(&["good"])).is_ok());
    match tree.find_path(&path(&["bad", "deeper"])) {
        Err(TranslationNotFound::FoundErroredNode(e)) => {
            assert!(matches!(e.description(), TranslationTreeErrorDescription::EmptyTable));
            assert_eq!(e.file_path(), Some(&"file.toml".to_string()));
        }
        other => panic!("unexpected {:?}", other),
    }
    assert!(tree.fallback_available(Language::EN));
    assert!(!tree.fallback_available(Language::ES));
}

#[test]
fn last_write_of_a_language_wins() {
    let doc = root(vec![text("en", "one"), text("EN", "two"), text("English", "three")]);
    let tree = TranslationTree::from_document(None, "", &doc);
    let found = tree.find_path(&path(&[])).unwrap();
    assert_eq!(found.available_languages(), vec![Language::EN]);
    assert_eq!(found.get_language(&Language::EN).unwrap().original(), "three");
}

#[test]
fn reads_toml() {
    let raw = "[greetings.formal]\nes = \"Hola\"\nen = \"Hello\"\n";
    let tree = TranslationTree::from_raw(None, raw);
    let found = tree.find_path(&path(&["greetings", "formal"])).unwrap();
    assert_eq!(found.get_language(&Language::ES).unwrap().replace_with(&Vec::new()), "Hola");
    assert_eq!(found.available_languages(), vec![Language::ES, Language::EN]);
}

#[test]
fn toml_errors_and_places() {
    let tree = TranslationTree::from_raw(Some("bad.toml"), "a = [\n");
    match &tree {
        TranslationTree::NestingError(e) => {
            assert!(matches!(e.description(), TranslationTreeErrorDescription::TomlError(_)));
            assert_eq!(e.file_path(), Some(&"bad.toml".to_string()));
            assert!(e.at_character().is_some());
        }
        other => panic!("unexpected {:?}", other),
    }

    let raw = "[a]\nen = \"ok\"\n[b]\nen = \"x\"\nn = 3\n";
    let tree = TranslationTree::from_raw(None, raw);
    match tree.find_path(&path(&["b"])) {
        Err(TranslationNotFound::FoundErroredNode(e)) => {
            assert!(matches!(
                e.description(),
                TranslationTreeErrorDescription::InvalidValueInNesting
            ));
            let at = e.at_character().unwrap();
            assert_eq!((at.line(), at.column()), (4, 4));
        }
        other => panic!("unexpected {:?}", other),
    }
    assert!(tree.find_path(&path(&["a"])).is_ok());

    let inline = TranslationTree::from_raw(None, "a = { en = \"x\" }\n");
    assert!(matches!(
        description(&inline),
        TranslationTreeErrorDescription::InvalidValueInNesting
    ));
}

#[test]
fn parse_gives_the_document() {
    match parse("k = \"v\"\n[t]\nx = 1\n").unwrap() {
        Document::Table { entries, .. } => {
            assert_eq!(entries.len(), 2);
            assert_eq!(entries[0].0, "k");
            assert!(matches!(&entries[0].1, Document::Text { value, at: Some(4) } if value == "v"));
            assert_eq!(entries[1].0, "t");
            match &entries[1].1 {
                Document::Table { entries, .. } => {
                    assert!(matches!(entries[0].1, Document::Other { at: Some(16) }));
                }
                other => panic!("unexpected {:?}", other),
            }
        }
        other => panic!("unexpected {:?}", other),
    }
    let failure = parse("= 1").unwrap_err();
    assert!(!failure.message.is_empty());
}

#[test]
fn unreadable_file_is_a_broken_branch() {
    let tree = TranslationTree::unreadable("gone.toml", "No such file".to_string());
    match &tree {
        TranslationTree::NestingError(e) => {
            assert!(matches!(
                e.description(),
                TranslationTreeErrorDescription::IoError(m) if m == "No such file"
            ));
            assert_eq!(e.file_path(), Some(&"gone.toml".to_string()));
            assert!(e.at_character().is_none());
        }
        other => panic!("unexpected {:?}", other),
    }
}
