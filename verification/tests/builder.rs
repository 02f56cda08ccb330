use translatable::builder::TranslationTreeBuilder;
use translatable::catalog::Language;
use translatable::config::{SeekMode, TranslationOverlap};
use translatable::error::FileRelatedError;
use translatable::tree::{
    ResolutionError, TranslationNotFound, TranslationTree, TranslationTreeErrorDescription,
};

fn path(segments: &[&str]) -> Vec<String> {
    segments.iter().map(|s| s.to_string()).collect()
}

fn text_at(tree: &TranslationTree, segments: &[&str], language: Language) -> String {
    tree.find_path(&path(segments))
        .expect("path to lead to a translation")
        .get_language(&language)
        .expect("language to be available")
        .replace_with(&Vec::new())
}

fn two_sources(seek_mode: SeekMode, overlap: TranslationOverlap, swap: bool) -> TranslationTree {
    let mut builder = TranslationTreeBuilder::new();
    builder.with_seek_mode(seek_mode).with_overlap(overlap);
    let a = ("a.toml".to_string(), "en = \"from a\"\n".to_string());
    let b = ("B.toml".to_string(), "en = \"from b\"\n".to_string());
    let (first, second) = if swap { (b, a) } else { (a, b) };
    builder.with_file_source(path(&["common", "greeting"]), first.0, first.1);
    builder.with_file_source(path(&["common", "greeting"]), second.0, second.1);
    builder.build()
}

#[test]
fn later_source_wins_under_overwrite() {
    for swap in [false, true] {
        let tree = two_sources(SeekMode::Alphabetical, TranslationOverlap::Overwrite, swap);
        assert_eq!(text_at(&tree, &["common", "greeting"], Language::EN), "from b");
    }
}

#[test]
fn earlier_source_wins_under_ignore() {
    for swap in [false, true] {
        let tree = two_sources(SeekMode::Alphabetical, TranslationOverlap::Ignore, swap);
        assert_eq!(text_at(&tree, &["common", "greeting"], Language::EN), "from a");
    }
}

#[test]
fn reversed_order_turns_precedence_around() {
    for swap in [false, true] {
        let tree = two_sources(SeekMode::Unalphabetical, TranslationOverlap::Overwrite, swap);
        assert_eq!(text_at(&tree, &["common", "greeting"], Language::EN), "from a");
        let tree = two_sources(SeekMode::Unalphabetical, TranslationOverlap::Ignore, swap);
        assert_eq!(text_at(&tree, &["common", "greeting"], Language::EN), "from b");
    }
}

#[test]
fn sources_with_one_name_keep_their_order() {
    let mut builder = TranslationTreeBuilder::new();
    builder.with_raw_source(path(&["x"]), "en = \"first\"\n".to_string());
    builder.with_raw_source(path(&["x"]), "en = \"second\"\n".to_string());
    assert_eq!(text_at(&builder.build(), &["x"], Language::EN), "second");

    let mut builder = TranslationTreeBuilder::new();
    builder.with_seek_mode(SeekMode::Unalphabetical);
    builder.with_raw_source(path(&["x"]), "en = \"first\"\n".to_string());
    builder.with_raw_source(path(&["x"]), "en = \"second\"\n".to_string());
    assert_eq!(text_at(&builder.build(), &["x"], Language::EN), "first");
}

#[test]
fn scenario_two_sources_side_by_side() {
    let mut builder = TranslationTreeBuilder::new();
    builder.with_file_source(
        path(&["greetings"]),
        "a.toml".to_string(),
        "[formal]\nes = \"Hola\"\nen = \"Hello\"\n".to_string(),
    );
    builder.with_file_source(
        path(&["more"]),
        "b.toml".to_string(),
        "[informal]\nes = \"Que haces?\"\nen = \"Wyd?\"\n".to_string(),
    );
    let tree = builder.build();
    assert_eq!(text_at(&tree, &["greetings", "formal"], Language::ES), "Hola");
    assert_eq!(text_at(&tree, &["more", "informal"], Language::EN), "Wyd?");
}

#[test]
fn missing_namespaces_are_made() {
    let mut builder = TranslationTreeBuilder::new();
    builder.with_raw_source(path(&["a", "b", "c"]), "en = \"deep\"\n".to_string());
    builder.with_raw_source(path(&["a", "d"]), "en = \"side\"\n".to_string());
    builder.with_raw_source(path(&[]), "en = \"nowhere\"\n".to_string());
    let tree = builder.build();
    assert_eq!(text_at(&tree, &["a", "b", "c"], Language::EN), "deep");
    assert_eq!(text_at(&tree, &["a", "d"], Language::EN), "side");
    assert!(matches!(
        tree.find_path(&path(&["a"])),
        Err(TranslationNotFound::PathLeadsToNesting { .. })
    ));
    assert!(matches!(
        tree.find_path(&path(&[])),
        Err(TranslationNotFound::PathLeadsToNesting { .. })
    ));
}

#[test]
fn a_translation_in_the_way() {
    for (overlap, deep, top) in [
        (TranslationOverlap::Overwrite, true, false),
        (TranslationOverlap::Ignore, false, true),
    ] {
        let mut builder = TranslationTreeBuilder::new();
        builder.with_overlap(overlap);
        builder.with_file_source(path(&["a"]), "1".to_string(), "en = \"top\"\n".to_string());
        builder.with_file_source(path(&["a", "b"]), "2".to_string(), "en = \"deep\"\n".to_string());
        let tree = builder.build();
        assert_eq!(tree.find_path(&path(&["a", "b"])).is_ok(), deep);
        assert_eq!(tree.find_path(&path(&["a"])).is_ok(), top);
    }
}

#[test]
fn broken_sources_stay_in_the_tree() {
    let mut builder = TranslationTreeBuilder::new();
    builder.with_file_source(path(&["bad"]), "bad.toml".to_string(), "not toml".to_string());
    builder.with_file_source(path(&["good"]), "good.toml".to_string(), "en = \"ok\"\n".to_string());
    builder.with_error_source(
        path(&["gone"]),
        FileRelatedError::with_desc_and_path(
            TranslationTreeErrorDescription::IoError("denied".to_string()),
            Some("gone.toml".to_string()),
        ),
    );
    builder.with_tree_source(path(&["ready"]), "z".to_string(), TranslationTree::empty_translation());
    let tree = builder.build();
    assert_eq!(text_at(&tree, &["good"], Language::EN), "ok");
    match tree.find_path(&path(&["bad"])) {
        Err(TranslationNotFound::FoundErroredNode(e)) => {
            assert!(matches!(e.description(), TranslationTreeErrorDescription::TomlError(_)));
            assert_eq!(e.file_path(), Some(&"bad.toml".to_string()));
        }
        other => panic!("unexpected {:?}", other),
    }
    match tree.find_path(&path(&["gone"])) {
        Err(TranslationNotFound::FoundErroredNode(e)) => {
            assert!(matches!(
                e.description(),
                TranslationTreeErrorDescription::IoError(m) if m == "denied"
            ));
            assert!(e.at_character().is_none());
        }
        other => panic!("unexpected {:?}", other),
    }
    assert!(tree.find_path(&path(&["ready"])).unwrap().available_languages().is_empty());
}

#[test]
fn empty_builder_builds_an_empty_namespace() {
    let tree = TranslationTreeBuilder::new().build();
    assert!(matches!(&tree, TranslationTree::Nesting(children) if children.is_empty()));
}

#[test]
fn parsed_documents_are_registered_with_their_file() {
    let raw = "[x]\nen = \"ok\"\n[y]\nn = 1\n";
    let document = translatable::document::parse(raw).unwrap();
    let mut builder = TranslationTreeBuilder::new();
    builder.with_document_source(path(&["doc"]), "doc.toml".to_string(), raw, &document);
    let tree = builder.build();
    assert_eq!(text_at(&tree, &["doc", "x"], Language::EN), "ok");
    match tree.find_path(&path(&["doc", "y"])) {
        Err(TranslationNotFound::FoundErroredNode(e)) => {
            assert_eq!(e.file_path(), Some(&"doc.toml".to_string()));
            let at = e.at_character().unwrap();
            assert_eq!((at.line(), at.column()), (3, 4));
        }
        other => panic!("unexpected {:?}", other),
    }
}

#[test]
fn resolves_texts_in_one_step() {
    let mut builder = TranslationTreeBuilder::new();
    builder.with_raw_source(
        path(&["common"]),
        "[greeting]\nen = \"Hi {name}!\"\nes = \"¡Hola {name}!\"\n".to_string(),
    );
    let tree = builder.build();
    let name = vec![("name".to_string(), "Ana".to_string())];
    assert_eq!(
        tree.resolve(&path(&["common", "greeting"]), Language::ES, &name).unwrap(),
        "¡Hola Ana!"
    );
    assert!(matches!(
        tree.resolve(&path(&["common", "greeting"]), Language::FR, &name),
        Err(ResolutionError::LanguageUnavailable(Language::FR))
    ));
    assert!(matches!(
        tree.resolve(&path(&["common", "greeting", "more"]), Language::ES, &name),
        Err(ResolutionError::NotFound(TranslationNotFound::FoundEarlyTranslation { .. }))
    ));
    assert!(matches!(
        tree.resolve(&path(&["common"]), Language::ES, &name),
        Err(ResolutionError::NotFound(TranslationNotFound::PathLeadsToNesting { .. }))
    ));
    assert!(matches!(
        tree.resolve(&path(&["comon"]), Language::ES, &name),
        Err(ResolutionError::NotFound(TranslationNotFound::NotFoundInNode { .. }))
    ));
    assert_eq!(tree.closest_next_nesting("comon"), Some("common".to_string()));
    assert_eq!(TranslationTree::empty_translation().closest_next_nesting("x"), None);
}
