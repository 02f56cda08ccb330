use translatable::catalog::Language;
use translatable::document::parse;
use translatable::node::{TranslationNode, TranslationNodeCollection, TranslationNodeError};
use translatable::runtime::{context_translation, translation, ContextError, RuntimeError};

const COMMON: &str = r#"
[common.greeting]
en = "Hi {name}!"
es = "¡Hola {name}!"
"#;

const FULL_NAME: &str = r#"
[common.greeting]
es = "Â¡Hola {name} {surname}! Mi nombre es {name} {surname} {{hola}}"
"#;

const GREETINGS: &str = r#"
[greetings.formal]
es = "Bueno conocerte."
en = "Nice to meet you."

[greetings.informal]
es = "Hey {user}, todo bien?"
en = "What's good {user}?"
"#;

const FILE_1: &str = r#"
[greetings.formal]
es = "Hola"
en = "Hello"
"#;

const FILE_2: &str = r#"
[greetings.informal]
es = "Que haces?"
en = "Wyd?"
"#;

const NAME: &str = "John";
const SURNAME: &str = "Doe";
const RESULT: &str = "Â¡Hola John Doe! Mi nombre es John Doe {{hola}}";

fn node(raw: &str) -> TranslationNode {
    TranslationNode::from_document(&parse(raw).expect("TOML to be parsed correctly."))
        .expect("TOML to follow the translation rules.")
}

fn collection(files: &[(&str, &str)]) -> TranslationNodeCollection {
    TranslationNodeCollection::new(
        files.iter().map(|(name, raw)| (name.to_string(), node(raw))).collect(),
    )
}

fn path(segments: &[&str]) -> Vec<String> {
    segments.iter().map(|s| s.to_string()).collect()
}

fn values(list: &[(&str, &str)]) -> Vec<(String, String)> {
    list.iter().map(|(k, v)| (k.to_string(), v.to_string())).collect()
}

#[test]
fn test_both_dynamic() {
    let lang = Language::EN;
    let path = path(&["common", "greeting"]);

    let result = translation(
        &collection(&[("common.toml", COMMON)]),
        lang,
        &path,
        &values(&[("name", "Everyone")]),
    );
    assert_eq!(result.unwrap(), "Hi Everyone!");
}

#[test]
fn test_static_lang_dynamic_path() {
    let path = path(&["common", "greeting"]);
    let result = translation(
        &collection(&[("common.toml", COMMON)]),
        Language::from_str("en").unwrap(),
        &path,
        &values(&[("name", "Friend")]),
    );
    assert_eq!(result.unwrap(), "Hi Friend!");
}

#[test]
fn test_dynamic_lang_static_path() {
    let lang = Language::ES;
    let result = translation(
        &collection(&[("common.toml", COMMON)]),
        lang,
        &path(&["common", "greeting"]),
        &values(&[("name", "Amigo")]),
    );
    assert_eq!(result.unwrap(), "¡Hola Amigo!");
}

#[test]
fn language_static_path_dynamic() {
    let result = translation(
        &collection(&[("test.toml", FULL_NAME)]),
        Language::from_str("es").unwrap(),
        &path(&["common", "greeting"]),
        &values(&[("name", NAME), ("surname", SURNAME)]),
    );
    assert!(result.unwrap() == RESULT);
}

#[test]
fn both_dynamic() {
    let result = translation(
        &collection(&[("test.toml", FULL_NAME)]),
        Language::ES,
        &path(&["common", "greeting"]),
        &values(&[("name", NAME), ("surname", SURNAME)]),
    );
    assert!(result.unwrap() == RESULT)
}

#[test]
pub fn pass_dynamic_expr_pass_dynamic_expr() {
    let files = collection(&[(
        "greetings.toml",
        "[greetings.formal]\nes = \"Bueno conocerte.\"\nen = \"Nice to meet you.\"\n",
    )]);
    let translation = translation(
        &files,
        Language::from_str("es").unwrap(),
        &"greetings.formal".split(".").map(|s| s.to_string()).collect(),
        &Vec::new(),
    )
    .expect("Expected translation generation to be OK");

    assert_eq!(translation, "Bueno conocerte.");
}

#[test]
pub fn loads_and_finds_collection() {
    let collection = collection(&[("a", FILE_1), ("b", FILE_2)]);

    let translation = collection
        .find_path(&"greetings.formal".split(".").map(|s| s.to_string()).collect())
        .expect("Translation to be found.")
        .get_language(&Language::ES)
        .expect("Language to be available.")
        .replace_with(&Vec::new());

    assert_eq!(translation, "Hola");
}

#[test]
pub fn runtime_error_outputs() {
    assert_eq!(
        RuntimeError::PathNotFound("path::to::translation".into()).cause(),
        "The path 'path::to::translation' could not be found"
    );

    assert_eq!(
        RuntimeError::LanguageNotAvailable(Language::ES, "path::to::translation".into()).cause(),
        "The language 'ES' ('Spanish') is not available for the path 'path::to::translation'"
    )
}

#[test]
fn errors_of_a_lookup() {
    let files = collection(&[("a", FILE_1), ("b", FILE_2)]);
    match translation(&files, Language::ES, &path(&["greetings", "casual"]), &Vec::new()) {
        Err(RuntimeError::PathNotFound(p)) => assert_eq!(p, "greetings::casual"),
        other => panic!("unexpected {:?}", other),
    }
    match translation(&files, Language::FR, &path(&["greetings", "informal"]), &Vec::new()) {
        Err(RuntimeError::LanguageNotAvailable(l, p)) => {
            assert_eq!(l, Language::FR);
            assert_eq!(p, "greetings::informal");
        }
        other => panic!("unexpected {:?}", other),
    }
    assert_eq!(
        translation(&files, Language::EN, &path(&["greetings", "informal"]), &Vec::new()).unwrap(),
        "Wyd?"
    );
    assert!(files.get_node("b").is_some());
    assert!(files.get_node("c").is_none());
    assert!(files.get_node("a").unwrap().find_path(&path(&["greetings", "informal"])).is_none());
}

#[test]
fn node_errors_and_their_messages() {
    let from = |raw: &str| TranslationNode::from_document(&parse(raw).unwrap()).unwrap_err();
    let mixed = from("en = \"x\"\n[more]\nen = \"y\"\n");
    assert!(matches!(mixed, TranslationNodeError::MixedValues));
    assert_eq!(
        RuntimeError::TranslationNode(mixed).cause(),
        "Mixed values are not allowed, a nesting can't contain strings and objects at the same time"
    );
    let mixed = from("[a.b]\nen = \"y\"\n[a]\nen = \"x\"\n");
    assert!(matches!(mixed, TranslationNodeError::MixedValues));
    assert_eq!(from("").message(), "A translation file cannot be empty");
    assert_eq!(
        from("[a]\nn = 1\n").message(),
        "A nesting can only contain translation objects or other nestings"
    );
    assert_eq!(
        from("[a]\nxx = \"y\"\n").message(),
        "Couldn't parse ISO 639-1 string for translation key"
    );
    assert_eq!(
        from("[a]\nen = \"0123456789 {\"\n").message(),
        "Template validation failed: Found unclosed brace at index 11"
    );
    assert_eq!(
        from("[a]\nen = \"{a b}\"\n").message(),
        "Template validation failed: Found template with key 'a b' which is an invalid identifier"
    );
}

fn load_context(
    fallback: Option<Language>,
    language: Language,
    user: Option<&str>,
) -> Result<(String, String), ContextError> {
    let files = collection(&[("greetings.toml", GREETINGS)]);
    let replacements = match user {
        Some(user) => values(&[("user", user)]),
        None => Vec::new(),
    };
    let formal = context_translation(
        &files,
        &path(&["greetings"]),
        &path(&["formal"]),
        fallback,
        language,
        &replacements,
    )?;
    let informal = context_translation(
        &files,
        &path(&["greetings"]),
        &path(&["informal"]),
        fallback,
        language,
        &replacements,
    )?;
    Ok((formal, informal))
}

#[test]
fn test() {
    let (formal, informal) = load_context(Some(Language::ES), Language::AA, Some("John")).unwrap();

    assert_eq!(informal, "Hey John, todo bien?");
    assert_eq!(formal, "Bueno conocerte.")
}

#[test]
fn pass_fallback_catch() {
    let (formal, informal) = load_context(Some(Language::EN), Language::AA, Some("John")).unwrap();

    assert_eq!(formal, "Nice to meet you.");
    assert_eq!(informal, "What's good John?");
}

#[test]
fn pass_invalid_runtime_language() {
    let translations = load_context(None, Language::AA, None);

    assert!(translations.is_err());
}

#[test]
fn context_errors() {
    let files = collection(&[("greetings.toml", GREETINGS)]);
    let fill = |field: &str, fallback, language| {
        context_translation(&files, &path(&["greetings"]), &path(&[field]), fallback, language, &Vec::new())
    };
    assert_eq!(fill("formal", None, Language::EN).unwrap(), "Nice to meet you.");
    assert_eq!(fill("formal", Some(Language::ES), Language::EN).unwrap(), "Nice to meet you.");
    match fill("formal", Some(Language::FR), Language::EN) {
        Err(e @ ContextError::FallbackNotAvailable) => assert_eq!(
            e.message(),
            "One of the translations doesn't have the fallback language available"
        ),
        other => panic!("unexpected {:?}", other),
    }
    match fill("casual", Some(Language::ES), Language::EN) {
        Err(e @ ContextError::TranslationNotFound(_)) => assert_eq!(
            e.message(),
            "A translation with the path 'greetings::casual' could not be found"
        ),
        other => panic!("unexpected {:?}", other),
    }
    match fill("formal", None, Language::AA) {
        Err(e @ ContextError::LanguageNotAvailable(..)) => assert_eq!(
            e.message(),
            "The language 'AA' ('Afar') is not available for the path 'greetings::formal'"
        ),
        other => panic!("unexpected {:?}", other),
    }
}

const AUDITORY: &str = r#"
[auditory.actions.delete_user]
es = "{author} ha borrado al usuario {target}."
en = "{author} deleted the user {target}."
"#;

fn greetings(language: Language, field: &str, replacements: &[(&str, &str)]) -> Result<String, RuntimeError> {
    translation(
        &collection(&[("auditory.toml", AUDITORY), ("greetings.toml", GREETINGS)]),
        language,
        &path(&["greetings", field]),
        &values(replacements),
    )
}

#[test]
fn test_template_replacements() {
    let result = translation(
        &collection(&[("common.toml", COMMON)]),
        "es".parse().unwrap(),
        &path(&["common", "greeting"]),
        &values(&[("name", "Carlos")]),
    );
    assert_eq!(result.unwrap(), "¡Hola Carlos!");
}

#[test]
fn test_static_lang_static_path() {
    let result = translation(
        &collection(&[("common.toml", COMMON)]),
        "en".parse().unwrap(),
        &path(&["common", "greeting"]),
        &values(&[("name", "Rustacean")]),
    );
    assert_eq!(result.unwrap(), "Hi Rustacean!");
}

#[test]
fn both_static() {
    let result = translation(
        &collection(&[("test.toml", FULL_NAME)]),
        "es".parse().unwrap(),
        &path(&["common", "greeting"]),
        &values(&[("name", NAME), ("surname", SURNAME)]),
    );
    assert!(result.unwrap() == RESULT);
}

#[test]
fn language_dynamic_path_static() {
    let name = NAME;
    let surname = SURNAME;

    let result = translation(
        &collection(&[("test.toml", FULL_NAME)]),
        Language::ES,
        &path(&["common", "greeting"]),
        &values(&[("name", name), ("surname", surname)]),
    );
    assert!(result.unwrap() == RESULT);
}

#[test]
pub fn pass_dynamic_enum() {
    let translation = greetings(Language::ES, "formal", &[])
        .expect("Expected translation generation to be OK");

    assert_eq!(translation, "Bueno conocerte.");
}

#[test]
fn pass_static_lowercase() {
    let translation = greetings("es".parse().unwrap(), "formal", &[]).unwrap();

    assert_eq!(translation, "Bueno conocerte.");
}

#[test]
pub fn pass_static_uppercase() {
    let translation = greetings("ES".parse().unwrap(), "formal", &[]).unwrap();

    assert_eq!(translation, "Bueno conocerte.");
}

#[test]
pub fn pass_static_existing() {
    let translation = greetings("es".parse().unwrap(), "formal", &[]).unwrap();

    assert_eq!(translation, "Bueno conocerte.");
}

#[test]
pub fn pass_ident_ref_pass_dynamic_expr() {
    let user = "Juan";
    let translation = greetings("es".parse().unwrap(), "informal", &[("user", user)]).unwrap();

    assert_eq!(translation, "Hey Juan, todo bien?");
}

#[test]
pub fn pass_trailing_comma_pass_dynamic_expr() {
    let author = "Juan";
    let target = "Pepito";
    let translation = translation(
        &collection(&[("auditory.toml", AUDITORY), ("greetings.toml", GREETINGS)]),
        "es".parse().unwrap(),
        &path(&["auditory", "actions", "delete_user"]),
        &values(&[("author", author), ("target", target)]),
    )
    .unwrap();

    assert_eq!(translation, "Juan ha borrado al usuario Pepito.");
}

#[test]
fn pass_without_params() {
    let files = collection(&[("greetings.toml", GREETINGS)]);

    assert!(files.find_path(&path(&["greetings", "formal"])).is_some());
    assert!(files.find_path(&path(&["greetings", "informal"])).is_some());
}
