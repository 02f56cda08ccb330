use translatable::catalog::Language;
use translatable::language::load_lang_static;

#[test]
pub fn language_enum_parsing_case_insensitive() {
    let language_lower = "es".parse::<Language>();
    let language_upper = "ES".parse::<Language>();

    assert!(language_lower.is_ok());
    assert!(language_upper.is_ok());
}

#[test]
pub fn display_matches() {
    assert_eq!(Language::ES.display(), "Spanish");
}

#[test]
pub fn pass_dynamic_invalid_runtime_pass_dynamic_invalid_runtime() {
    let language = "invalid".parse::<Language>();

    assert!(language.is_err());
}

#[test]
fn parses_codes_names_and_alternatives() {
    assert_eq!(Language::from_str("es").unwrap(), Language::ES);
    assert_eq!(Language::from_str("Spanish").unwrap(), Language::ES);
    assert_eq!(Language::from_str("sPaNiSh").unwrap(), Language::ES);
    assert_eq!(Language::from_str("Español").unwrap(), Language::ES);
    assert_eq!(Language::from_str("ESPAñOL").unwrap(), Language::ES);
    assert!(Language::from_str("ESPAÑOL").is_err());
    assert_eq!(Language::from_str("Русский").unwrap(), Language::RU);
    assert!(Language::from_str("русский").is_err());
    assert_eq!(Language::from_str("Zu").unwrap(), Language::ZU);
    assert_eq!(load_lang_static("en").unwrap(), Language::EN);
    assert!(load_lang_static("e").is_err());
    assert!(Language::from_str("").is_err());
}

#[test]
fn suggests_the_closest_spelling() {
    let err = Language::from_str("Spnish").unwrap_err();
    assert_eq!(err.attempt(), "Spnish");
    assert_eq!(err.closest(), Some(&"Spanish".to_string()));

    let err = Language::from_str("Frenc").unwrap_err();
    assert_eq!(err.closest(), Some(&"French".to_string()));

    assert_eq!(Language::close_to("Germn"), Some("German".to_string()));
    assert_eq!(Language::close_to("zz"), Some("az".to_string()));
}

#[test]
fn catalog_lists_every_language_once() {
    let all = Language::all();
    assert_eq!(all.len(), 184);
    assert_eq!(all[0], Language::AA);
    assert_eq!(all[183], Language::ZU);
    for (i, a) in all.iter().enumerate() {
        for b in all.iter().skip(i + 1) {
            assert_ne!(a, b);
            assert_ne!(a.code(), b.code());
        }
        assert_eq!(a.code().len(), 2);
        assert_eq!(a.tag(), a.code().to_uppercase());
        assert_eq!(format!("{:?}", a), a.tag());
    }
}

#[test]
fn idents_are_alternatives_name_and_code() {
    assert_eq!(Language::ES.possible_idents(), vec!["Español", "Spanish", "es"]);
    assert_eq!(Language::EN.possible_idents(), vec!["English", "en"]);
    assert_eq!(Language::AV.alternatives(), vec!["авар мацӀ", "магӀарул мацӀ"]);
    assert_eq!(Language::AF.alternatives(), Vec::<&str>::new());
    assert_eq!(Language::ES.name(), "Spanish");
    assert_eq!(Language::ES.code(), "es");
}
