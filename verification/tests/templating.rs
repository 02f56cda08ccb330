use translatable::format::FormatString;
use translatable::template::{TemplateParseError, TemplatedString};

fn values(list: &[(&str, &str)]) -> Vec<(String, String)> {
    list.iter().map(|(k, v)| (k.to_string(), v.to_string())).collect()
}

#[test]
pub fn does_not_replace_not_found() {
    let result = FormatString::from_str("Hello {name}")
        .expect("Format string to be valid.")
        .replace_with(Vec::new());

    assert_eq!(result, "Hello {name}");
}

#[test]
pub fn replaces_single_template() {
    let result = FormatString::from_str("Hello {name}")
        .expect("Format string to be valid.")
        .replace_with(values(&[("name", "Josh")]));

    assert_eq!(result, "Hello Josh");
}

#[test]
pub fn replaces_multiple_templates() {
    let result = FormatString::from_str("Hello {name} how are you doing {day}?")
        .expect("Format string to be valid.")
        .replace_with(values(&[("name", "Josh"), ("day", "today")]));

    assert_eq!(result, "Hello Josh how are you doing today?");
}

#[test]
pub fn replaces_mix_found_not_found() {
    let result = FormatString::from_str("Hello {name} how are you doing {day}?")
        .expect("Format string to be valid.")
        .replace_with(values(&[("name", "Josh")]));

    assert_eq!(result, "Hello Josh how are you doing {day}?");
}

#[test]
pub fn fails_unclosed_template() {
    let result = FormatString::from_str("Hello {");

    assert!(result.is_err());
}

#[test]
pub fn escapes_templates() {
    let result = FormatString::from_str("You write escaped templates like {{ this }}.")
        .expect("Format string to be valid.")
        .replace_with(values(&[("this", "not replaced")]));

    assert_eq!(result, "You write escaped templates like {{ this }}.")
}

#[test]
fn unclosed_brace_names_its_offset() {
    assert_eq!(
        TemplatedString::from_str("Hello {").unwrap_err(),
        TemplateParseError::Unclosed(6)
    );
    assert_eq!(
        TemplatedString::from_str("áé {").unwrap_err(),
        TemplateParseError::Unclosed(5)
    );
}

#[test]
fn invalid_key_is_named() {
    assert_eq!(
        TemplatedString::from_str("a {1x} b").unwrap_err(),
        TemplateParseError::InvalidIdent("1x".to_string())
    );
    assert_eq!(
        TemplatedString::from_str("a {} b").unwrap_err(),
        TemplateParseError::InvalidIdent(String::new())
    );
    assert_eq!(
        TemplatedString::from_str("{ñ}").unwrap_err(),
        TemplateParseError::InvalidIdent("ñ".to_string())
    );
}

#[test]
fn spans_are_byte_ranges() {
    let t = TemplatedString::from_str("ñandú {bird} y {_b2}").unwrap();
    assert_eq!(t.span_count(), 2);
    assert_eq!(t.span(0), ("bird", 8, 14));
    assert_eq!(t.span(1), ("_b2", 17, 22));
    assert_eq!(t.original(), "ñandú {bird} y {_b2}");
    assert_eq!(
        t.replace_with(&values(&[("bird", "🦤"), ("_b2", "")])),
        "ñandú 🦤 y "
    );
}

#[test]
fn same_key_twice_is_replaced_twice() {
    let t = TemplatedString::from_str("{a}-{a}-{b}").unwrap();
    assert_eq!(t.replace_with(&values(&[("a", "xyz")])), "xyz-xyz-{b}");
    assert_eq!(t.replace_with(&values(&[("b", "")])), "{a}-{a}-");
}

#[test]
fn first_value_of_a_key_is_used() {
    let t = TemplatedString::from_str("{a}").unwrap();
    assert_eq!(t.replace_with(&values(&[("a", "1"), ("a", "2")])), "1");
}

#[test]
fn empty_values_give_the_text_back() {
    for raw in ["", "plain", "{{x}}", "{a}{b}", "} stray", "{{{a}}}", "día {d}"] {
        let t = TemplatedString::from_str(raw).unwrap();
        assert_eq!(t.replace_with(&Vec::new()), raw);
    }
}

#[test]
fn brace_after_pending_brace_restarts() {
    let t = TemplatedString::from_str("{a {b}").unwrap();
    assert_eq!(t.span_count(), 1);
    assert_eq!(t.span(0), ("b", 3, 6));
    let t = TemplatedString::from_str("{{{name}}}").unwrap();
    assert_eq!(t.span(0), ("name", 2, 8));
    assert_eq!(t.replace_with(&values(&[("name", "N")])), "{{N}}");
}

#[test]
fn new_takes_spans_in_any_order() {
    let t = TemplatedString::new(
        "{a} and {b}",
        vec![("b".to_string(), 8..11), ("a".to_string(), 0..3)],
    );
    assert_eq!(t.replace_with(&values(&[("a", "1"), ("b", "22")])), "1 and 22");
    let f = FormatString::from_data("{a}", vec![("a".to_string(), 0..3)]);
    assert_eq!(f.replace_with(values(&[("a", "long value")])), "long value");
}

#[test]
fn placeholders_must_fit_the_text() {
    let spans = |list: &[(&str, usize, usize)]| -> Vec<(String, std::ops::Range<usize>)> {
        list.iter().map(|(k, a, b)| (k.to_string(), *a..*b)).collect()
    };
    assert!(TemplatedString::try_new("{a} {b}", spans(&[("b", 4, 7), ("a", 0, 3)])).is_some());
    assert!(TemplatedString::try_new("abc", spans(&[("x", 1, 1)])).is_some());
    assert!(TemplatedString::try_new("abc", spans(&[])).is_some());
    assert!(TemplatedString::try_new("abc", spans(&[("x", 2, 4)])).is_none());
    assert!(TemplatedString::try_new("abc", spans(&[("x", 2, 1)])).is_none());
    assert!(TemplatedString::try_new("abcd", spans(&[("x", 0, 2), ("y", 1, 3)])).is_none());
    assert!(TemplatedString::try_new("ñ", spans(&[("x", 0, 1)])).is_none());
    assert!(TemplatedString::try_new("ñ", spans(&[("x", 0, 2)])).is_some());
    let t = TemplatedString::try_new("abc", spans(&[("x", 1, 1)])).unwrap();
    assert_eq!(t.replace_with(&values(&[("x", "-")])), "a-bc");
}
