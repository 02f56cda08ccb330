use std::ops::Range;

use translatable::catalog::Language;
use translatable::location::FileLocation;
use translatable::runtime::{decimal, join_path};
use translatable::tables::{braces_balanced, split_dotted};
use translatable::template::{TemplateParseError, TemplatedString};
use translatable::text::{
    chars_of, closest_to, contains_text, eq_ignore_ascii_case, is_ident, text_lt,
};

struct Source(u64);

impl Source {
    fn next(&mut self) -> u64 {
        self.0 = self.0.wrapping_mul(6364136223846793005).wrapping_add(1442695040888963407);
        self.0 >> 33
    }

    fn text(&mut self, alphabet: &[char], max_len: u64) -> String {
        let len = self.next() % (max_len + 1);
        (0..len).map(|_| alphabet[(self.next() % alphabet.len() as u64) as usize]).collect()
    }
}

const BRACES: &[char] = &['{', '}', 'a', '_', '1', ' ', 'ñ', '€'];
const LINES: &[char] = &['a', '\n', '\r', 'ñ', ' '];
const WORDS: &[char] = &['a', 'b', 'A', 'B', '.', 'ñ', 'Ñ', 'é'];

fn scan_by_characters(s: &str) -> Result<Vec<(String, Range<usize>)>, TemplateParseError> {
    let chars: Vec<(usize, char)> = s.char_indices().collect();
    let mut spans = Vec::new();
    let mut pending: Option<usize> = None;

    for (position, (offset, c)) in chars.iter().enumerate() {
        match (c, pending) {
            ('{', Some(open)) if open + 1 == position => pending = None,
            ('{', _) => pending = Some(position),
            ('}', Some(open)) => {
                let key: String = chars[open + 1..position].iter().map(|(_, c)| *c).collect();
                let mut key_chars = key.chars();
                let starts = matches!(key_chars.next(), Some(first) if first == '_' || first.is_ascii_alphabetic());
                if !(starts && key_chars.all(|c| c == '_' || c.is_ascii_alphanumeric())) {
                    return Err(TemplateParseError::InvalidIdent(key));
                }
                spans.push((key, chars[open].0..offset + 1));
                pending = None;
            }
            _ => {}
        }
    }

    match pending {
        Some(open) => Err(TemplateParseError::Unclosed(chars[open].0)),
        None => Ok(spans),
    }
}

fn splice(original: &str, spans: &[(String, Range<usize>)], values: &[(String, String)]) -> String {
    let mut result = original.to_string();
    let mut spans = spans.to_vec();
    spans.sort_by_key(|(_, range)| range.start);
    let mut offset = 0isize;

    for (key, range) in spans {
        if let Some((_, value)) = values.iter().find(|(k, _)| *k == key) {
            let start = (range.start as isize + offset) as usize;
            let end = (range.end as isize + offset) as usize;
            result.replace_range(start..end, value);
            offset += value.len() as isize - (range.end - range.start) as isize;
        }
    }

    result
}

#[test]
fn templates_agree_with_a_scan_by_characters() {
    let mut source = Source(1);
    let values = vec![
        ("a".to_string(), "<long value {a}>".to_string()),
        ("_".to_string(), String::new()),
        ("a1".to_string(), "ñ".to_string()),
    ];
    let mut parsed = 0;
    for _ in 0..4000 {
        let raw = source.text(BRACES, 12);
        match (TemplatedString::from_str(&raw), scan_by_characters(&raw)) {
            (Ok(template), Ok(spans)) => {
                parsed += 1;
                assert_eq!(template.span_count(), spans.len(), "{raw:?}");
                for (i, (key, range)) in spans.iter().enumerate() {
                    assert_eq!(template.span(i), (key.as_str(), range.start, range.end), "{raw:?}");
                }
                assert_eq!(template.replace_with(&values), splice(&raw, &spans, &values), "{raw:?}");
                assert_eq!(template.replace_with(&Vec::new()), raw);
                assert_eq!(template.clone(), template);
                let again = TemplatedString::try_new(&raw, spans.iter().rev().cloned().collect());
                assert_eq!(again.unwrap().replace_with(&values), template.replace_with(&values));
            }
            (Err(ours), Err(theirs)) => assert_eq!(ours, theirs, "{raw:?}"),
            (ours, theirs) => panic!("{raw:?}: {ours:?} against {theirs:?}"),
        }
    }
    assert!(parsed > 500);
}

#[test]
fn locations_agree_with_lines() {
    fn by_lines(text: &str, index: usize) -> Option<(usize, usize)> {
        if index >= text.len() {
            return None;
        }

        text.lines()
            .enumerate()
            .fold((0, None), |(offset, result), (line_num, line)| {
                if result.is_some() {
                    return (offset, result);
                }

                let line_len = line.len() + 1;
                if index < offset + line_len {
                    (offset, Some((line_num, index - offset)))
                } else {
                    (offset + line_len, None)
                }
            })
            .1
    }

    let mut source = Source(2);
    for _ in 0..2000 {
        let text = source.text(LINES, 14);
        for index in 0..text.len() + 2 {
            assert_eq!(
                FileLocation::from_byte_index(&text, index).map(|l| (l.line(), l.column())),
                by_lines(&text, index),
                "{text:?} at {index}"
            );
        }
    }
}

#[test]
fn text_helpers_agree_with_std() {
    let mut source = Source(3);
    for _ in 0..4000 {
        let a = source.text(WORDS, 6);
        let b = source.text(WORDS, 6);
        let (ca, cb) = (chars_of(&a), chars_of(&b));
        assert_eq!(ca, a.chars().collect::<Vec<_>>());
        assert_eq!(eq_ignore_ascii_case(&ca, &cb), a.eq_ignore_ascii_case(&b), "{a:?} {b:?}");
        assert_eq!(text_lt(&ca, &cb), a < b, "{a:?} {b:?}");
        assert_eq!(contains_text(&ca, &cb), a.contains(&b), "{a:?} {b:?}");
        assert_eq!(split_dotted(&a), a.split('.').collect::<Vec<_>>());
        let ident = source.text(BRACES, 4);
        let mut chars = ident.chars();
        let expected = matches!(chars.next(), Some(c) if c == '_' || c.is_ascii_alphabetic())
            && chars.all(|c| c == '_' || c.is_ascii_alphanumeric());
        assert_eq!(is_ident(&ident), expected, "{ident:?}");
        let braces = source.text(BRACES, 10);
        let balance = braces.chars().fold(0i32, |acc, c| match c {
            '{' => acc + 1,
            '}' => acc - 1,
            _ => acc,
        });
        assert_eq!(braces_balanced(&braces), balance == 0, "{braces:?}");
        let n = source.next() as usize;
        assert_eq!(decimal(n), n.to_string());
        let segments: Vec<String> = a.split('.').map(|s| s.to_string()).collect();
        assert_eq!(join_path(&segments), segments.join("::"));
    }
    assert_eq!(decimal(usize::MAX), usize::MAX.to_string());
}

#[test]
fn closest_is_the_first_of_the_nearest() {
    let mut source = Source(4);
    for _ in 0..500 {
        let attempt = source.text(WORDS, 5);
        let count = source.next() % 6;
        let candidates: Vec<String> = (0..count).map(|_| source.text(WORDS, 5)).collect();
        let expected = candidates
            .iter()
            .min_by_key(|candidate| edit_distance::edit_distance(&attempt, candidate))
            .cloned();
        assert_eq!(closest_to(&attempt, &candidates), expected);
    }
    assert_eq!(closest_to("kitten", &vec!["sitting".to_string()]), Some("sitting".to_string()));
    assert_eq!(edit_distance::edit_distance("kitten", "sitting"), 3);
}

#[test]
fn every_spelling_names_its_language() {
    let all = Language::all();
    for language in &all {
        for ident in language.possible_idents() {
            let expected = all
                .iter()
                .find(|l| l.possible_idents().iter().any(|i| i.eq_ignore_ascii_case(&ident)))
                .copied();
            assert_eq!(Language::from_str(&ident).ok(), expected, "{ident}");
            assert_eq!(Language::from_str(&ident.to_ascii_uppercase()).ok(), expected);
            assert_eq!(Language::from_str(&ident.to_ascii_lowercase()).ok(), expected);
        }
        assert_eq!(Language::from_str(language.code()).unwrap(), *language);
        assert_eq!(Language::from_str(language.tag()).unwrap(), *language);
    }
}
