//! Looking a translation up and filling it in one step, and the errors of
//! that step with their messages.

use crate::catalog::Language;
use crate::node::{found_in, NodeFault, TranslationNodeCollection, TranslationNodeError};
use crate::template::{pairs, render, TemplateFault, TemplateParseError};
use crate::text::{push_all, texts};
use crate::tree::{template_for, TreeModel};
use vstd::prelude::*;
use vstd::string::*;

verus! {

/// Why a translation could not be had.
#[derive(Debug)]
pub enum RuntimeError {
    /// A source is no translation node.
    TranslationNode(TranslationNodeError),
    /// The path leads to no translation. The text is the path, its segments
    /// joined by `::`.
    PathNotFound(String),
    /// The translation at the path has no template for the language.
    LanguageNotAvailable(Language, String),
}

/// Why a translation could not be had, as a mathematical value.
pub ghost enum RuntimeFault {
    TranslationNode(NodeFault),
    PathNotFound(Seq<char>),
    LanguageNotAvailable(Language, Seq<char>),
}

impl View for RuntimeError {
    type V = RuntimeFault;

    open spec fn view(&self) -> RuntimeFault {
        match self {
            RuntimeError::TranslationNode(e) => RuntimeFault::TranslationNode(e@),
            RuntimeError::PathNotFound(p) => RuntimeFault::PathNotFound(p@),
            RuntimeError::LanguageNotAvailable(l, p) => RuntimeFault::LanguageNotAvailable(*l, p@),
        }
    }
}

/// The character of a decimal digit.
pub open spec fn digit_char(d: nat) -> char {
    if d == 0 {
        '0'
    } else if d == 1 {
        '1'
    } else if d == 2 {
        '2'
    } else if d == 3 {
        '3'
    } else if d == 4 {
        '4'
    } else if d == 5 {
        '5'
    } else if d == 6 {
        '6'
    } else if d == 7 {
        '7'
    } else if d == 8 {
        '8'
    } else {
        '9'
    }
}

/// A number written in decimal digits.
pub open spec fn decimal_text(n: nat) -> Seq<char>
    decreases n,
{
    if n < 10 {
        seq![digit_char(n)]
    } else {
        decimal_text(n / 10).push(digit_char(n % 10))
    }
}

/// The segments joined, with `::` between each two.
pub open spec fn joined(segments: Seq<Seq<char>>) -> Seq<char>
    decreases segments.len(),
{
    if segments.len() == 0 {
        Seq::empty()
    } else if segments.len() == 1 {
        segments[0]
    } else {
        joined(segments.drop_last()) + seq![':', ':'] + segments.last()
    }
}

/// The message of a template fault.
pub open spec fn template_message(fault: TemplateFault) -> Seq<char> {
    match fault {
        TemplateFault::Unclosed(at) => "Found unclosed brace at index "@ + decimal_text(at as nat),
        TemplateFault::InvalidIdent(key) => "Found template with key '"@ + key
            + "' which is an invalid identifier"@,
    }
}

/// The message of a node fault.
pub open spec fn node_message(fault: NodeFault) -> Seq<char> {
    match fault {
        NodeFault::InvalidNesting => {
            "A nesting can only contain translation objects or other nestings"@
        },
        NodeFault::TemplateValidation(e) => "Template validation failed: "@ + template_message(e),
        NodeFault::MixedValues => {
            "Mixed values are not allowed, a nesting can't contain strings and objects at the same time"@
        },
        NodeFault::LanguageParsing(_) => "Couldn't parse ISO 639-1 string for translation key"@,
        NodeFault::EmptyTable => "A translation file cannot be empty"@,
    }
}

/// The message of a runtime fault.
pub open spec fn cause_text(fault: RuntimeFault) -> Seq<char> {
    match fault {
        RuntimeFault::TranslationNode(e) => node_message(e),
        RuntimeFault::PathNotFound(p) => "The path '"@ + p + "' could not be found"@,
        RuntimeFault::LanguageNotAvailable(l, p) => "The language '"@ + l.tag_text() + "' ('"@
            + l.name_text() + "') is not available for the path '"@ + p + "'"@,
    }
}

/// One decimal digit as a string.
fn digit(d: usize) -> (r: &'static str)
    requires
        d < 10,
    ensures
        r@ == seq![digit_char(d as nat)],
{
    proof {
        reveal_strlit("0");
        reveal_strlit("1");
        reveal_strlit("2");
        reveal_strlit("3");
        reveal_strlit("4");
        reveal_strlit("5");
        reveal_strlit("6");
        reveal_strlit("7");
        reveal_strlit("8");
        reveal_strlit("9");
    }
    let r = if d == 0 {
        "0"
    } else if d == 1 {
        "1"
    } else if d == 2 {
        "2"
    } else if d == 3 {
        "3"
    } else if d == 4 {
        "4"
    } else if d == 5 {
        "5"
    } else if d == 6 {
        "6"
    } else if d == 7 {
        "7"
    } else if d == 8 {
        "8"
    } else {
        "9"
    };
    proof {
        assert(r@ =~= seq![digit_char(d as nat)]);
    }
    r
}

/// Writes a number in decimal digits.
pub fn decimal(n: usize) -> (r: String)
    ensures
        r@ == decimal_text(n as nat),
    decreases n,
{
    if n < 10 {
        digit(n).to_owned()
    } else {
        let mut r = decimal(n / 10);
        r.append(digit(n % 10));
        proof {
            assert(r@ =~= decimal_text(n as nat / 10).push(digit_char(n as nat % 10)));
        }
        r
    }
}

/// Joins the segments of a path, with `::` between each two.
pub fn join_path(path: &Vec<String>) -> (r: String)
    ensures
        r@ == joined(texts(path@)),
{
    let mut r = String::new();
    let mut i: usize = 0;
    proof {
        reveal_strlit("::");
        assert(texts(path@).take(0) =~= Seq::empty());
    }
    while i < path.len()
        invariant
            i <= path@.len(),
            "::"@ == seq![':', ':'],
            r@ == joined(texts(path@).take(i as int)),
        decreases path.len() - i,
    {
        let ghost before = texts(path@).take(i as int);
        let ghost next = texts(path@).take(i + 1);
        proof {
            assert(next.drop_last() =~= before);
            assert(next.last() == path@[i as int]@);
        }
        if i > 0 {
            r.append("::");
        }
        r.append(path[i].as_str());
        proof {
            if i == 0 {
                assert(r@ =~= next[0]);
            } else {
                assert(r@ =~= joined(before) + seq![':', ':'] + next.last());
            }
        }
        i += 1;
    }
    proof {
        assert(texts(path@).take(i as int) =~= texts(path@));
    }
    r
}

impl TemplateParseError {
    /// What the error says, in words.
    pub fn message(&self) -> (r: String)
        ensures
            r@ == template_message(self@),
    {
        match self {
            TemplateParseError::Unclosed(at) => {
                let mut r = "Found unclosed brace at index ".to_owned();
                let digits = decimal(*at);
                r.append(digits.as_str());
                r
            },
            TemplateParseError::InvalidIdent(key) => {
                let mut r = "Found template with key '".to_owned();
                r.append(key.as_str());
                r.append("' which is an invalid identifier");
                r
            },
        }
    }
}

impl TranslationNodeError {
    /// What the error says, in words.
    pub fn message(&self) -> (r: String)
        ensures
            r@ == node_message(self@),
    {
        match self {
            TranslationNodeError::InvalidNesting => {
                "A nesting can only contain translation objects or other nestings".to_owned()
            },
            TranslationNodeError::TemplateValidation(e) => {
                let mut r = "Template validation failed: ".to_owned();
                let inner = e.message();
                r.append(inner.as_str());
                r
            },
            TranslationNodeError::MixedValues => {
                "Mixed values are not allowed, a nesting can't contain strings and objects at the same time".to_owned()
            },
            TranslationNodeError::LanguageParsing(_) => {
                "Couldn't parse ISO 639-1 string for translation key".to_owned()
            },
            TranslationNodeError::EmptyTable => "A translation file cannot be empty".to_owned(),
        }
    }
}

impl RuntimeError {
    /// What the error says, in words.
    pub fn cause(&self) -> (r: String)
        ensures
            r@ == cause_text(self@),
    {
        match self {
            RuntimeError::TranslationNode(e) => e.message(),
            RuntimeError::PathNotFound(path) => {
                let mut r = "The path '".to_owned();
                r.append(path.as_str());
                r.append("' could not be found");
                r
            },
            RuntimeError::LanguageNotAvailable(language, path) => {
                let mut r = "The language '".to_owned();
                r.append(language.tag());
                r.append("' ('");
                r.append(language.name());
                r.append("') is not available for the path '");
                r.append(path.as_str());
                r.append("'");
                r
            },
        }
    }
}

/// What asking a collection for the text at `path` in `language` gives,
/// with `values` put in the place of the placeholders.
pub open spec fn translated(
    nodes: Seq<(Seq<char>, TreeModel)>,
    language: Language,
    path: Seq<Seq<char>>,
    values: Seq<(Seq<char>, Seq<char>)>,
) -> Result<Seq<char>, RuntimeFault> {
    match found_in(nodes, path, nodes.len() as int) {
        None => Err(RuntimeFault::PathNotFound(joined(path))),
        Some(object) => match template_for(object, language) {
            None => Err(RuntimeFault::LanguageNotAvailable(language, joined(path))),
            Some(template) => Ok(render(template, values)),
        },
    }
}

/// The text at `path` in `language`, with each placeholder replaced by the
/// value that `replacements` gives for its key.
///
/// Fails when the path leads to no translation in any node of the
/// collection, and when the translation it leads to has no template for
/// the language.
pub fn translation(
    translations: &TranslationNodeCollection,
    language: Language,
    path: &Vec<String>,
    replacements: &Vec<(String, String)>,
) -> (r: Result<String, RuntimeError>)
    ensures
        match translated(translations@, language, texts(path@), pairs(replacements@)) {
            Ok(text) => r matches Ok(s) && s@ == text,
            Err(fault) => r matches Err(e) && e@ == fault,
        },
{
    match translations.find_path(path) {
        None => Err(RuntimeError::PathNotFound(join_path(path))),
        Some(object) => match object.get_language(&language) {
            None => Err(RuntimeError::LanguageNotAvailable(language, join_path(path))),
            Some(template) => Ok(template.replace_with(replacements)),
        },
    }
}


/// Why a field of a translation context could not be filled.
#[derive(Debug)]
pub enum ContextError {
    /// The path of the field leads to no translation. The text is the path,
    /// its segments joined by `::`.
    TranslationNotFound(String),
    /// The translation of the field has no template for the fallback
    /// language.
    FallbackNotAvailable,
    /// There is no fallback language, and the translation of the field has
    /// no template for the language asked for.
    LanguageNotAvailable(Language, String),
}

/// Why a field of a translation context could not be filled, as a
/// mathematical value.
pub ghost enum ContextFault {
    TranslationNotFound(Seq<char>),
    FallbackNotAvailable,
    LanguageNotAvailable(Language, Seq<char>),
}

impl View for ContextError {
    type V = ContextFault;

    open spec fn view(&self) -> ContextFault {
        match self {
            ContextError::TranslationNotFound(p) => ContextFault::TranslationNotFound(p@),
            ContextError::FallbackNotAvailable => ContextFault::FallbackNotAvailable,
            ContextError::LanguageNotAvailable(l, p) => ContextFault::LanguageNotAvailable(*l, p@),
        }
    }
}

/// The message of a context fault.
pub open spec fn context_message(fault: ContextFault) -> Seq<char> {
    match fault {
        ContextFault::TranslationNotFound(p) => "A translation with the path '"@ + p
            + "' could not be found"@,
        ContextFault::FallbackNotAvailable => {
            "One of the translations doesn't have the fallback language available"@
        },
        ContextFault::LanguageNotAvailable(l, p) => cause_text(
            RuntimeFault::LanguageNotAvailable(l, p),
        ),
    }
}

impl ContextError {
    /// What the error says, in words.
    pub fn message(&self) -> (r: String)
        ensures
            r@ == context_message(self@),
    {
        match self {
            ContextError::TranslationNotFound(path) => {
                let mut r = "A translation with the path '".to_owned();
                r.append(path.as_str());
                r.append("' could not be found");
                r
            },
            ContextError::FallbackNotAvailable => {
                "One of the translations doesn't have the fallback language available".to_owned()
            },
            ContextError::LanguageNotAvailable(language, path) => {
                let mut r = "The language '".to_owned();
                r.append(language.tag());
                r.append("' ('");
                r.append(language.name());
                r.append("') is not available for the path '");
                r.append(path.as_str());
                r.append("'");
                r
            },
        }
    }
}

/// The segments of `base` followed by those of `rest`.
pub fn merge_paths(base: &Vec<String>, rest: &Vec<String>) -> (r: Vec<String>)
    ensures
        texts(r@) == texts(base@) + texts(rest@),
{
    let mut r: Vec<String> = Vec::new();
    push_all(&mut r, base);
    push_all(&mut r, rest);
    proof {
        assert(texts(Seq::<String>::empty()) =~= Seq::empty());
        assert(texts(r@) =~= texts(base@) + texts(rest@));
    }
    r
}

/// What a field of a translation context is filled with: the text at the
/// field's path under the base path, in `language` where the translation
/// has it and in the fallback language where it has not.
///
/// With a fallback language the translation must have a template for it,
/// whether it is needed or not. Without one the translation must have a
/// template for `language`.
pub open spec fn context_text(
    nodes: Seq<(Seq<char>, TreeModel)>,
    path: Seq<Seq<char>>,
    fallback: Option<Language>,
    language: Language,
    values: Seq<(Seq<char>, Seq<char>)>,
) -> Result<Seq<char>, ContextFault> {
    match found_in(nodes, path, nodes.len() as int) {
        None => Err(ContextFault::TranslationNotFound(joined(path))),
        Some(object) => match fallback {
            Some(spare) => match template_for(object, spare) {
                None => Err(ContextFault::FallbackNotAvailable),
                Some(spare_template) => match template_for(object, language) {
                    Some(template) => Ok(render(template, values)),
                    None => Ok(render(spare_template, values)),
                },
            },
            None => match template_for(object, language) {
                Some(template) => Ok(render(template, values)),
                None => Err(ContextFault::LanguageNotAvailable(language, joined(path))),
            },
        },
    }
}

/// Fills one field of a translation context; see [`context_text`].
pub fn context_translation(
    translations: &TranslationNodeCollection,
    base_path: &Vec<String>,
    field_path: &Vec<String>,
    fallback_language: Option<Language>,
    language: Language,
    replacements: &Vec<(String, String)>,
) -> (r: Result<String, ContextError>)
    ensures
        match context_text(
            translations@,
            texts(base_path@) + texts(field_path@),
            fallback_language,
            language,
            pairs(replacements@),
        ) {
            Ok(text) => r matches Ok(s) && s@ == text,
            Err(fault) => r matches Err(e) && e@ == fault,
        },
{
    let path = merge_paths(base_path, field_path);
    match translations.find_path(&path) {
        None => Err(ContextError::TranslationNotFound(join_path(&path))),
        Some(object) => match fallback_language {
            Some(spare) => match object.get_language(&spare) {
                None => Err(ContextError::FallbackNotAvailable),
                Some(spare_template) => match object.get_language(&language) {
                    Some(template) => Ok(template.replace_with(replacements)),
                    None => Ok(spare_template.replace_with(replacements)),
                },
            },
            None => match object.get_language(&language) {
                Some(template) => Ok(template.replace_with(replacements)),
                None => Err(ContextError::LanguageNotAvailable(language, join_path(&path))),
            },
        },
    }
}

} // verus!
