//! Looking a text up in parsed tables directly, by a dotted path and the
//! name of a language.

use crate::catalog::Language;
use crate::config::TranslationOverlap;
use crate::document::Document;
use crate::language::{all_idents, first_answering, LanguageError, LanguageErrorModel};
use crate::offsets::{
    byte_len, lemma_boundary_after_ascii, lemma_boundary_by_byte, lemma_text_between_ends,
    on_boundary, slice_of, text_between,
};
use crate::text::{nearest, opt_text, same_text, texts};
use crate::tree::{first_in, lemma_first_in_stays, position};
use vstd::prelude::*;
use vstd::string::*;
use vstd::utf8::*;

verus! {

/// The byte `.`, which parts the segments of a dotted path.
pub const DOT: u8 = 0x2e;

/// The pieces of `text` from byte offset `i` on, where the piece that is
/// being read starts at offset `from`: a piece ends at each dot and at the
/// end of the text.
pub open spec fn pieces_from(text: Seq<char>, from: int, i: int) -> Seq<Seq<char>>
    decreases byte_len(text) - i,
{
    if i < 0 || i >= byte_len(text) {
        seq![text_between(text, from, byte_len(text) as int)]
    } else if encode_utf8(text)[i] == DOT {
        seq![text_between(text, from, i)] + pieces_from(text, i + 1, i + 1)
    } else {
        pieces_from(text, from, i + 1)
    }
}

/// The segments of a dotted path: the pieces between its dots. A path
/// without a dot is one segment, and so is the empty path.
pub open spec fn split_dots(text: Seq<char>) -> Seq<Seq<char>> {
    pieces_from(text, 0, 0)
}

/// Splits a dotted path into its segments.
pub fn split_dotted(path: &str) -> (r: Vec<String>)
    ensures
        texts(r@) == split_dots(path@),
{
    let bytes = path.as_bytes();
    let n = bytes.len();
    let mut r: Vec<String> = Vec::new();
    let mut from: usize = 0;
    let mut i: usize = 0;
    proof {
        encode_utf8_valid_utf8(path@);
        lemma_text_between_ends(path@);
        assert(texts(r@) + pieces_from(path@, 0, 0) =~= split_dots(path@));
    }
    while i < n
        invariant
            bytes@ == encode_utf8(path@),
            valid_utf8(bytes@),
            n == bytes@.len(),
            from <= i <= n,
            on_boundary(path@, from as int),
            texts(r@) + pieces_from(path@, from as int, i as int) == split_dots(path@),
        decreases n - i,
    {
        if bytes[i] == DOT {
            proof {
                lemma_boundary_by_byte(bytes@, i as int);
                lemma_boundary_after_ascii(bytes@, i as int);
            }
            let ghost before = texts(r@);
            let piece = slice_of(path, from, i);
            r.push(piece.to_owned());
            proof {
                assert(texts(r@) =~= before.push(piece@));
                assert(texts(r@) + pieces_from(path@, i + 1, i + 1) =~= before + pieces_from(
                    path@,
                    from as int,
                    i as int,
                ));
            }
            from = i + 1;
        }
        i += 1;
    }
    proof {
        lemma_text_between_ends(path@);
    }
    let ghost before = texts(r@);
    let piece = slice_of(path, from, n);
    r.push(piece.to_owned());
    proof {
        assert(texts(r@) =~= before + pieces_from(path@, from as int, n as int));
    }
    r
}

/// The byte `{`.
pub const OPEN: u8 = 0x7b;

/// The byte `}`.
pub const CLOSE: u8 = 0x7d;

/// How many more opening than closing braces the first `n` of `bytes`
/// hold.
pub open spec fn brace_balance(bytes: Seq<u8>, n: int) -> int
    decreases n,
{
    if n <= 0 || n > bytes.len() {
        0
    } else {
        brace_balance(bytes, n - 1) + (if bytes[n - 1] == OPEN {
            1int
        } else if bytes[n - 1] == CLOSE {
            -1int
        } else {
            0int
        })
    }
}

/// Whether the first `n` entries of a table are all valid tables or all
/// strings with as many opening as closing braces, each under a key that
/// names a language.
pub open spec fn entries_valid(entries: Seq<(String, Document)>, n: int) -> bool
    decreases entries, n,
{
    if n <= 0 || n > entries.len() {
        true
    } else {
        &&& entries_valid(entries, n - 1)
        &&& match entries[n - 1].1 {
            Document::Table { entries: inner, at } => {
                &&& forall|k: int| 0 <= k < n - 1 ==> !((#[trigger] entries[k]).1 is Text)
                &&& document_valid(entries[n - 1].1)
            },
            Document::Text { value, at } => {
                &&& forall|k: int| 0 <= k < n - 1 ==> !((#[trigger] entries[k]).1 is Table)
                &&& first_answering(entries[n - 1].0@, 0) is Some
                &&& brace_balance(encode_utf8(value@), byte_len(value@) as int) == 0
            },
            Document::Other { at } => false,
        }
    }
}

/// Whether a document is a table of valid translations: at every depth a
/// table holds only tables or only strings, the strings stand under keys
/// that name languages, and each has as many opening as closing braces.
pub open spec fn document_valid(doc: Document) -> bool
    decreases doc,
{
    match doc {
        Document::Table { entries, at } => entries_valid(entries@, entries@.len() as int),
        _ => false,
    }
}

/// Once the entries of a table are found invalid, they stay so.
pub proof fn lemma_entries_invalid_stays(entries: Seq<(String, Document)>, n: int, m: int)
    requires
        0 <= n <= m <= entries.len(),
        !entries_valid(entries, n),
    ensures
        !entries_valid(entries, m),
    decreases m - n,
{
    if n < m {
        lemma_entries_invalid_stays(entries, n, m - 1);
    }
}

/// Whether `text` has as many opening as closing braces.
pub fn braces_balanced(text: &str) -> (r: bool)
    ensures
        r == (brace_balance(encode_utf8(text@), byte_len(text@) as int) == 0),
{
    let bytes = text.as_bytes();
    let n = bytes.len();
    let mut opened: usize = 0;
    let mut closed: usize = 0;
    let mut i: usize = 0;
    while i < n
        invariant
            bytes@ == encode_utf8(text@),
            n == bytes@.len(),
            i <= n,
            opened <= i,
            closed <= i,
            opened - closed == brace_balance(bytes@, i as int),
        decreases n - i,
    {
        let b = bytes[i];
        if b == OPEN {
            opened += 1;
        } else if b == CLOSE {
            closed += 1;
        }
        i += 1;
    }
    opened == closed
}

/// Decides whether a document is a table of valid translations.
pub fn translations_valid(doc: &Document) -> (r: bool)
    ensures
        r == document_valid(*doc),
    decreases doc,
{
    match doc {
        Document::Table { entries, at } => {
            let mut contains_translation = false;
            let mut contains_table = false;
            let mut i: usize = 0;
            while i < entries.len()
                invariant
                    *doc == (Document::Table { entries: *entries, at: *at }),
                    i <= entries@.len(),
                    entries_valid(entries@, i as int),
                    contains_translation == (exists|k: int|
                        0 <= k < i && (#[trigger] entries@[k]).1 is Text),
                    contains_table == (exists|k: int|
                        0 <= k < i && (#[trigger] entries@[k]).1 is Table),
                decreases entries.len() - i,
            {
                let key = &entries[i].0;
                let value = &entries[i].1;
                proof {
                    assert(*value == entries@[i as int].1);
                }
                let fine = match value {
                    Document::Table { entries: inner, at: place } => {
                        proof {
                            assert(decreases_to!(doc => doc->Table_entries@[i as int].1));
                        }
                        !contains_translation && translations_valid(value)
                    },
                    Document::Text { value: text, at: place } => {
                        !contains_table && Language::from_str(key.as_str()).is_ok()
                            && braces_balanced(text.as_str())
                    },
                    Document::Other { at: place } => false,
                };
                if !fine {
                    proof {
                        assert(!entries_valid(entries@, i + 1));
                        lemma_entries_invalid_stays(entries@, i + 1, entries@.len() as int);
                    }
                    return false;
                }
                match value {
                    Document::Table { entries: inner, at: place } => {
                        contains_table = true;
                    },
                    _ => {
                        contains_translation = true;
                    },
                }
                proof {
                    assert(entries_valid(entries@, i + 1));
                }
                i += 1;
            }
            true
        },
        _ => false,
    }
}

/// The keys of the entries of a table.
pub open spec fn keys_of(entries: Seq<(String, Document)>) -> Seq<Seq<char>> {
    entries.map_values(|e: (String, Document)| e.0@)
}

/// The value of the first entry of a table that has the key `key`.
pub open spec fn entry_of(entries: Seq<(String, Document)>, key: Seq<char>) -> Option<Document> {
    match position(keys_of(entries), key) {
        Some(i) => Some(entries[i].1),
        None => None,
    }
}

/// The text that a document holds for `lang` under the segments of `path`
/// from the `i`-th on: each segment names a table of the table reached so
/// far, and the last table holds a string under `lang`.
pub open spec fn text_in(doc: Document, path: Seq<Seq<char>>, i: int, lang: Seq<char>) -> Option<
    Seq<char>,
>
    decreases path.len() - i,
{
    match doc {
        Document::Table { entries, at } => {
            if i < 0 || i >= path.len() {
                match entry_of(entries@, lang) {
                    Some(Document::Text { value, at }) => Some(value@),
                    _ => None,
                }
            } else {
                match entry_of(entries@, path[i]) {
                    Some(inner) => text_in(inner, path, i + 1, lang),
                    None => None,
                }
            }
        },
        _ => None,
    }
}

/// The text that the first `n` documents give for `lang` at `path`: under
/// `Ignore` that of the first document that has one, under `Overwrite` that
/// of the last.
pub open spec fn chosen_text(
    docs: Seq<Document>,
    overlap: TranslationOverlap,
    path: Seq<Seq<char>>,
    lang: Seq<char>,
    n: int,
) -> Option<Seq<char>>
    decreases n,
{
    if n <= 0 || n > docs.len() {
        None
    } else {
        let before = chosen_text(docs, overlap, path, lang, n - 1);
        let here = text_in(docs[n - 1], path, 0, lang);
        match overlap {
            TranslationOverlap::Ignore => if before is Some {
                before
            } else {
                here
            },
            TranslationOverlap::Overwrite => if here is Some {
                here
            } else {
                before
            },
        }
    }
}

/// The position of the first entry with the key `key`.
pub fn find_entry(entries: &Vec<(String, Document)>, key: &str) -> (r: Option<usize>)
    ensures
        match r {
            Some(i) => position(keys_of(entries@), key@) == Some(i as int) && i < entries@.len(),
            None => position(keys_of(entries@), key@) is None,
        },
{
    let ghost keys = keys_of(entries@);
    let mut i: usize = 0;
    while i < entries.len()
        invariant
            keys == keys_of(entries@),
            i <= entries@.len(),
            first_in(keys, key@, i as int) is None,
        decreases entries.len() - i,
    {
        if same_text(entries[i].0.as_str(), key) {
            proof {
                assert(keys[i as int] == key@);
                assert(first_in(keys, key@, i + 1) == Some(i as int));
                lemma_first_in_stays(keys, key@, i + 1, keys.len() as int);
            }
            return Some(i);
        }
        i += 1;
    }
    None
}

/// The text that `doc` holds for `lang` under `path`.
pub fn find_text<'a>(doc: &'a Document, path: &Vec<String>, lang: &str) -> (r: Option<&'a String>)
    ensures
        match text_in(*doc, texts(path@), 0, lang@) {
            Some(t) => r matches Some(s) && s@ == t,
            None => r is None,
        },
{
    let ghost whole = texts(path@);
    let mut node: &Document = doc;
    let mut i: usize = 0;
    loop
        invariant
            whole == texts(path@),
            i <= path@.len(),
            text_in(*doc, whole, 0, lang@) == text_in(*node, whole, i as int, lang@),
        decreases path@.len() - i,
    {
        match node {
            Document::Table { entries, at } => {
                if i == path.len() {
                    match find_entry(entries, lang) {
                        Some(k) => match &entries[k].1 {
                            Document::Text { value, at } => {
                                return Some(value);
                            },
                            _ => {
                                return None;
                            },
                        },
                        None => {
                            return None;
                        },
                    }
                }
                match find_entry(entries, path[i].as_str()) {
                    Some(k) => {
                        node = &entries[k].1;
                        i += 1;
                    },
                    None => {
                        return None;
                    },
                }
            },
            _ => {
                return None;
            },
        }
    }
}

/// The text for the language named `lang` at the dotted `path`, looked up
/// in each of `translations` in turn.
///
/// Fails when `lang` names no language. Otherwise gives the text of the
/// first table that has one under `Ignore`, of the last under `Overwrite`,
/// and nothing where no table has one. The text is looked up under `lang`
/// as it is written.
pub fn load_translation_static(
    translations: &Vec<Document>,
    overlap: TranslationOverlap,
    lang: &str,
    path: &str,
) -> (r: Result<Option<String>, LanguageError>)
    ensures
        match first_answering(lang@, 0) {
            None => r matches Err(e) && e@ == (LanguageErrorModel {
                attempt: lang@,
                closest: nearest(lang@, all_idents()),
            }),
            Some(_) => r matches Ok(found) && opt_text(found) == chosen_text(
                translations@,
                overlap,
                split_dots(path@),
                lang@,
                translations@.len() as int,
            ),
        },
{
    match Language::from_str(lang) {
        Err(e) => {
            return Err(e);
        },
        Ok(_) => {},
    }
    let segments = split_dotted(path);
    let mut chosen: Option<String> = None;
    let mut i: usize = 0;
    while i < translations.len()
        invariant
            i <= translations@.len(),
            texts(segments@) == split_dots(path@),
            opt_text(chosen) == chosen_text(
                translations@,
                overlap,
                split_dots(path@),
                lang@,
                i as int,
            ),
        decreases translations.len() - i,
    {
        let keep = match overlap {
            TranslationOverlap::Ignore => chosen.is_some(),
            TranslationOverlap::Overwrite => false,
        };
        if !keep {
            match find_text(&translations[i], &segments, lang) {
                Some(text) => {
                    chosen = Some(text.clone());
                },
                None => {},
            }
        }
        i += 1;
    }
    Ok(chosen)
}

} // verus!
