//! Template strings: text with named placeholders in braces, and the
//! substitution of values for them.

use crate::offsets::{
    byte_len, lemma_boundary_after_ascii, lemma_boundary_by_byte, lemma_text_between_ends,
    lemma_text_between_join, on_boundary, slice_of, text_between,
};
use crate::text::{is_ident, is_ident_text, same_text};
use core::ops::Range;
use vstd::prelude::*;
use vstd::string::*;
use vstd::utf8::*;

verus! {

/// The byte `{`, which opens a placeholder.
pub const OPEN_BRACE: u8 = 0x7b;

/// The byte `}`, which closes a placeholder.
pub const CLOSE_BRACE: u8 = 0x7d;

/// Why a text is not a template.
#[derive(Debug, PartialEq, Eq)]
pub enum TemplateParseError {
    /// A brace opened at this byte offset and was never closed.
    Unclosed(usize),
    /// The text between two braces is not an identifier.
    InvalidIdent(String),
}

/// One placeholder of a template: its key, and the byte range that it
/// occupies in the text, braces included.
pub ghost struct SpanModel {
    pub key: Seq<char>,
    pub start: int,
    pub end: int,
}

/// What a template is: its text and its placeholders.
pub ghost struct TemplateModel {
    pub text: Seq<char>,
    pub spans: Seq<SpanModel>,
}

/// Why a text is not a template, as a mathematical value.
pub ghost enum TemplateFault {
    Unclosed(int),
    InvalidIdent(Seq<char>),
}

impl View for TemplateParseError {
    type V = TemplateFault;

    open spec fn view(&self) -> TemplateFault {
        match self {
            TemplateParseError::Unclosed(at) => TemplateFault::Unclosed(*at as int),
            TemplateParseError::InvalidIdent(key) => TemplateFault::InvalidIdent(key@),
        }
    }
}

impl Clone for TemplateParseError {
    fn clone(&self) -> (r: Self)
        ensures
            r@ == self@,
    {
        match self {
            TemplateParseError::Unclosed(at) => TemplateParseError::Unclosed(*at),
            TemplateParseError::InvalidIdent(key) => TemplateParseError::InvalidIdent(key.clone()),
        }
    }
}

/// What scanning a text for placeholders gives: the placeholders, or the
/// first fault.
pub type ScanResult = Result<Seq<SpanModel>, TemplateFault>;

/// The model of one stored placeholder.
pub open spec fn span_model(s: (String, Range<usize>)) -> SpanModel {
    SpanModel { key: s.0@, start: s.1.start as int, end: s.1.end as int }
}

/// The models of a list of stored placeholders.
pub open spec fn span_models(spans: Seq<(String, Range<usize>)>) -> Seq<SpanModel> {
    spans.map_values(|s: (String, Range<usize>)| span_model(s))
}

/// The views of a list of key and value pairs.
pub open spec fn pairs(values: Seq<(String, String)>) -> Seq<(Seq<char>, Seq<char>)> {
    values.map_values(|p: (String, String)| (p.0@, p.1@))
}

/// The value of the first pair whose key is `key`.
pub open spec fn lookup(values: Seq<(Seq<char>, Seq<char>)>, key: Seq<char>) -> Option<Seq<char>>
    decreases values.len(),
{
    if values.len() == 0 {
        None
    } else if values[0].0 == key {
        Some(values[0].1)
    } else {
        lookup(values.drop_first(), key)
    }
}

/// `found` put in front of the placeholders that a scan of the rest gave.
pub open spec fn after(found: Seq<SpanModel>, rest: ScanResult) -> ScanResult {
    match rest {
        Ok(s) => Ok(found + s),
        Err(fault) => Err(fault),
    }
}

/// Scans `bytes` from offset `i` on. `pending` is the offset of an opening
/// brace that is waiting for its closing brace.
///
/// An opening brace right after a pending one cancels it: the two are an
/// escape. Any other opening brace becomes the pending one. A closing brace
/// ends the pending placeholder, whose key is the text between the braces and
/// must be an identifier; without a pending brace it is plain text.
pub open spec fn scan_from(bytes: Seq<u8>, i: int, pending: Option<int>) -> ScanResult
    decreases bytes.len() - i,
{
    if i < 0 || i >= bytes.len() {
        match pending {
            Some(p) => Err(TemplateFault::Unclosed(p)),
            None => Ok(Seq::empty()),
        }
    } else if bytes[i] == OPEN_BRACE {
        if pending == Some(i - 1) {
            scan_from(bytes, i + 1, None)
        } else {
            scan_from(bytes, i + 1, Some(i))
        }
    } else if bytes[i] == CLOSE_BRACE && pending is Some {
        let p = pending->0;
        let key = decode_utf8(bytes.subrange(p + 1, i));
        if is_ident_text(key) {
            after(seq![SpanModel { key, start: p, end: i + 1 }], scan_from(bytes, i + 1, None))
        } else {
            Err(TemplateFault::InvalidIdent(key))
        }
    } else {
        scan_from(bytes, i + 1, pending)
    }
}

/// The placeholders of `text`, or the reason why it is not a template.
pub open spec fn scan(text: Seq<char>) -> ScanResult {
    scan_from(encode_utf8(text), 0, None)
}

/// `x` put into `sorted` behind every placeholder that does not start
/// after it.
pub open spec fn insert_by_start(sorted: Seq<SpanModel>, x: SpanModel) -> Seq<SpanModel>
    decreases sorted.len(),
{
    if sorted.len() == 0 {
        seq![x]
    } else if sorted.last().start <= x.start {
        sorted.push(x)
    } else {
        insert_by_start(sorted.drop_last(), x).push(sorted.last())
    }
}

/// The placeholders in ascending order of their start; those with equal
/// starts keep their order.
pub open spec fn sorted_by_start(spans: Seq<SpanModel>) -> Seq<SpanModel>
    decreases spans.len(),
{
    if spans.len() == 0 {
        Seq::empty()
    } else {
        insert_by_start(sorted_by_start(spans.drop_last()), spans.last())
    }
}

/// Every placeholder is a byte range of `text` between character
/// boundaries, and each ends before the next starts.
pub open spec fn chained(text: Seq<char>, spans: Seq<SpanModel>) -> bool {
    &&& forall|i: int|
        0 <= i < spans.len() ==> {
            &&& 0 <= (#[trigger] spans[i]).start <= spans[i].end <= byte_len(text)
            &&& on_boundary(text, spans[i].start)
            &&& on_boundary(text, spans[i].end)
        }
    &&& forall|i: int, j: int|
        0 <= i && j == i + 1 && j < spans.len() ==> (#[trigger] spans[i]).end <= (
        #[trigger] spans[j]).start
}

/// The placeholders of a template, taken in ascending order of their
/// start, are ranges of its text that do not overlap.
pub open spec fn well_formed(m: TemplateModel) -> bool {
    chained(m.text, sorted_by_start(m.spans))
}

/// What stands in the place of one placeholder: the value given for its
/// key, or its own text where no value is given.
pub open spec fn substitute(
    text: Seq<char>,
    span: SpanModel,
    values: Seq<(Seq<char>, Seq<char>)>,
) -> Seq<char> {
    match lookup(values, span.key) {
        Some(v) => v,
        None => text_between(text, span.start, span.end),
    }
}

/// The text from byte offset `pos` on, with the placeholders from the
/// `i`-th on replaced by their values.
pub open spec fn render_from(
    text: Seq<char>,
    spans: Seq<SpanModel>,
    values: Seq<(Seq<char>, Seq<char>)>,
    i: int,
    pos: int,
) -> Seq<char>
    decreases spans.len() - i,
{
    if i < 0 || i >= spans.len() {
        text_between(text, pos, byte_len(text) as int)
    } else {
        text_between(text, pos, spans[i].start) + substitute(text, spans[i], values) + render_from(
            text,
            spans,
            values,
            i + 1,
            spans[i].end,
        )
    }
}

/// The text of a template with each placeholder replaced by the value given
/// for its key; a placeholder without a value stays as it is written.
pub open spec fn render(m: TemplateModel, values: Seq<(Seq<char>, Seq<char>)>) -> Seq<char> {
    render_from(m.text, sorted_by_start(m.spans), values, 0, 0)
}

/// The placeholders that `order` picks out of `spans`, in that order.
pub open spec fn picked(spans: Seq<SpanModel>, order: Seq<usize>) -> Seq<SpanModel> {
    Seq::new(order.len(), |j: int| spans[order[j] as int])
}

/// A text with its placeholders. The text never changes, and each
/// placeholder is a byte range of it.
#[derive(Debug, PartialEq, Eq, Hash)]
pub struct TemplatedString {
    original: String,
    spans: Vec<(String, Range<usize>)>,
}

impl View for TemplatedString {
    type V = TemplateModel;

    closed spec fn view(&self) -> TemplateModel {
        TemplateModel { text: self.original@, spans: span_models(self.spans@) }
    }
}

/// A copy of a list of placeholders.
fn copy_of_spans(spans: &Vec<(String, Range<usize>)>) -> (r: Vec<(String, Range<usize>)>)
    ensures
        span_models(r@) == span_models(spans@),
{
    let mut r: Vec<(String, Range<usize>)> = Vec::new();
    let mut i: usize = 0;
    proof {
        assert(span_models(r@) =~= span_models(spans@).take(0));
    }
    while i < spans.len()
        invariant
            i <= spans@.len(),
            span_models(r@) == span_models(spans@).take(i as int),
        decreases spans.len() - i,
    {
        let ghost before = span_models(r@);
        let entry = &spans[i];
        r.push((entry.0.clone(), entry.1.start..entry.1.end));
        proof {
            assert(span_models(r@) =~= before.push(span_model(*entry)));
            assert(span_models(spans@).take(i + 1) =~= span_models(spans@).take(i as int).push(
                span_model(*entry),
            ));
        }
        i += 1;
    }
    proof {
        assert(span_models(spans@).take(i as int) =~= span_models(spans@));
    }
    r
}

impl Clone for TemplatedString {
    fn clone(&self) -> (r: Self)
        ensures
            r@ == self@,
    {
        proof {
            use_type_invariant(self);
        }
        Self { original: self.original.clone(), spans: copy_of_spans(&self.spans) }
    }
}

/// The value given for `key`: that of the first pair with this key.
pub fn find_value<'a>(values: &'a Vec<(String, String)>, key: &str) -> (r: Option<&'a String>)
    ensures
        match r {
            Some(v) => lookup(pairs(values@), key@) == Some(v@),
            None => lookup(pairs(values@), key@) is None,
        },
{
    let mut i: usize = 0;
    proof {
        assert(pairs(values@).skip(0) =~= pairs(values@));
    }
    while i < values.len()
        invariant
            i <= values.len(),
            lookup(pairs(values@), key@) == lookup(pairs(values@).skip(i as int), key@),
        decreases values.len() - i,
    {
        let ghost rest = pairs(values@).skip(i as int);
        proof {
            assert(rest[0] == pairs(values@)[i as int]);
            assert(rest.drop_first() =~= pairs(values@).skip(i + 1));
        }
        if same_text(values[i].0.as_str(), key) {
            return Some(&values[i].1);
        }
        i += 1;
    }
    proof {
        assert(pairs(values@).skip(i as int).len() == 0);
    }
    None
}

/// The positions of the placeholders in ascending order of their start.
fn order_of(spans: &Vec<(String, Range<usize>)>) -> (order: Vec<usize>)
    ensures
        order@.len() == spans@.len(),
        forall|k: int| 0 <= k < order@.len() ==> (#[trigger] order@[k]) < spans@.len(),
        picked(span_models(spans@), order@) == sorted_by_start(span_models(spans@)),
{
    let ghost models = span_models(spans@);
    let mut order: Vec<usize> = Vec::new();
    let mut i: usize = 0;
    proof {
        assert(picked(models, order@) =~= sorted_by_start(models.take(0)));
    }
    while i < spans.len()
        invariant
            models == span_models(spans@),
            i <= spans@.len(),
            order@.len() == i,
            forall|k: int| 0 <= k < order@.len() ==> (#[trigger] order@[k]) < i,
            picked(models, order@) == sorted_by_start(models.take(i as int)),
        decreases spans.len() - i,
    {
        let start = spans[i].1.start;
        let mut j: usize = order.len();
        while j > 0 && spans[order[j - 1]].1.start > start
            invariant
                models == span_models(spans@),
                i < spans@.len(),
                start == models[i as int].start,
                j <= order@.len(),
                order@.len() == i,
                forall|k: int| 0 <= k < order@.len() ==> (#[trigger] order@[k]) < i,
                forall|k: int|
                    j <= k < order@.len() ==> (#[trigger] picked(models, order@)[k]).start > start,
            decreases j,
        {
            proof {
                assert(picked(models, order@)[j - 1] == models[order@[j - 1] as int]);
            }
            j -= 1;
        }
        let ghost sorted = picked(models, order@);
        proof {
            if j > 0 {
                assert(sorted[j - 1] == models[order@[j - 1] as int]);
            }
            lemma_insert_position(sorted, models[i as int], j as int);
            assert(models.take(i + 1).drop_last() =~= models.take(i as int));
            assert(models.take(i + 1).last() == models[i as int]);
        }
        order.insert(j, i);
        proof {
            assert(picked(models, order@) =~= sorted.insert(j as int, models[i as int]));
        }
        i += 1;
    }
    proof {
        assert(models.take(i as int) =~= models);
    }
    order
}

/// Decides whether placeholders fit a text: whether, taken in ascending
/// order of their start, they are ranges of the text between character
/// boundaries that do not overlap.
pub fn fits(text: &str, spans: &Vec<(String, Range<usize>)>) -> (r: bool)
    ensures
        r == well_formed(TemplateModel { text: text@, spans: span_models(spans@) }),
{
    let order = order_of(spans);
    let n = text.as_bytes().len();
    let ghost models = span_models(spans@);
    let ghost sorted = sorted_by_start(models);
    let mut last_end: usize = 0;
    let mut i: usize = 0;
    while i < order.len()
        invariant
            n == byte_len(text@),
            models == span_models(spans@),
            sorted == sorted_by_start(models),
            order@.len() == spans@.len(),
            forall|k: int| 0 <= k < order@.len() ==> (#[trigger] order@[k]) < spans@.len(),
            picked(models, order@) == sorted,
            i <= order@.len(),
            i > 0 ==> last_end == sorted[i - 1].end,
            forall|k: int|
                0 <= k < i ==> {
                    &&& 0 <= (#[trigger] sorted[k]).start <= sorted[k].end <= byte_len(text@)
                    &&& on_boundary(text@, sorted[k].start)
                    &&& on_boundary(text@, sorted[k].end)
                },
            forall|k: int, j: int|
                0 <= k && j == k + 1 && j < i ==> (#[trigger] sorted[k]).end <= (
                #[trigger] sorted[j]).start,
        decreases order.len() - i,
    {
        let entry = &spans[order[i]];
        let start = entry.1.start;
        let end = entry.1.end;
        proof {
            assert(sorted[i as int] == models[order@[i as int] as int]);
            assert(sorted[i as int] == span_model(*entry));
        }
        let in_range = start <= end && end <= n;
        let on_characters = in_range && text.is_char_boundary(start) && text.is_char_boundary(end);
        let after_last = i == 0 || last_end <= start;
        if !(on_characters && after_last) {
            proof {
                if chained(text@, sorted) {
                    assert(0 <= sorted[i as int].start <= sorted[i as int].end <= byte_len(text@));
                    if i > 0 {
                        assert(sorted[i - 1].end <= sorted[i as int].start);
                    }
                }
            }
            return false;
        }
        last_end = end;
        i += 1;
    }
    true
}

impl TemplatedString {
    /// Whether the placeholders are ranges of the text that do not overlap.
    /// Every template is so.
    #[verifier::type_invariant]
    pub open spec fn wf(&self) -> bool {
        well_formed(self@)
    }

    /// A template made of a text and the placeholders found in it.
    pub fn new(original: &str, replacements: Vec<(String, Range<usize>)>) -> (t: Self)
        requires
            well_formed(TemplateModel { text: original@, spans: span_models(replacements@) }),
        ensures
            t@ == (TemplateModel { text: original@, spans: span_models(replacements@) }),
            t.wf(),
    {
        Self { original: original.to_owned(), spans: replacements }
    }

    /// A template made of a text and placeholders, if the placeholders fit
    /// the text: taken in ascending order of their start, they must be
    /// ranges of the text between character boundaries that do not overlap.
    pub fn try_new(original: &str, replacements: Vec<(String, Range<usize>)>) -> (r: Option<Self>)
        ensures
            match r {
                Some(t) => t@ == (TemplateModel {
                    text: original@,
                    spans: span_models(replacements@),
                }) && t.wf(),
                None => !well_formed(
                    TemplateModel { text: original@, spans: span_models(replacements@) },
                ),
            },
    {
        if fits(original, &replacements) {
            Some(Self { original: original.to_owned(), spans: replacements })
        } else {
            None
        }
    }

    /// The text as it was given, placeholders included.
    pub fn original(&self) -> (r: &str)
        ensures
            r@ == self@.text,
    {
        self.original.as_str()
    }

    /// The number of placeholders.
    pub fn span_count(&self) -> (n: usize)
        ensures
            n == self@.spans.len(),
    {
        self.spans.len()
    }

    /// The key of the `i`-th placeholder and the byte range it occupies.
    pub fn span(&self, i: usize) -> (r: (&str, usize, usize))
        requires
            i < self@.spans.len(),
        ensures
            r.0@ == self@.spans[i as int].key,
            r.1 == self@.spans[i as int].start,
            r.2 == self@.spans[i as int].end,
    {
        let entry = &self.spans[i];
        (entry.0.as_str(), entry.1.start, entry.1.end)
    }

    /// Reads a template out of `s`.
    ///
    /// Succeeds exactly when every opening brace that does not belong to an
    /// escape is closed and every key is an identifier; the error names the
    /// first fault met from the left.
    pub fn from_str(s: &str) -> (r: Result<Self, TemplateParseError>)
        ensures
            match scan(s@) {
                Ok(spans) => r matches Ok(t) && t@ == (TemplateModel { text: s@, spans })
                    && t.wf(),
                Err(fault) => r matches Err(e) && e@ == fault,
            },
    {
        let bytes = s.as_bytes();
        let n = bytes.len();
        let mut spans: Vec<(String, Range<usize>)> = Vec::new();
        let mut pending: Option<usize> = None;
        let mut i: usize = 0;
        proof {
            encode_utf8_valid_utf8(s@);
            assert(span_models(spans@) =~= Seq::empty());
            assert(after(Seq::empty(), scan_from(bytes@, 0, None)) == scan_from(bytes@, 0, None))
                by {
                match scan_from(bytes@, 0, None) {
                    Ok(found) => {
                        assert(Seq::<SpanModel>::empty() + found =~= found);
                    },
                    _ => {},
                }
            }
        }
        while i < n
            invariant
                bytes@ == encode_utf8(s@),
                valid_utf8(bytes@),
                n == bytes@.len(),
                i <= n,
                chained(s@, span_models(spans@)),
                match pending {
                    Some(p) => p < i && bytes@[p as int] == OPEN_BRACE && (spans@.len() > 0
                        ==> spans@.last().1.end <= p),
                    None => spans@.len() > 0 ==> spans@.last().1.end <= i,
                },
                scan(s@) == after(
                    span_models(spans@),
                    scan_from(
                        bytes@,
                        i as int,
                        match pending {
                            Some(p) => Some(p as int),
                            None => None,
                        },
                    ),
                ),
            decreases n - i,
        {
            let b = bytes[i];
            if b == OPEN_BRACE {
                let escapes = match pending {
                    Some(p) => p + 1 == i,
                    None => false,
                };
                if escapes {
                    pending = None;
                } else {
                    pending = Some(i);
                }
            } else if b == CLOSE_BRACE && pending.is_some() {
                let p = pending.unwrap();
                proof {
                    lemma_boundary_by_byte(bytes@, p as int);
                    lemma_boundary_after_ascii(bytes@, p as int);
                    lemma_boundary_by_byte(bytes@, i as int);
                    lemma_boundary_after_ascii(bytes@, i as int);
                }
                let key = slice_of(s, p + 1, i);
                if !is_ident(key) {
                    return Err(TemplateParseError::InvalidIdent(key.to_owned()));
                }
                let ghost before = span_models(spans@);
                let ghost added = SpanModel { key: key@, start: p as int, end: i + 1 };
                spans.push((key.to_owned(), p..i + 1));
                pending = None;
                proof {
                    assert(span_models(spans@) =~= before.push(added));
                    lemma_chained_push(s@, before, added);
                    let rest = scan_from(bytes@, i + 1, None);
                    match rest {
                        Ok(found) => {
                            assert(before + (seq![added] + found) =~= before.push(added) + found);
                        },
                        _ => {},
                    }
                }
            }
            i += 1;
        }
        match pending {
            Some(p) => Err(TemplateParseError::Unclosed(p)),
            None => {
                proof {
                    assert(span_models(spans@) + Seq::<SpanModel>::empty() =~= span_models(spans@));
                    lemma_chained_is_sorted(s@, span_models(spans@));
                }
                Ok(Self { original: s.to_owned(), spans })
            },
        }
    }

    /// The text with each placeholder replaced by the value that
    /// `replacements` gives for its key. A placeholder whose key has no
    /// value stays as it is written, braces included.
    pub fn replace_with(&self, replacements: &Vec<(String, String)>) -> (r: String)
        ensures
            r@ == render(self@, pairs(replacements@)),
    {
        proof {
            use_type_invariant(self);
        }
        let order = order_of(&self.spans);
        let text = self.original.as_str();
        let ghost sorted = sorted_by_start(self@.spans);
        let ghost values = pairs(replacements@);
        let mut out = String::new();
        let mut pos: usize = 0;
        let mut i: usize = 0;
        proof {
            lemma_text_between_ends(text@);
            assert(out@ + render_from(text@, sorted, values, 0, 0) =~= render(self@, values));
        }
        while i < order.len()
            invariant
                text@ == self@.text,
                sorted == sorted_by_start(self@.spans),
                values == pairs(replacements@),
                chained(text@, sorted),
                order@.len() == self@.spans.len(),
                forall|k: int| 0 <= k < order@.len() ==> (#[trigger] order@[k]) < self@.spans.len(),
                picked(self@.spans, order@) == sorted,
                i <= order@.len(),
                pos <= byte_len(text@),
                on_boundary(text@, pos as int),
                i < order@.len() ==> pos <= sorted[i as int].start,
                out@ + render_from(text@, sorted, values, i as int, pos as int) == render(
                    self@,
                    values,
                ),
            decreases order.len() - i,
        {
            let entry = &self.spans[order[i]];
            let start = entry.1.start;
            let end = entry.1.end;
            let ghost span = sorted[i as int];
            let ghost so_far = out@;
            proof {
                assert(span == self@.spans[order@[i as int] as int]);
                assert(span == span_model(*entry));
                if i + 1 < order@.len() {
                    assert(sorted[i as int].end <= sorted[i + 1].start);
                }
            }
            out.append(slice_of(text, pos, start));
            match find_value(replacements, entry.0.as_str()) {
                Some(v) => {
                    out.append(v.as_str());
                },
                None => {
                    out.append(slice_of(text, start, end));
                },
            }
            proof {
                assert(out@ == so_far + text_between(text@, pos as int, start as int) + substitute(
                    text@,
                    span,
                    values,
                ));
                assert(out@ + render_from(text@, sorted, values, i + 1, end as int) =~= so_far
                    + render_from(text@, sorted, values, i as int, pos as int));
            }
            pos = end;
            i += 1;
        }
        let len = text.as_bytes().len();
        out.append(slice_of(text, pos, len));
        out
    }
}

/// A chained list stays chained when a placeholder that starts at or after
/// the end of its last one is added.
pub proof fn lemma_chained_push(text: Seq<char>, spans: Seq<SpanModel>, x: SpanModel)
    requires
        chained(text, spans),
        0 <= x.start <= x.end <= byte_len(text),
        on_boundary(text, x.start),
        on_boundary(text, x.end),
        spans.len() > 0 ==> spans.last().end <= x.start,
    ensures
        chained(text, spans.push(x)),
{
    let next = spans.push(x);
    assert forall|i: int| 0 <= i < next.len() implies {
        &&& 0 <= (#[trigger] next[i]).start <= next[i].end <= byte_len(text)
        &&& on_boundary(text, next[i].start)
        &&& on_boundary(text, next[i].end)
    } by {
        if i < spans.len() {
            assert(next[i] == spans[i]);
        }
    }
    assert forall|i: int, j: int| 0 <= i && j == i + 1 && j < next.len() implies (
    #[trigger] next[i]).end <= (#[trigger] next[j]).start by {
        assert(next[i] == spans[i]);
        if j < spans.len() {
            assert(next[j] == spans[j]);
        }
    }
}

/// [`insert_by_start`] puts `x` at position `j` when everything from `j` on
/// starts after `x` and what stands before `j` does not.
pub proof fn lemma_insert_position(s: Seq<SpanModel>, x: SpanModel, j: int)
    requires
        0 <= j <= s.len(),
        forall|k: int| j <= k < s.len() ==> (#[trigger] s[k]).start > x.start,
        j > 0 ==> s[j - 1].start <= x.start,
    ensures
        insert_by_start(s, x) == s.insert(j, x),
    decreases s.len(),
{
    if s.len() == 0 {
        assert(seq![x] =~= s.insert(j, x));
    } else if j == s.len() {
        assert(s.push(x) =~= s.insert(j, x));
    } else {
        assert(s.last().start > x.start);
        lemma_insert_position(s.drop_last(), x, j);
        assert(s.drop_last().insert(j, x).push(s.last()) =~= s.insert(j, x));
    }
}

/// Placeholders that are chained are already in ascending order.
pub proof fn lemma_chained_is_sorted(text: Seq<char>, spans: Seq<SpanModel>)
    requires
        chained(text, spans),
    ensures
        sorted_by_start(spans) == spans,
    decreases spans.len(),
{
    if spans.len() > 0 {
        let front = spans.drop_last();
        assert(chained(text, front)) by {
            assert forall|i: int| 0 <= i < front.len() implies {
                &&& 0 <= (#[trigger] front[i]).start <= front[i].end <= byte_len(text)
                &&& on_boundary(text, front[i].start)
                &&& on_boundary(text, front[i].end)
            } by {
                assert(front[i] == spans[i]);
            }
            assert forall|i: int, j: int|
                0 <= i && j == i + 1 && j < front.len() implies (#[trigger] front[i]).end <= (
            #[trigger] front[j]).start by {
                assert(front[i] == spans[i]);
                assert(front[j] == spans[j]);
            }
        }
        lemma_chained_is_sorted(text, front);
        if front.len() > 0 {
            let i = front.len() - 1;
            assert(front.last() == spans[i]);
            assert(spans[i].end <= spans[i + 1].start);
            assert(front.last().start <= spans.last().start);
        }
        assert(front.push(spans.last()) =~= spans);
    }
}

/// Rendering from a placeholder on, when none of the placeholders from it on
/// has a value, gives the rest of the text unchanged.
pub proof fn lemma_render_without_values(
    text: Seq<char>,
    spans: Seq<SpanModel>,
    values: Seq<(Seq<char>, Seq<char>)>,
    i: int,
    pos: int,
)
    requires
        chained(text, spans),
        0 <= i <= spans.len(),
        0 <= pos <= byte_len(text),
        on_boundary(text, pos),
        i < spans.len() ==> pos <= spans[i].start,
        forall|k: int| i <= k < spans.len() ==> lookup(values, (#[trigger] spans[k]).key) is None,
    ensures
        render_from(text, spans, values, i, pos) == text_between(text, pos, byte_len(text) as int),
    decreases spans.len() - i,
{
    if i < spans.len() {
        let s = spans[i];
        lemma_text_between_ends(text);
        if i + 1 < spans.len() {
            assert(spans[i].end <= spans[i + 1].start);
        }
        lemma_render_without_values(text, spans, values, i + 1, s.end);
        lemma_text_between_join(text, pos, s.start, s.end);
        lemma_text_between_join(text, pos, s.end, byte_len(text) as int);
        assert(render_from(text, spans, values, i, pos) == text_between(text, pos, s.start)
            + text_between(text, s.start, s.end) + text_between(
            text,
            s.end,
            byte_len(text) as int,
        ));
    }
}

/// A template gives its own text back when no value is given for any of its
/// placeholders.
pub proof fn lemma_render_nothing(m: TemplateModel, values: Seq<(Seq<char>, Seq<char>)>)
    requires
        well_formed(m),
        forall|k: int| 0 <= k < m.spans.len() ==> lookup(values, (#[trigger] m.spans[k]).key) is None,
    ensures
        render(m, values) == m.text,
{
    let sorted = sorted_by_start(m.spans);
    lemma_sorted_keeps_members(m.spans);
    lemma_text_between_ends(m.text);
    assert forall|k: int| 0 <= k < sorted.len() implies lookup(
        values,
        (#[trigger] sorted[k]).key,
    ) is None by {
        let j = choose|j: int| 0 <= j < m.spans.len() && m.spans[j] == sorted[k];
        assert(lookup(values, m.spans[j].key) is None);
    }
    lemma_render_without_values(m.text, sorted, values, 0, 0);
}

/// Sorting keeps the number of placeholders, and each placeholder of the
/// sorted list is one of the given list.
pub proof fn lemma_sorted_keeps_members(spans: Seq<SpanModel>)
    ensures
        sorted_by_start(spans).len() == spans.len(),
        forall|k: int|
            0 <= k < spans.len() ==> exists|j: int|
                0 <= j < spans.len() && spans[j] == #[trigger] sorted_by_start(spans)[k],
    decreases spans.len(),
{
    if spans.len() > 0 {
        let front = spans.drop_last();
        let sorted_front = sorted_by_start(front);
        lemma_sorted_keeps_members(front);
        lemma_insert_keeps_members(sorted_front, spans.last());
        let sorted = sorted_by_start(spans);
        assert forall|k: int| 0 <= k < spans.len() implies exists|j: int|
            0 <= j < spans.len() && spans[j] == #[trigger] sorted[k] by {
            if sorted[k] == spans.last() {
                assert(spans[spans.len() - 1] == sorted[k]);
            } else {
                let q = choose|q: int| 0 <= q < sorted_front.len() && sorted_front[q] == sorted[k];
                let j = choose|j: int| 0 <= j < front.len() && front[j] == sorted_front[q];
                assert(spans[j] == sorted[k]);
            }
        }
    }
}

/// Inserting adds one placeholder, and each placeholder of the result is the
/// new one or one that was there.
pub proof fn lemma_insert_keeps_members(s: Seq<SpanModel>, x: SpanModel)
    ensures
        insert_by_start(s, x).len() == s.len() + 1,
        forall|k: int|
            0 <= k <= s.len() ==> (#[trigger] insert_by_start(s, x)[k]) == x || exists|q: int|
                0 <= q < s.len() && s[q] == insert_by_start(s, x)[k],
    decreases s.len(),
{
    let r = insert_by_start(s, x);
    if s.len() == 0 {
    } else if s.last().start <= x.start {
        assert forall|k: int| 0 <= k <= s.len() implies (#[trigger] r[k]) == x || exists|q: int|
            0 <= q < s.len() && s[q] == r[k] by {
            if k < s.len() {
                assert(s[k] == r[k]);
            }
        }
    } else {
        let front = s.drop_last();
        lemma_insert_keeps_members(front, x);
        let rf = insert_by_start(front, x);
        assert forall|k: int| 0 <= k <= s.len() implies (#[trigger] r[k]) == x || exists|q: int|
            0 <= q < s.len() && s[q] == r[k] by {
            if k == s.len() {
                assert(s[s.len() - 1] == r[k]);
            } else {
                assert(r[k] == rf[k]);
                if rf[k] != x {
                    let q = choose|q: int| 0 <= q < front.len() && front[q] == rf[k];
                    assert(s[q] == r[k]);
                }
            }
        }
    }
}


/// A chained list stays chained when a placeholder that ends at or before
/// the start of its first one is put in front.
pub proof fn lemma_chained_prepend(text: Seq<char>, x: SpanModel, spans: Seq<SpanModel>)
    requires
        chained(text, spans),
        0 <= x.start <= x.end <= byte_len(text),
        on_boundary(text, x.start),
        on_boundary(text, x.end),
        spans.len() > 0 ==> x.end <= spans[0].start,
    ensures
        chained(text, seq![x] + spans),
{
    let next = seq![x] + spans;
    assert forall|i: int| 0 <= i < next.len() implies {
        &&& 0 <= (#[trigger] next[i]).start <= next[i].end <= byte_len(text)
        &&& on_boundary(text, next[i].start)
        &&& on_boundary(text, next[i].end)
    } by {
        if i > 0 {
            assert(next[i] == spans[i - 1]);
        }
    }
    assert forall|i: int, j: int| 0 <= i && j == i + 1 && j < next.len() implies (
    #[trigger] next[i]).end <= (#[trigger] next[j]).start by {
        assert(next[j] == spans[j - 1]);
        if i > 0 {
            assert(next[i] == spans[i - 1]);
        }
    }
}

/// The placeholders that a scan finds from offset `i` on are chained, and
/// none of them starts before the pending brace, or before `i` where no
/// brace is pending.
pub proof fn lemma_scan_from_chained(text: Seq<char>, i: int, pending: Option<int>)
    requires
        0 <= i <= byte_len(text),
        pending matches Some(p) ==> 0 <= p < i && encode_utf8(text)[p] == OPEN_BRACE,
        scan_from(encode_utf8(text), i, pending) is Ok,
    ensures
        chained(text, scan_from(encode_utf8(text), i, pending)->Ok_0),
        scan_from(encode_utf8(text), i, pending)->Ok_0.len() > 0 ==> scan_from(
            encode_utf8(text),
            i,
            pending,
        )->Ok_0[0].start >= (match pending {
            Some(p) => p,
            None => i,
        }),
    decreases byte_len(text) - i,
{
    let bytes = encode_utf8(text);
    encode_utf8_valid_utf8(text);
    if i < bytes.len() {
        if bytes[i] == OPEN_BRACE {
            if pending == Some(i - 1) {
                lemma_scan_from_chained(text, i + 1, None);
            } else {
                lemma_scan_from_chained(text, i + 1, Some(i));
            }
        } else if bytes[i] == CLOSE_BRACE && pending is Some {
            let p = pending->0;
            let key = decode_utf8(bytes.subrange(p + 1, i));
            let rest = scan_from(bytes, i + 1, None);
            lemma_scan_from_chained(text, i + 1, None);
            lemma_boundary_by_byte(bytes, p);
            lemma_boundary_by_byte(bytes, i);
            lemma_boundary_after_ascii(bytes, i);
            let x = SpanModel { key, start: p, end: i + 1 };
            lemma_chained_prepend(text, x, rest->Ok_0);
            assert((seq![x] + rest->Ok_0)[0] == x);
        } else {
            lemma_scan_from_chained(text, i + 1, pending);
        }
    }
}

/// The placeholders that a text is scanned into make a well-formed
/// template of it.
pub proof fn lemma_scan_well_formed(text: Seq<char>)
    requires
        scan(text) is Ok,
    ensures
        well_formed(TemplateModel { text, spans: scan(text)->Ok_0 }),
{
    lemma_scan_from_chained(text, 0, None);
    lemma_chained_is_sorted(text, scan(text)->Ok_0);
}

/// Round trip: a text that is a template renders as itself when no values
/// are given.
pub proof fn lemma_round_trip(text: Seq<char>)
    requires
        scan(text) is Ok,
    ensures
        render(TemplateModel { text, spans: scan(text)->Ok_0 }, Seq::empty()) == text,
{
    lemma_scan_well_formed(text);
    lemma_render_nothing(TemplateModel { text, spans: scan(text)->Ok_0 }, Seq::empty());
}


impl core::str::FromStr for TemplatedString {
    type Err = TemplateParseError;

    /// Reads a template out of `s`, as [`TemplatedString::from_str`] does.
    fn from_str(s: &str) -> (r: Result<Self, TemplateParseError>)
        ensures
            match scan(s@) {
                Ok(spans) => r matches Ok(t) && t@ == (TemplateModel { text: s@, spans }),
                Err(fault) => r matches Err(e) && e@ == fault,
            },
    {
        TemplatedString::from_str(s)
    }
}

} // verus!
