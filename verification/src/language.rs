//! Reading a language out of text, and what to suggest when the text names
//! none.

use crate::catalog::{catalog, lemma_catalog_complete, Language};
use crate::text::{
    chars_of, closest_to, contains_text, eq_ignore_ascii_case, nearest, occurs_in, opt_text,
    push_all, same_ignoring_ascii_case, texts,
};
use vstd::prelude::*;
use vstd::string::*;

verus! {

/// What a failed attempt to read a language holds.
pub ghost struct LanguageErrorModel {
    pub attempt: Seq<char>,
    pub closest: Option<Seq<char>>,
}

/// What a failed attempt to read a language says, in words.
pub open spec fn language_message(e: LanguageErrorModel) -> Seq<char> {
    seq!['"'] + e.attempt + "\" is not a valid language"@ + (match e.closest {
        Some(closest) => ", perhaps you meant \""@ + closest + "\"?"@,
        None => seq!['.'],
    })
}

/// A text that names no language, with the nearest spelling that does.
#[derive(Debug)]
pub struct LanguageError {
    attempt: String,
    closest: Option<String>,
}

impl View for LanguageError {
    type V = LanguageErrorModel;

    closed spec fn view(&self) -> LanguageErrorModel {
        LanguageErrorModel { attempt: self.attempt@, closest: opt_text(self.closest) }
    }
}

impl Clone for LanguageError {
    fn clone(&self) -> (r: Self)
        ensures
            r@ == self@,
    {
        let closest = match &self.closest {
            Some(s) => Some(s.clone()),
            None => None,
        };
        Self { attempt: self.attempt.clone(), closest }
    }
}

impl LanguageError {
    /// An error for the text `attempt`, with an optional suggestion.
    pub fn from_data(attempt: String, closest: Option<String>) -> (e: Self)
        ensures
            e@ == (LanguageErrorModel { attempt: attempt@, closest: opt_text(closest) }),
    {
        Self { attempt, closest }
    }

    /// The text that was tried.
    pub fn attempt(&self) -> (r: &str)
        ensures
            r@ == self@.attempt,
    {
        self.attempt.as_str()
    }

    /// What the error says, in words.
    pub fn message(&self) -> (r: String)
        ensures
            r@ == language_message(self@),
    {
        proof {
            reveal_strlit("\"");
            reveal_strlit(".");
            assert("\""@ =~= seq!['"']);
            assert("."@ =~= seq!['.']);
        }
        let mut r = "\"".to_owned();
        r.append(self.attempt.as_str());
        r.append("\" is not a valid language");
        match &self.closest {
            Some(closest) => {
                r.append(", perhaps you meant \"");
                r.append(closest.as_str());
                r.append("\"?");
            },
            None => {
                r.append(".");
            },
        }
        r
    }

    /// The nearest spelling that names a language, if there is any.
    pub fn closest(&self) -> (r: Option<&String>)
        ensures
            match r {
                Some(s) => self@.closest == Some(s@),
                None => self@.closest is None,
            },
    {
        self.closest.as_ref()
    }
}

/// The spellings of the first `n` languages of the catalog, language by
/// language.
pub open spec fn idents_upto(n: int) -> Seq<Seq<char>>
    decreases n,
{
    if n <= 0 {
        Seq::empty()
    } else {
        idents_upto(n - 1) + catalog()[n - 1].idents()
    }
}

/// Every spelling that names a language.
pub open spec fn all_idents() -> Seq<Seq<char>> {
    idents_upto(catalog().len() as int)
}

/// The first language of the catalog, from position `from` on, that answers
/// to `text`.
pub open spec fn first_answering(text: Seq<char>, from: int) -> Option<Language>
    decreases catalog().len() - from,
{
    if from < 0 || from >= catalog().len() {
        None
    } else if catalog()[from].answers_to(text) {
        Some(catalog()[from])
    } else {
        first_answering(text, from + 1)
    }
}

impl Language {
    /// The spellings that name the language: its other spellings, its
    /// English name and its code.
    pub open spec fn idents(self) -> Seq<Seq<char>> {
        self.alternatives_text().push(self.name_text()).push(self.code_text())
    }

    /// Whether `text` is one of the spellings of the language, up to the
    /// case of ASCII letters.
    pub open spec fn answers_to(self, text: Seq<char>) -> bool {
        exists|i: int|
            0 <= i < self.idents().len() && same_ignoring_ascii_case(
                #[trigger] self.idents()[i],
                text,
            )
    }

    /// The spellings that name the language: its other spellings, its
    /// English name and its code.
    pub fn possible_idents(&self) -> (r: Vec<String>)
        ensures
            texts(r@) == self.idents(),
    {
        let alts = self.alternatives();
        let mut r: Vec<String> = Vec::new();
        let mut i: usize = 0;
        proof {
            assert(texts(r@) =~= self.alternatives_text().take(0));
        }
        while i < alts.len()
            invariant
                i <= alts@.len(),
                alts@.len() == self.alternatives_text().len(),
                forall|j: int|
                    0 <= j < alts@.len() ==> (#[trigger] alts@[j])@ == self.alternatives_text()[j],
                texts(r@) == self.alternatives_text().take(i as int),
            decreases alts.len() - i,
        {
            let ghost before = texts(r@);
            r.push(alts[i].to_owned());
            proof {
                assert(texts(r@) =~= before.push(alts@[i as int]@));
                assert(self.alternatives_text().take(i + 1) =~= self.alternatives_text().take(
                    i as int,
                ).push(self.alternatives_text()[i as int]));
            }
            i += 1;
        }
        let ghost before = texts(r@);
        proof {
            assert(self.alternatives_text().take(i as int) =~= self.alternatives_text());
        }
        r.push(self.name().to_owned());
        r.push(self.code().to_owned());
        proof {
            assert(texts(r@) =~= before.push(self.name_text()).push(self.code_text()));
        }
        r
    }

    /// What is shown for the language: its English name.
    pub fn display(&self) -> (r: String)
        ensures
            r@ == self.name_text(),
    {
        self.name().to_owned()
    }

    /// The spelling nearest to `attempt` by edit distance, among all that
    /// name a language.
    pub fn close_to(attempt: &str) -> (r: Option<String>)
        ensures
            opt_text(r) == nearest(attempt@, all_idents()),
    {
        let langs = Language::all();
        let mut candidates: Vec<String> = Vec::new();
        let mut k: usize = 0;
        proof {
            assert(texts(candidates@) =~= idents_upto(0));
        }
        while k < langs.len()
            invariant
                langs@ == catalog(),
                k <= langs@.len(),
                texts(candidates@) == idents_upto(k as int),
            decreases langs.len() - k,
        {
            let idents = langs[k].possible_idents();
            push_all(&mut candidates, &idents);
            k += 1;
        }
        closest_to(attempt, &candidates)
    }

    /// Reads a language out of `s`.
    ///
    /// The text may be a code, an English name or another spelling, in any
    /// case of its ASCII letters; the first language of the catalog that
    /// answers to it is returned. A text that names none gives an error that
    /// holds the text and the nearest spelling that names one.
    pub fn from_str(s: &str) -> (r: Result<Language, LanguageError>)
        ensures
            match first_answering(s@, 0) {
                Some(l) => r matches Ok(found) && found == l,
                None => r matches Err(e) && e@ == (LanguageErrorModel {
                    attempt: s@,
                    closest: nearest(s@, all_idents()),
                }),
            },
    {
        let wanted = chars_of(s);
        let langs = Language::all();
        let mut k: usize = 0;
        while k < langs.len()
            invariant
                langs@ == catalog(),
                wanted@ == s@,
                k <= langs@.len(),
                first_answering(s@, 0) == first_answering(s@, k as int),
            decreases langs.len() - k,
        {
            let idents = langs[k].possible_idents();
            let mut m: usize = 0;
            while m < idents.len()
                invariant
                    langs@ == catalog(),
                    wanted@ == s@,
                    k < langs@.len(),
                    first_answering(s@, 0) == first_answering(s@, k as int),
                    texts(idents@) == langs@[k as int].idents(),
                    m <= idents@.len(),
                    forall|q: int|
                        0 <= q < m ==> !same_ignoring_ascii_case(
                            #[trigger] langs@[k as int].idents()[q],
                            s@,
                        ),
                decreases idents.len() - m,
            {
                let spelling = chars_of(idents[m].as_str());
                proof {
                    assert(texts(idents@)[m as int] == idents@[m as int]@);
                }
                if eq_ignore_ascii_case(&spelling, &wanted) {
                    proof {
                        assert(texts(idents@).len() == idents@.len());
                        assert(same_ignoring_ascii_case(langs@[k as int].idents()[m as int], s@));
                        assert(catalog()[k as int].answers_to(s@));
                    }
                    return Ok(langs[k]);
                }
                m += 1;
            }
            proof {
                assert(texts(idents@).len() == idents@.len());
                assert(!langs@[k as int].answers_to(s@));
            }
            k += 1;
        }
        Err(LanguageError { attempt: s.to_owned(), closest: Language::close_to(s) })
    }
}

/// Reads a language that is written out in full, as a code or a name.
pub fn load_lang_static(lang: &str) -> (r: Result<Language, LanguageError>)
    ensures
        match first_answering(lang@, 0) {
            Some(l) => r matches Ok(found) && found == l,
            None => r matches Err(e) && e@ == (LanguageErrorModel {
                attempt: lang@,
                closest: nearest(lang@, all_idents()),
            }),
        },
{
    Language::from_str(lang)
}


/// Some of the items that resemble a given one, and how many more there
/// are.
#[derive(Debug)]
pub struct Similarities<T> {
    overflow_by: usize,
    similarities: Vec<T>,
}

impl<T> Similarities<T> {
    /// How many items were left out.
    pub closed spec fn overflow(&self) -> nat {
        self.overflow_by as nat
    }

    /// The items that were kept.
    pub closed spec fn items(&self) -> Seq<T> {
        self.similarities@
    }

    /// How many items were left out.
    pub fn overflow_by(&self) -> (r: usize)
        ensures
            r == self.overflow(),
    {
        self.overflow_by
    }

    /// The items that were kept.
    pub fn similarities(&self) -> (r: &[T])
        ensures
            r@ == self.items(),
    {
        self.similarities.as_slice()
    }
}

/// The labels of the first `n` languages of the catalog in which `lang`
/// occurs, in the order of the catalog.
pub open spec fn labels_with(lang: Seq<char>, n: int) -> Seq<Seq<char>>
    decreases n,
{
    if n <= 0 || n > catalog().len() {
        Seq::empty()
    } else {
        let before = labels_with(lang, n - 1);
        if occurs_in(catalog()[n - 1].label_text(), lang) {
            before.push(catalog()[n - 1].label_text())
        } else {
            before
        }
    }
}

impl Language {
    /// How a language is listed: its English name, and its code in upper
    /// case between brackets.
    pub open spec fn label_text(self) -> Seq<char> {
        self.name_text() + seq![' ', '('] + self.tag_text() + seq![')']
    }

    /// How a language is listed: its English name, and its code in upper
    /// case between brackets.
    pub fn label(&self) -> (r: String)
        ensures
            r@ == self.label_text(),
    {
        proof {
            reveal_strlit(" (");
            reveal_strlit(")");
            assert(" ("@ =~= seq![' ', '(']);
            assert(")"@ =~= seq![')']);
        }
        let mut r = self.name().to_owned();
        r.append(" (");
        r.append(self.tag());
        r.append(")");
        r
    }

    /// The languages in whose label `lang` occurs, as it is written: at
    /// most `max_amount` of them, the first of the catalog, with the number
    /// of those left out.
    pub fn get_similarities(lang: &str, max_amount: usize) -> (r: Similarities<String>)
        ensures
            ({
                let all = labels_with(lang@, catalog().len() as int);
                if all.len() > max_amount {
                    texts(r.items()) == all.take(max_amount as int) && r.overflow() == all.len()
                        - max_amount
                } else {
                    texts(r.items()) == all && r.overflow() == 0
                }
            }),
    {
        let wanted = chars_of(lang);
        let langs = Language::all();
        let mut kept: Vec<String> = Vec::new();
        let mut overflow_by: usize = 0;
        let mut k: usize = 0;
        proof {
            assert(texts(kept@) =~= labels_with(lang@, 0));
        }
        while k < langs.len()
            invariant
                langs@ == catalog(),
                wanted@ == lang@,
                k <= langs@.len(),
                overflow_by <= k,
                ({
                    let all = labels_with(lang@, k as int);
                    if all.len() > max_amount {
                        texts(kept@) == all.take(max_amount as int) && overflow_by == all.len()
                            - max_amount
                    } else {
                        texts(kept@) == all && overflow_by == 0
                    }
                }),
            decreases langs.len() - k,
        {
            let label = langs[k].label();
            let ghost before = labels_with(lang@, k as int);
            let ghost kept_before = texts(kept@);
            let hay = chars_of(label.as_str());
            if contains_text(&hay, &wanted) {
                let ghost after = before.push(label@);
                if kept.len() < max_amount {
                    kept.push(label);
                    proof {
                        assert(texts(kept@) =~= kept_before.push(after.last()));
                        assert(texts(kept@) =~= after);
                        if after.len() > max_amount {
                            assert(after.take(max_amount as int) =~= after);
                        }
                    }
                } else {
                    overflow_by = overflow_by + 1;
                    proof {
                        if before.len() > max_amount {
                            assert(after.take(max_amount as int) =~= before.take(
                                max_amount as int,
                            ));
                        } else {
                            assert(after.take(max_amount as int) =~= before);
                        }
                    }
                }
            }
            k += 1;
        }
        Similarities { overflow_by, similarities: kept }
    }
}


/// Where a language of the catalog at or after position `from` answers to
/// `text`, one is found.
pub proof fn lemma_first_answering_from(text: Seq<char>, from: int, k: int)
    requires
        0 <= from <= k < catalog().len(),
        catalog()[k].answers_to(text),
    ensures
        first_answering(text, from) is Some,
    decreases k - from,
{
    if from < k && !catalog()[from].answers_to(text) {
        lemma_first_answering_from(text, from + 1, k);
    }
}

/// What is found answers to the text.
pub proof fn lemma_first_answering_answers(text: Seq<char>, from: int)
    requires
        0 <= from,
        first_answering(text, from) is Some,
    ensures
        first_answering(text, from)->0.answers_to(text),
    decreases catalog().len() - from,
{
    if from < catalog().len() && !catalog()[from].answers_to(text) {
        lemma_first_answering_answers(text, from + 1);
    }
}

/// A text names a language exactly when some language answers to it: no
/// language is missing from the catalog.
pub proof fn lemma_named_when_answered(text: Seq<char>)
    ensures
        first_answering(text, 0) is Some <==> exists|language: Language|
            language.answers_to(text),
{
    if first_answering(text, 0) is Some {
        lemma_first_answering_answers(text, 0);
    }
    if exists|language: Language| language.answers_to(text) {
        let language = choose|language: Language| language.answers_to(text);
        lemma_catalog_complete(language);
        lemma_first_answering_from(text, 0, language.ordinal());
    }
}

/// Every spelling of a language names a language, in whatever case its
/// ASCII letters are written.
pub proof fn lemma_spellings_are_named(language: Language, i: int, text: Seq<char>)
    requires
        0 <= i < language.idents().len(),
        same_ignoring_ascii_case(language.idents()[i], text),
    ensures
        first_answering(text, 0) is Some,
{
    assert(language.answers_to(text));
    lemma_named_when_answered(text);
}


impl core::str::FromStr for Language {
    type Err = LanguageError;

    /// Reads a language out of `s`, as [`Language::from_str`] does.
    fn from_str(s: &str) -> (r: Result<Self, LanguageError>)
        ensures
            match first_answering(s@, 0) {
                Some(l) => r matches Ok(found) && found == l,
                None => r matches Err(e) && e@ == (LanguageErrorModel {
                    attempt: s@,
                    closest: nearest(s@, all_idents()),
                }),
            },
    {
        Language::from_str(s)
    }
}

} // verus!
