//! The translation tree: namespaces that hold namespaces or translations,
//! with a branch that could not be read kept in its place as an error.

use crate::catalog::Language;
use crate::document::{parse_toml, parsed_toml, Document, ParseFailure};
use crate::error::{FileErrorModel, FileRelatedError};
use crate::language::{all_idents, first_answering, LanguageError, LanguageErrorModel};
use crate::location::{locate_or_zero, FileLocation};
use crate::template::{
    pairs, render, scan, well_formed, TemplateFault, TemplateModel, TemplateParseError,
    TemplatedString,
};
use crate::text::{closest_to, nearest, opt_text, same_text, texts};
use vstd::prelude::*;
use vstd::string::*;
use vstd::utf8::*;

verus! {

/// Why a branch of the tree could not be read.
#[derive(Debug)]
pub enum TranslationTreeErrorDescription {
    /// A namespace holds something that is neither a namespace nor a
    /// translation.
    InvalidValueInNesting,
    /// A string stands where only namespaces are expected.
    InvalidValueInTranslation,
    /// A table is empty, so it is neither a namespace nor a translation.
    EmptyTable,
    /// A key of a translation names no language.
    InvalidLanguageKey(LanguageError),
    /// The file of the branch could not be read.
    IoError(String),
    /// The text of the branch is not TOML.
    TomlError(String),
    /// A string of a translation is not a template.
    TemplateError(TemplateParseError),
}

/// Why a branch of the tree could not be read, as a mathematical value.
pub ghost enum TreeFault {
    InvalidValueInNesting,
    InvalidValueInTranslation,
    EmptyTable,
    InvalidLanguageKey(LanguageErrorModel),
    IoError(Seq<char>),
    TomlError(Seq<char>),
    TemplateError(TemplateFault),
}

impl View for TranslationTreeErrorDescription {
    type V = TreeFault;

    open spec fn view(&self) -> TreeFault {
        match self {
            TranslationTreeErrorDescription::InvalidValueInNesting => {
                TreeFault::InvalidValueInNesting
            },
            TranslationTreeErrorDescription::InvalidValueInTranslation => {
                TreeFault::InvalidValueInTranslation
            },
            TranslationTreeErrorDescription::EmptyTable => TreeFault::EmptyTable,
            TranslationTreeErrorDescription::InvalidLanguageKey(e) => TreeFault::InvalidLanguageKey(
                e@,
            ),
            TranslationTreeErrorDescription::IoError(m) => TreeFault::IoError(m@),
            TranslationTreeErrorDescription::TomlError(m) => TreeFault::TomlError(m@),
            TranslationTreeErrorDescription::TemplateError(e) => TreeFault::TemplateError(e@),
        }
    }
}

impl Clone for TranslationTreeErrorDescription {
    fn clone(&self) -> (r: Self)
        ensures
            r@ == self@,
    {
        match self {
            TranslationTreeErrorDescription::InvalidValueInNesting => {
                TranslationTreeErrorDescription::InvalidValueInNesting
            },
            TranslationTreeErrorDescription::InvalidValueInTranslation => {
                TranslationTreeErrorDescription::InvalidValueInTranslation
            },
            TranslationTreeErrorDescription::EmptyTable => {
                TranslationTreeErrorDescription::EmptyTable
            },
            TranslationTreeErrorDescription::InvalidLanguageKey(e) => {
                TranslationTreeErrorDescription::InvalidLanguageKey(e.clone())
            },
            TranslationTreeErrorDescription::IoError(m) => TranslationTreeErrorDescription::IoError(
                m.clone(),
            ),
            TranslationTreeErrorDescription::TomlError(m) => {
                TranslationTreeErrorDescription::TomlError(m.clone())
            },
            TranslationTreeErrorDescription::TemplateError(e) => {
                TranslationTreeErrorDescription::TemplateError(e.clone())
            },
        }
    }
}

/// The error kept in the place of a branch that could not be read.
pub type TranslationTreeParseError = FileRelatedError<TranslationTreeErrorDescription>;

/// A copy of a branch error.
pub fn copy_of_error(e: &TranslationTreeParseError) -> (r: TranslationTreeParseError)
    ensures
        r@ == e@,
{
    let file_path = match e.file_path() {
        Some(p) => Some(p.clone()),
        None => None,
    };
    FileRelatedError::from_data(e.description().clone(), file_path, *e.at_character())
}

/// What a translation holds: its languages, each with its template, in the
/// order in which they were added.
pub type TranslationModel = Seq<(Language, TemplateModel)>;

/// What a tree is.
pub ghost enum TreeModel {
    /// A namespace: named branches, in the order in which they were added.
    Nesting(Seq<(Seq<char>, TreeModel)>),
    /// A translation.
    Translation(TranslationModel),
    /// A branch that could not be read.
    NestingError(FileErrorModel<TreeFault>),
}

/// The position of the first of the first `n` keys that equals `key`.
pub open spec fn first_in<K>(keys: Seq<K>, key: K, n: int) -> Option<int>
    decreases n,
{
    if n <= 0 {
        None
    } else {
        match first_in(keys, key, n - 1) {
            Some(i) => Some(i),
            None => if keys[n - 1] == key {
                Some(n - 1)
            } else {
                None
            },
        }
    }
}

/// The position of the first key that equals `key`.
pub open spec fn position<K>(keys: Seq<K>, key: K) -> Option<int> {
    first_in(keys, key, keys.len() as int)
}

/// What [`first_in`] finds is the first position that holds the key, and
/// it finds nothing only where no position holds it.
pub proof fn lemma_first_in<K>(keys: Seq<K>, key: K, n: int)
    requires
        0 <= n <= keys.len(),
    ensures
        match first_in(keys, key, n) {
            Some(i) => 0 <= i < n && keys[i] == key && forall|j: int|
                0 <= j < i ==> keys[j] != key,
            None => forall|j: int| 0 <= j < n ==> keys[j] != key,
        },
    decreases n,
{
    if n > 0 {
        lemma_first_in(keys, key, n - 1);
    }
}

/// Once [`first_in`] has found a position it keeps to it.
pub proof fn lemma_first_in_stays<K>(keys: Seq<K>, key: K, n: int, m: int)
    requires
        0 <= n <= m,
        first_in(keys, key, n) is Some,
    ensures
        first_in(keys, key, m) == first_in(keys, key, n),
    decreases m - n,
{
    if n < m {
        lemma_first_in_stays(keys, key, n, m - 1);
    }
}

/// No key stands twice in `keys`.
pub open spec fn distinct<K>(keys: Seq<K>) -> bool {
    forall|i: int, j: int| 0 <= i < j < keys.len() ==> keys[i] != keys[j]
}

/// The languages of a translation.
pub open spec fn languages_of(t: TranslationModel) -> Seq<Language> {
    t.map_values(|e: (Language, TemplateModel)| e.0)
}

/// The names of the branches of a namespace.
pub open spec fn names_of(children: Seq<(Seq<char>, TreeModel)>) -> Seq<Seq<char>> {
    children.map_values(|c: (Seq<char>, TreeModel)| c.0)
}

/// The template that a translation holds for `lang`.
pub open spec fn template_for(t: TranslationModel, lang: Language) -> Option<TemplateModel> {
    match position(languages_of(t), lang) {
        Some(i) => Some(t[i].1),
        None => None,
    }
}

/// The branch that a namespace holds under `name`.
pub open spec fn child_of(children: Seq<(Seq<char>, TreeModel)>, name: Seq<char>) -> Option<
    TreeModel,
> {
    match position(names_of(children), name) {
        Some(i) => Some(children[i].1),
        None => None,
    }
}

/// `t` with `template` as the template of `lang`: in the place of the one
/// it had, or at the end where it had none.
pub open spec fn with_language(
    t: TranslationModel,
    lang: Language,
    template: TemplateModel,
) -> TranslationModel {
    match position(languages_of(t), lang) {
        Some(i) => t.update(i, (lang, template)),
        None => t.push((lang, template)),
    }
}

/// `children` with `node` as the branch named `name`: in the place of the
/// one that had the name, or at the end where none had it.
pub open spec fn with_child(
    children: Seq<(Seq<char>, TreeModel)>,
    name: Seq<char>,
    node: TreeModel,
) -> Seq<(Seq<char>, TreeModel)> {
    match position(names_of(children), name) {
        Some(i) => children.update(i, (name, node)),
        None => children.push((name, node)),
    }
}

/// No language stands twice in a translation, and each of its templates is
/// well formed.
pub open spec fn translation_wf(t: TranslationModel) -> bool {
    &&& distinct(languages_of(t))
    &&& forall|i: int| 0 <= i < t.len() ==> well_formed((#[trigger] t[i]).1)
}

/// No name stands twice in a namespace, and every translation below is
/// well formed.
pub open spec fn tree_wf(m: TreeModel) -> bool
    decreases m,
{
    match m {
        TreeModel::Nesting(children) => {
            &&& distinct(names_of(children))
            &&& forall|i: int|
                0 <= i < children.len() ==> tree_wf((#[trigger] children[i]).1)
        },
        TreeModel::Translation(t) => translation_wf(t),
        TreeModel::NestingError(_) => true,
    }
}

/// A translation: one template for each of the languages it has.
#[derive(Debug)]
pub struct Translation(Vec<(Language, TemplatedString)>);

impl View for Translation {
    type V = TranslationModel;

    closed spec fn view(&self) -> TranslationModel {
        self.0@.map_values(|e: (Language, TemplatedString)| (e.0, e.1@))
    }
}

/// A tree of translations.
#[non_exhaustive]
#[derive(Debug)]
pub enum TranslationTree {
    /// A namespace: named branches.
    Nesting(Vec<(String, TranslationTree)>),
    /// A translation.
    Translation(Translation),
    /// A branch that could not be read, with the reason.
    NestingError(TranslationTreeParseError),
}

/// What a tree is: the model of each branch under its name.
pub open spec fn model_of(t: TranslationTree) -> TreeModel
    decreases t,
{
    match t {
        TranslationTree::Nesting(children) => TreeModel::Nesting(
            models_upto(children@, children@.len() as int),
        ),
        TranslationTree::Translation(translation) => TreeModel::Translation(translation@),
        TranslationTree::NestingError(e) => TreeModel::NestingError(e@),
    }
}

/// The models of the first `n` branches of a namespace.
pub open spec fn models_upto(children: Seq<(String, TranslationTree)>, n: int) -> Seq<
    (Seq<char>, TreeModel),
>
    decreases children, n,
{
    if n <= 0 || n > children.len() {
        Seq::empty()
    } else {
        models_upto(children, n - 1).push((children[n - 1].0@, model_of(children[n - 1].1)))
    }
}

impl View for TranslationTree {
    type V = TreeModel;

    open spec fn view(&self) -> TreeModel {
        model_of(*self)
    }
}

/// The models of the branches of a namespace.
pub open spec fn children_model(children: Seq<(String, TranslationTree)>) -> Seq<
    (Seq<char>, TreeModel),
> {
    models_upto(children, children.len() as int)
}

/// [`models_upto`] holds one model for each of the first `n` branches.
pub proof fn lemma_models_upto(children: Seq<(String, TranslationTree)>, n: int)
    requires
        0 <= n <= children.len(),
    ensures
        models_upto(children, n).len() == n,
        forall|i: int|
            0 <= i < n ==> (#[trigger] models_upto(children, n)[i]) == (
                children[i].0@,
                children[i].1@,
            ),
    decreases n,
{
    if n > 0 {
        lemma_models_upto(children, n - 1);
    }
}

/// The models of the branches stand in the order of the branches.
pub proof fn lemma_children_model(children: Seq<(String, TranslationTree)>)
    ensures
        children_model(children).len() == children.len(),
        forall|i: int|
            0 <= i < children.len() ==> (#[trigger] children_model(children)[i]) == (
                children[i].0@,
                children[i].1@,
            ),
{
    lemma_models_upto(children, children.len() as int);
}

/// What a list of languages and templates adds up to when its first `n`
/// entries are put into a translation one after the other: a later entry
/// takes the place of an earlier one for the same language.
pub open spec fn collected(entries: TranslationModel, n: int) -> TranslationModel
    decreases n,
{
    if n <= 0 || n > entries.len() {
        TranslationModel::empty()
    } else {
        with_language(collected(entries, n - 1), entries[n - 1].0, entries[n - 1].1)
    }
}

impl Translation {
    /// Whether no language stands twice and every template is well formed.
    /// The translations that this library makes are so.
    pub open spec fn wf(&self) -> bool {
        translation_wf(self@)
    }

    /// A translation without any language.
    pub fn empty() -> (t: Self)
        ensures
            t@ == TranslationModel::empty(),
            t.wf(),
    {
        let t = Self(Vec::new());
        proof {
            assert(t@ =~= TranslationModel::empty());
        }
        t
    }

    /// A translation made of the given languages and templates, where a
    /// later template takes the place of an earlier one for the same
    /// language.
    pub fn from_data(raw: Vec<(Language, TemplatedString)>) -> (t: Self)
        ensures
            t@ == collected(
                raw@.map_values(|e: (Language, TemplatedString)| (e.0, e.1@)),
                raw@.len() as int,
            ),
            t.wf(),
    {
        let ghost all = raw@.map_values(|e: (Language, TemplatedString)| (e.0, e.1@));
        let mut rest = raw;
        let mut t = Self::empty();
        proof {
            assert(all.skip(0) =~= all);
        }
        while rest.len() > 0
            invariant
                rest@.len() <= all.len(),
                rest@.map_values(|e: (Language, TemplatedString)| (e.0, e.1@)) == all.skip(
                    all.len() - rest@.len(),
                ),
                t@ == collected(all, all.len() - rest@.len()),
                t.wf(),
            decreases rest.len(),
        {
            let ghost done = all.len() - rest@.len();
            let ghost before = rest@.map_values(|e: (Language, TemplatedString)| (e.0, e.1@));
            let (language, template) = rest.remove(0);
            proof {
                assert((language, template@) == before[0]);
                assert(before[0] == all[done]);
                assert(rest@.map_values(|e: (Language, TemplatedString)| (e.0, e.1@))
                    =~= before.remove(0));
                assert(before.remove(0) =~= all.skip(done + 1));
            }
            t.insert(language, template);
        }
        t
    }

    /// The languages that the translation has, in the order in which they
    /// were added.
    pub fn available_languages(&self) -> (r: Vec<Language>)
        ensures
            r@ == languages_of(self@),
    {
        let mut r: Vec<Language> = Vec::new();
        let mut i: usize = 0;
        while i < self.0.len()
            invariant
                i <= self.0@.len(),
                r@ == languages_of(self@).take(i as int),
            decreases self.0.len() - i,
        {
            r.push(self.0[i].0);
            proof {
                assert(r@ =~= languages_of(self@).take(i + 1));
            }
            i += 1;
        }
        proof {
            assert(r@ =~= languages_of(self@));
        }
        r
    }

    /// The position of `lang` among the languages.
    fn find(&self, lang: Language) -> (r: Option<usize>)
        ensures
            match r {
                Some(i) => position(languages_of(self@), lang) == Some(i as int) && i
                    < self.0@.len(),
                None => position(languages_of(self@), lang) is None,
            },
    {
        let ghost langs = languages_of(self@);
        let mut i: usize = 0;
        while i < self.0.len()
            invariant
                langs == languages_of(self@),
                i <= self.0@.len(),
                first_in(langs, lang, i as int) is None,
            decreases self.0.len() - i,
        {
            if self.0[i].0 == lang {
                proof {
                    assert(langs[i as int] == lang);
                    assert(first_in(langs, lang, i + 1) == Some(i as int));
                    lemma_first_in_stays(langs, lang, i + 1, langs.len() as int);
                }
                return Some(i);
            }
            i += 1;
        }
        None
    }

    /// The template of `lang`, if the translation has one.
    pub fn get_language(&self, lang: &Language) -> (r: Option<&TemplatedString>)
        ensures
            match r {
                Some(t) => template_for(self@, *lang) == Some(t@),
                None => template_for(self@, *lang) is None,
            },
            self.wf() ==> (r matches Some(t) ==> t.wf()),
    {
        match self.find(*lang) {
            Some(i) => Some(&self.0[i].1),
            None => None,
        }
    }

    /// Whether the translation has a template for `lang`.
    pub fn language_available(&self, lang: &Language) -> (r: bool)
        ensures
            r == (template_for(self@, *lang) is Some),
    {
        self.find(*lang).is_some()
    }

    /// Gives `key` the template `value`, in the place of the one it had if
    /// it had any.
    pub fn insert(&mut self, key: Language, value: TemplatedString)
        ensures
            final(self)@ == with_language(old(self)@, key, value@),
            old(self).wf() ==> final(self).wf(),
    {
        let ghost before = self@;
        let ghost langs = languages_of(before);
        proof {
            use_type_invariant(&value);
            lemma_first_in(langs, key, langs.len() as int);
        }
        match self.find(key) {
            Some(i) => {
                self.0[i] = (key, value);
                proof {
                    assert(self@ =~= before.update(i as int, (key, value@)));
                    assert(languages_of(self@) =~= langs);
                }
            },
            None => {
                self.0.push((key, value));
                proof {
                    assert(self@ =~= before.push((key, value@)));
                    assert(languages_of(self@) =~= langs.push(key));
                }
            },
        }
    }
}


/// Where a document comes from: the file, if there is one, and the text
/// that it was parsed from.
pub ghost struct Origin {
    pub file: Option<Seq<char>>,
    pub text: Seq<char>,
}

/// An optional offset as a number.
pub open spec fn opt_int(at: Option<usize>) -> Option<int> {
    match at {
        Some(a) => Some(a as int),
        None => None,
    }
}

/// The error that stands for a fault found at byte offset `at` of the
/// origin's text.
pub open spec fn fault_at(origin: Origin, fault: TreeFault, at: Option<usize>) -> FileErrorModel<
    TreeFault,
> {
    FileErrorModel {
        description: fault,
        file_path: origin.file,
        at_character: Some(locate_or_zero(encode_utf8(origin.text), opt_int(at))),
    }
}

/// The branch that stands for a fault found at byte offset `at`.
pub open spec fn broken(origin: Origin, fault: TreeFault, at: Option<usize>) -> TreeModel {
    TreeModel::NestingError(fault_at(origin, fault, at))
}

/// Whether reading a table has failed.
pub open spec fn failed(state: Option<TreeModel>) -> bool {
    state matches Some(TreeModel::NestingError(_))
}

/// What a table read so far becomes when a string named `key` follows.
///
/// After a namespace entry a string is a fault. Otherwise the key must name
/// a language and the string must be a template, and the table is a
/// translation that gains this language.
pub open spec fn add_text(
    origin: Origin,
    state: Option<TreeModel>,
    key: Seq<char>,
    value: Seq<char>,
    at: Option<usize>,
) -> Option<TreeModel> {
    match state {
        Some(TreeModel::NestingError(_)) => state,
        Some(TreeModel::Nesting(_)) => Some(
            broken(origin, TreeFault::InvalidValueInTranslation, at),
        ),
        _ => {
            let so_far = match state {
                Some(TreeModel::Translation(t)) => t,
                _ => TranslationModel::empty(),
            };
            match first_answering(key, 0) {
                None => Some(
                    broken(
                        origin,
                        TreeFault::InvalidLanguageKey(
                            LanguageErrorModel {
                                attempt: key,
                                closest: nearest(key, all_idents()),
                            },
                        ),
                        at,
                    ),
                ),
                Some(lang) => match scan(value) {
                    Err(fault) => Some(broken(origin, TreeFault::TemplateError(fault), at)),
                    Ok(spans) => Some(
                        TreeModel::Translation(
                            with_language(so_far, lang, TemplateModel { text: value, spans }),
                        ),
                    ),
                },
            }
        },
    }
}

/// What a table read so far becomes when a table named `key` follows,
/// which reads as `child`.
///
/// After a translation entry a table is a fault. Otherwise the table read
/// so far is a namespace that gains this branch.
pub open spec fn add_table(
    origin: Origin,
    state: Option<TreeModel>,
    key: Seq<char>,
    child: TreeModel,
    at: Option<usize>,
) -> Option<TreeModel> {
    match state {
        Some(TreeModel::NestingError(_)) => state,
        Some(TreeModel::Translation(_)) => Some(
            broken(origin, TreeFault::InvalidValueInNesting, at),
        ),
        Some(TreeModel::Nesting(children)) => Some(
            TreeModel::Nesting(with_child(children, key, child)),
        ),
        None => Some(TreeModel::Nesting(with_child(Seq::empty(), key, child))),
    }
}

/// What a table read so far becomes when a value follows that is neither a
/// string nor a table: a fault.
pub open spec fn add_other(origin: Origin, state: Option<TreeModel>, at: Option<usize>) -> Option<
    TreeModel,
> {
    match state {
        Some(TreeModel::NestingError(_)) => state,
        _ => Some(broken(origin, TreeFault::InvalidValueInNesting, at)),
    }
}

/// What the first `n` entries of a table read as: nothing yet, a
/// translation, a namespace, or the first fault met.
pub open spec fn fill(origin: Origin, entries: Seq<(String, Document)>, n: int) -> Option<
    TreeModel,
>
    decreases entries, n,
{
    if n <= 0 || n > entries.len() {
        None
    } else {
        let before = fill(origin, entries, n - 1);
        let key = entries[n - 1].0@;
        match entries[n - 1].1 {
            Document::Text { value, at } => add_text(origin, before, key, value@, at),
            Document::Table { entries: inner, at } => add_table(
                origin,
                before,
                key,
                tree_of(origin, entries[n - 1].1),
                at,
            ),
            Document::Other { at } => add_other(origin, before, at),
        }
    }
}

/// The tree that a document reads as.
///
/// A table whose entries are all tables is a namespace; one whose entries
/// are all strings, keyed by languages, is a translation. An empty table,
/// a table that mixes the two, a value of another kind, a key that names no
/// language and a string that is no template are faults: the table they
/// stand in reads as a broken branch that holds the first of them.
pub open spec fn tree_of(origin: Origin, doc: Document) -> TreeModel
    decreases doc,
{
    match doc {
        Document::Table { entries, at } => match fill(origin, entries@, entries@.len() as int) {
            Some(t) => t,
            None => broken(origin, TreeFault::EmptyTable, at),
        },
        Document::Text { value, at } => broken(origin, TreeFault::InvalidValueInNesting, at),
        Document::Other { at } => broken(origin, TreeFault::InvalidValueInNesting, at),
    }
}

/// The tree that the outcome of parsing reads as: that of the document, or
/// a broken branch that holds the parser's message.
pub open spec fn tree_of_parse(origin: Origin, parsed: Result<Document, ParseFailure>) -> TreeModel {
    match parsed {
        Ok(doc) => tree_of(origin, doc),
        Err(failure) => broken(origin, TreeFault::TomlError(failure.message@), failure.at),
    }
}

/// Once reading a table has failed, further entries change nothing.
pub proof fn lemma_fill_failed_stays(
    origin: Origin,
    entries: Seq<(String, Document)>,
    n: int,
    m: int,
)
    requires
        0 <= n <= m <= entries.len(),
        failed(fill(origin, entries, n)),
    ensures
        fill(origin, entries, m) == fill(origin, entries, n),
    decreases m - n,
{
    if n < m {
        lemma_fill_failed_stays(origin, entries, n, m - 1);
    }
}

/// What cannot be found, as a mathematical value.
pub ghost enum NotFoundModel {
    NotFoundInNode {
        accomplished_segments: Seq<Seq<char>>,
        attempted_segment: Seq<char>,
        closest_next_possibility: Option<Seq<char>>,
    },
    FoundEarlyTranslation { accomplished_segments: Seq<Seq<char>>, attempted_segment: Seq<char> },
    PathLeadsToNesting { accomplished_segments: Seq<Seq<char>> },
    FoundErroredNode(FileErrorModel<TreeFault>),
}

/// Why a path leads to no translation.
#[derive(Debug)]
pub enum TranslationNotFound {
    /// A namespace has no branch of this name. `closest_next_possibility`
    /// is the name of the branch nearest to it by edit distance.
    NotFoundInNode {
        accomplished_segments: Vec<String>,
        attempted_segment: String,
        closest_next_possibility: Option<String>,
    },
    /// The path goes on where a translation was reached.
    FoundEarlyTranslation { accomplished_segments: Vec<String>, attempted_segment: String },
    /// The path ends at a namespace.
    PathLeadsToNesting { accomplished_segments: Vec<String> },
    /// The path runs into a branch that could not be read.
    FoundErroredNode(TranslationTreeParseError),
}

impl View for TranslationNotFound {
    type V = NotFoundModel;

    open spec fn view(&self) -> NotFoundModel {
        match self {
            TranslationNotFound::NotFoundInNode {
                accomplished_segments,
                attempted_segment,
                closest_next_possibility,
            } => NotFoundModel::NotFoundInNode {
                accomplished_segments: texts(accomplished_segments@),
                attempted_segment: attempted_segment@,
                closest_next_possibility: opt_text(*closest_next_possibility),
            },
            TranslationNotFound::FoundEarlyTranslation {
                accomplished_segments,
                attempted_segment,
            } => NotFoundModel::FoundEarlyTranslation {
                accomplished_segments: texts(accomplished_segments@),
                attempted_segment: attempted_segment@,
            },
            TranslationNotFound::PathLeadsToNesting {
                accomplished_segments,
            } => NotFoundModel::PathLeadsToNesting {
                accomplished_segments: texts(accomplished_segments@),
            },
            TranslationNotFound::FoundErroredNode(e) => NotFoundModel::FoundErroredNode(e@),
        }
    }
}

/// Where the segments of `path` from the `i`-th on lead, starting at
/// `node`.
///
/// At a namespace the next segment must name a branch, and the walk goes on
/// there; a path that ends at a namespace leads nowhere. At a translation
/// the path must have ended. A broken branch gives its error.
pub open spec fn resolve(node: TreeModel, path: Seq<Seq<char>>, i: int) -> Result<
    TranslationModel,
    NotFoundModel,
>
    decreases path.len() - i,
{
    match node {
        TreeModel::Nesting(children) => {
            if i < 0 || i >= path.len() {
                Err(NotFoundModel::PathLeadsToNesting { accomplished_segments: path })
            } else {
                match child_of(children, path[i]) {
                    Some(child) => resolve(child, path, i + 1),
                    None => Err(
                        NotFoundModel::NotFoundInNode {
                            accomplished_segments: path.take(i),
                            attempted_segment: path[i],
                            closest_next_possibility: nearest(path[i], names_of(children)),
                        },
                    ),
                }
            }
        },
        TreeModel::Translation(t) => {
            if i < 0 || i >= path.len() {
                Ok(t)
            } else {
                Err(
                    NotFoundModel::FoundEarlyTranslation {
                        accomplished_segments: path.take(i),
                        attempted_segment: path[i],
                    },
                )
            }
        },
        TreeModel::NestingError(e) => Err(NotFoundModel::FoundErroredNode(e)),
    }
}

/// Why a text could not be resolved.
#[derive(Debug)]
pub enum ResolutionError {
    /// The path leads to no translation.
    NotFound(TranslationNotFound),
    /// The translation at the path has no template for the language.
    LanguageUnavailable(Language),
}

/// Why a text could not be resolved, as a mathematical value.
pub ghost enum ResolutionFault {
    NotFound(NotFoundModel),
    LanguageUnavailable(Language),
}

impl View for ResolutionError {
    type V = ResolutionFault;

    open spec fn view(&self) -> ResolutionFault {
        match self {
            ResolutionError::NotFound(e) => ResolutionFault::NotFound(e@),
            ResolutionError::LanguageUnavailable(l) => ResolutionFault::LanguageUnavailable(*l),
        }
    }
}

/// The text that `path` and `language` resolve to in a tree, with `values`
/// in the place of the placeholders: the path must lead to a translation,
/// and the translation must have a template for the language.
pub open spec fn resolved(
    tree: TreeModel,
    path: Seq<Seq<char>>,
    language: Language,
    values: Seq<(Seq<char>, Seq<char>)>,
) -> Result<Seq<char>, ResolutionFault> {
    match resolve(tree, path, 0) {
        Err(fault) => Err(ResolutionFault::NotFound(fault)),
        Ok(translation) => match template_for(translation, language) {
            None => Err(ResolutionFault::LanguageUnavailable(language)),
            Some(template) => Ok(render(template, values)),
        },
    }
}

/// Whether some translation of the tree has a template for `lang`.
pub open spec fn has_language(m: TreeModel, lang: Language) -> bool
    decreases m,
{
    match m {
        TreeModel::Nesting(children) => any_has_language(children, children.len() as int, lang),
        TreeModel::Translation(t) => template_for(t, lang) is Some,
        TreeModel::NestingError(_) => false,
    }
}

/// Whether one of the first `n` branches has a template for `lang`.
pub open spec fn any_has_language(
    children: Seq<(Seq<char>, TreeModel)>,
    n: int,
    lang: Language,
) -> bool
    decreases children, n,
{
    if n <= 0 || n > children.len() {
        false
    } else {
        any_has_language(children, n - 1, lang) || has_language(children[n - 1].1, lang)
    }
}

/// A language found among the first `n` branches is found among the first
/// `m` as well.
pub proof fn lemma_any_has_language(
    children: Seq<(Seq<char>, TreeModel)>,
    n: int,
    m: int,
    lang: Language,
)
    requires
        0 <= n <= m <= children.len(),
        any_has_language(children, n, lang),
    ensures
        any_has_language(children, m, lang),
    decreases m - n,
{
    if n < m {
        lemma_any_has_language(children, n, m - 1, lang);
    }
}

/// The position of the branch named `name`.
pub fn find_child(children: &Vec<(String, TranslationTree)>, name: &str) -> (r: Option<usize>)
    ensures
        match r {
            Some(i) => position(names_of(children_model(children@)), name@) == Some(i as int) && i
                < children@.len(),
            None => position(names_of(children_model(children@)), name@) is None,
        },
{
    let ghost names = names_of(children_model(children@));
    let mut i: usize = 0;
    proof {
        lemma_children_model(children@);
    }
    while i < children.len()
        invariant
            names == names_of(children_model(children@)),
            i <= children@.len(),
            first_in(names, name@, i as int) is None,
        decreases children.len() - i,
    {
        proof {
            lemma_children_model(children@);
        }
        if same_text(children[i].0.as_str(), name) {
            proof {
                assert(names[i as int] == name@);
                assert(first_in(names, name@, i + 1) == Some(i as int));
                lemma_first_in_stays(names, name@, i + 1, names.len() as int);
            }
            return Some(i);
        }
        i += 1;
    }
    None
}

/// Puts `node` under `name`: in the place of the branch that had the name,
/// or at the end where none had it.
pub fn put_child(children: &mut Vec<(String, TranslationTree)>, name: String, node: TranslationTree)
    ensures
        children_model(final(children)@) == with_child(
            children_model(old(children)@),
            name@,
            node@,
        ),
        tree_wf(TreeModel::Nesting(children_model(old(children)@))) && tree_wf(node@) ==> tree_wf(
            TreeModel::Nesting(children_model(final(children)@)),
        ),
{
    let ghost before = children_model(children@);
    let ghost names = names_of(before);
    proof {
        lemma_children_model(children@);
        lemma_first_in(names, name@, names.len() as int);
    }
    match find_child(children, name.as_str()) {
        Some(i) => {
            children[i] = (name, node);
            proof {
                lemma_children_model(children@);
                let after = children_model(children@);
                assert(after =~= before.update(i as int, (name@, node@)));
                assert(names_of(after) =~= names);
                if tree_wf(TreeModel::Nesting(before)) && tree_wf(node@) {
                    assert forall|k: int| 0 <= k < after.len() implies tree_wf(
                        (#[trigger] after[k]).1,
                    ) by {
                        if k != i {
                            assert(after[k] == before[k]);
                        }
                    }
                }
            }
        },
        None => {
            children.push((name, node));
            proof {
                lemma_children_model(children@);
                let after = children_model(children@);
                assert(after =~= before.push((name@, node@)));
                assert(names_of(after) =~= names.push(name@));
                if tree_wf(TreeModel::Nesting(before)) && tree_wf(node@) {
                    assert forall|k: int| 0 <= k < after.len() implies tree_wf(
                        (#[trigger] after[k]).1,
                    ) by {
                        if k < before.len() {
                            assert(after[k] == before[k]);
                        }
                    }
                }
            }
        },
    }
}

/// The names of the branches, in their order.
pub(crate) fn child_names(children: &Vec<(String, TranslationTree)>) -> (r: Vec<String>)
    ensures
        texts(r@) == names_of(children_model(children@)),
{
    let ghost names = names_of(children_model(children@));
    let mut r: Vec<String> = Vec::new();
    let mut i: usize = 0;
    while i < children.len()
        invariant
            names == names_of(children_model(children@)),
            i <= children@.len(),
            texts(r@) == names.take(i as int),
        decreases children.len() - i,
    {
        let ghost before = texts(r@);
        r.push(children[i].0.clone());
        proof {
            lemma_children_model(children@);
            assert(texts(r@) =~= before.push(children@[i as int].0@));
            assert(names.take(i + 1) =~= names.take(i as int).push(names[i as int]));
        }
        i += 1;
    }
    proof {
        lemma_children_model(children@);
        assert(texts(r@) =~= names);
    }
    r
}

/// A copy of the first `n` strings of `path`.
pub(crate) fn leading(path: &Vec<String>, n: usize) -> (r: Vec<String>)
    requires
        n <= path@.len(),
    ensures
        texts(r@) == texts(path@).take(n as int),
{
    let mut r: Vec<String> = Vec::new();
    let mut i: usize = 0;
    while i < n
        invariant
            i <= n <= path@.len(),
            texts(r@) == texts(path@).take(i as int),
        decreases n - i,
    {
        let ghost before = texts(r@);
        r.push(path[i].clone());
        proof {
            assert(texts(r@) =~= before.push(path@[i as int]@));
            assert(texts(path@).take(i + 1) =~= texts(path@).take(i as int).push(
                texts(path@)[i as int],
            ));
        }
        i += 1;
    }
    r
}

/// The origin of a document that was parsed from `raw`, found in the file
/// `source` if it comes from a file.
pub open spec fn origin_of(source: Option<&str>, raw: &str) -> Origin {
    Origin {
        file: match source {
            Some(p) => Some(p@),
            None => None,
        },
        text: raw@,
    }
}

/// The error for `description`, found at byte offset `at` of `raw`.
pub(crate) fn error_at(
    source: Option<&str>,
    raw: &str,
    description: TranslationTreeErrorDescription,
    at: Option<usize>,
) -> (e: TranslationTreeParseError)
    ensures
        e@ == fault_at(origin_of(source, raw), description@, at),
{
    let file_path = match source {
        Some(p) => Some(p.to_owned()),
        None => None,
    };
    let span = match at {
        Some(a) => Some(a..a),
        None => None,
    };
    let place = FileLocation::from_optional_range(raw, span);
    FileRelatedError::from_data(description, file_path, Some(place))
}


/// What the entries of a table have turned out to be so far.
#[derive(Clone, Copy, PartialEq, Eq, Structural)]
enum Shape {
    Unknown,
    Leaf,
    Branch,
}

/// The state of reading a table, put together from its parts.
spec fn state_of(
    shape: Shape,
    leaf: TranslationModel,
    children: Seq<(Seq<char>, TreeModel)>,
    failure: Option<TranslationTreeParseError>,
) -> Option<TreeModel> {
    match failure {
        Some(e) => Some(TreeModel::NestingError(e@)),
        None => match shape {
            Shape::Unknown => None,
            Shape::Leaf => Some(TreeModel::Translation(leaf)),
            Shape::Branch => Some(TreeModel::Nesting(children)),
        },
    }
}

impl TranslationTree {
    /// Whether no name stands twice in a namespace and every translation is
    /// well formed.
    pub open spec fn wf(&self) -> bool {
        tree_wf(self@)
    }

    /// A translation without any language.
    pub fn empty_translation() -> (t: Self)
        ensures
            t@ == TreeModel::Translation(TranslationModel::empty()),
            t.wf(),
    {
        TranslationTree::Translation(Translation::empty())
    }

    /// A namespace without any branch.
    pub fn empty_nesting() -> (t: Self)
        ensures
            t@ == TreeModel::Nesting(Seq::empty()),
            t.wf(),
    {
            let t = TranslationTree::Nesting(Vec::new());
        proof {
            lemma_children_model(Seq::empty());
            assert(children_model(Seq::empty()) =~= Seq::empty());
        }
        t
    }

    /// The branch that stands for a file that could not be read.
    pub fn unreadable(path: &str, message: String) -> (t: Self)
        ensures
            t@ == TreeModel::NestingError(
                FileErrorModel {
                    description: TreeFault::IoError(message@),
                    file_path: Some(path@),
                    at_character: None,
                },
            ),
            t.wf(),
    {
        TranslationTree::NestingError(
            FileRelatedError::from_data(
                TranslationTreeErrorDescription::IoError(message),
                Some(path.to_owned()),
                None,
            ),
        )
    }

    /// Reads a tree out of a document that was parsed from `raw_contents`.
    /// `source` is the file that the text comes from, if it comes from one.
    pub fn from_document(source: Option<&str>, raw_contents: &str, doc: &Document) -> (t: Self)
        ensures
            t@ == tree_of(origin_of(source, raw_contents), *doc),
            t.wf(),
        decreases doc,
    {
            let ghost origin = origin_of(source, raw_contents);
        match doc {
            Document::Table { entries, at } => {
                let mut shape = Shape::Unknown;
                let mut leaf = Translation::empty();
                let mut children: Vec<(String, TranslationTree)> = Vec::new();
                let mut failure: Option<TranslationTreeParseError> = None;
                let mut i: usize = 0;
                proof {
                    lemma_children_model(children@);
                    assert(children_model(children@) =~= Seq::empty());
                }
                while i < entries.len() && failure.is_none()
                    invariant
                        origin == origin_of(source, raw_contents),
                        *doc == (Document::Table { entries: *entries, at: *at }),
                        i <= entries@.len(),
                        state_of(shape, leaf@, children_model(children@), failure) == fill(
                            origin,
                            entries@,
                            i as int,
                        ),
                        leaf.wf(),
                        tree_wf(TreeModel::Nesting(children_model(children@))),
                        shape == Shape::Unknown ==> leaf@.len() == 0 && children@.len() == 0,
                        shape == Shape::Leaf ==> children@.len() == 0,
                        shape == Shape::Branch ==> leaf@.len() == 0,
                    decreases entries.len() - i,
                {
                    let key = &entries[i].0;
                    let value = &entries[i].1;
                    let ghost before = fill(origin, entries@, i as int);
                    proof {
                        lemma_children_model(children@);
                        assert(!failed(before));
                        assert(entries@[i as int].0@ == key@);
                        assert(entries@[i as int].1 == *value);
                        if shape == Shape::Unknown {
                            assert(leaf@ =~= TranslationModel::empty());
                            assert(children_model(children@) =~= Seq::empty());
                        }
                    }
                    match value {
                        Document::Text { value: text, at: place } => {
                            if shape == Shape::Branch {
                                failure = Some(
                                    error_at(
                                        source,
                                        raw_contents,
                                        TranslationTreeErrorDescription::InvalidValueInTranslation,
                                        *place,
                                    ),
                                );
                            } else {
                                match Language::from_str(key.as_str()) {
                                    Err(e) => {
                                        failure = Some(
                                            error_at(
                                                source,
                                                raw_contents,
                                                TranslationTreeErrorDescription::InvalidLanguageKey(
                                                    e,
                                                ),
                                                *place,
                                            ),
                                        );
                                    },
                                    Ok(lang) => match TemplatedString::from_str(text.as_str()) {
                                        Err(e) => {
                                            failure = Some(
                                                error_at(
                                                    source,
                                                    raw_contents,
                                                    TranslationTreeErrorDescription::TemplateError(
                                                        e,
                                                    ),
                                                    *place,
                                                ),
                                            );
                                        },
                                        Ok(template) => {
                                            leaf.insert(lang, template);
                                            shape = Shape::Leaf;
                                        },
                                    },
                                }
                            }
                        },
                        Document::Table { entries: inner, at: place } => {
                            if shape == Shape::Leaf {
                                failure = Some(
                                    error_at(
                                        source,
                                        raw_contents,
                                        TranslationTreeErrorDescription::InvalidValueInNesting,
                                        *place,
                                    ),
                                );
                            } else {
                                proof {
                                    assert(*value == entries@[i as int].1);
                                    assert(decreases_to!(doc => doc->Table_entries@[i as int].1));
                                }
                                let child = Self::from_document(source, raw_contents, value);
                                put_child(&mut children, key.clone(), child);
                                shape = Shape::Branch;
                            }
                        },
                        Document::Other { at: place } => {
                            failure = Some(
                                error_at(
                                    source,
                                    raw_contents,
                                    TranslationTreeErrorDescription::InvalidValueInNesting,
                                    *place,
                                ),
                            );
                        },
                    }
                    i += 1;
                }
                proof {
                    if failure.is_some() {
                        lemma_fill_failed_stays(origin, entries@, i as int, entries@.len() as int);
                    }
                }
                match failure {
                    Some(e) => TranslationTree::NestingError(e),
                    None => match shape {
                        Shape::Unknown => TranslationTree::NestingError(
                            error_at(
                                source,
                                raw_contents,
                                TranslationTreeErrorDescription::EmptyTable,
                                *at,
                            ),
                        ),
                        Shape::Leaf => TranslationTree::Translation(leaf),
                        Shape::Branch => {
                            let t = TranslationTree::Nesting(children);
                            proof {
                                assert(t@ == TreeModel::Nesting(children_model(children@)));
                            }
                            t
                        },
                    },
                }
            },
            Document::Text { value, at } => TranslationTree::NestingError(
                error_at(
                    source,
                    raw_contents,
                    TranslationTreeErrorDescription::InvalidValueInNesting,
                    *at,
                ),
            ),
            Document::Other { at } => TranslationTree::NestingError(
                error_at(
                    source,
                    raw_contents,
                    TranslationTreeErrorDescription::InvalidValueInNesting,
                    *at,
                ),
            ),
        }
    }

    /// Reads a tree out of what parsing `raw_contents` gave: the tree of the
    /// document, or a broken branch that holds the parser's message.
    pub fn from_parsed(
        source: Option<&str>,
        raw_contents: &str,
        parsed: &Result<Document, ParseFailure>,
    ) -> (t: Self)
        ensures
            t@ == tree_of_parse(origin_of(source, raw_contents), *parsed),
            t.wf(),
    {
        match parsed {
            Ok(doc) => Self::from_document(source, raw_contents, doc),
            Err(failure) => TranslationTree::NestingError(
                error_at(
                    source,
                    raw_contents,
                    TranslationTreeErrorDescription::TomlError(failure.message.clone()),
                    failure.at,
                ),
            ),
        }
    }

    /// Parses `raw_contents` as TOML and reads a tree out of it. `source`
    /// is the file that the text comes from, if it comes from one.
    pub fn from_raw(source: Option<&str>, raw_contents: &str) -> (t: Self)
        ensures
            t@ == tree_of_parse(origin_of(source, raw_contents), parsed_toml(raw_contents@)),
            t.wf(),
    {
        let parsed = parse_toml(raw_contents);
        Self::from_parsed(source, raw_contents, &parsed)
    }

    /// The text at `path` in `language`, with each placeholder replaced by
    /// the value that `values` gives for its key.
    pub fn resolve(
        &self,
        path: &Vec<String>,
        language: Language,
        values: &Vec<(String, String)>,
    ) -> (r: Result<String, ResolutionError>)
        ensures
            match resolved(self@, texts(path@), language, pairs(values@)) {
                Ok(text) => r matches Ok(s) && s@ == text,
                Err(fault) => r matches Err(e) && e@ == fault,
            },
    {
        match self.find_path(path) {
            Err(e) => Err(ResolutionError::NotFound(e)),
            Ok(translation) => match translation.get_language(&language) {
                None => Err(ResolutionError::LanguageUnavailable(language)),
                Some(template) => Ok(template.replace_with(values)),
            },
        }
    }

    /// Whether some translation of the tree has a template for `language`.
    /// Branches that could not be read count for nothing.
    pub fn fallback_available(&self, language: Language) -> (r: bool)
        ensures
            r == has_language(self@, language),
        decreases self,
    {
            match self {
            TranslationTree::Nesting(children) => {
                let ghost models = children_model(children@);
                proof {
                    lemma_children_model(children@);
                    assert(self@ == TreeModel::Nesting(models));
                }
                let mut i: usize = 0;
                while i < children.len()
                    invariant
                        *self == TranslationTree::Nesting(*children),
                        self@ == TreeModel::Nesting(models),
                        models == children_model(children@),
                        models.len() == children@.len(),
                        i <= children@.len(),
                        !any_has_language(models, i as int, language),
                    decreases children.len() - i,
                {
                    let child = &children[i].1;
                    proof {
                        lemma_children_model(children@);
                        assert(*child == children@[i as int].1);
                        assert(decreases_to!(self => self->Nesting_0@[i as int].1));
                    }
                    if child.fallback_available(language) {
                        proof {
                            assert(models[i as int].1 == child@);
                            assert(has_language(models[i as int].1, language));
                            assert(any_has_language(models, i + 1, language));
                            lemma_any_has_language(
                                models,
                                i + 1,
                                models.len() as int,
                                language,
                            );
                        }
                        return true;
                    }
                    i += 1;
                }
                proof {
                    lemma_children_model(children@);
                }
                false
            },
            TranslationTree::Translation(translation) => translation.language_available(&language),
            TranslationTree::NestingError(_) => false,
        }
    }

    /// The name of the branch of this namespace that is nearest to `key` by
    /// edit distance, the first of them where several are equally near;
    /// nothing where this is no namespace or has no branch.
    pub fn closest_next_nesting(&self, key: &str) -> (r: Option<String>)
        ensures
            opt_text(r) == (match self@ {
                TreeModel::Nesting(children) => nearest(key@, names_of(children)),
                _ => None,
            }),
    {
        match self {
            TranslationTree::Nesting(children) => {
                let names = child_names(children);
                closest_to(key, &names)
            },
            _ => None,
        }
    }

    /// Follows `path` from the root and gives the translation it leads to.
    ///
    /// Succeeds exactly when every segment names a branch of the namespace
    /// reached so far and the last one names a translation. Otherwise the
    /// error tells a missing branch from a path that goes on past a
    /// translation, from one that ends at a namespace, and from one that
    /// runs into a branch that could not be read.
    pub fn find_path(&self, path: &Vec<String>) -> (r: Result<&Translation, TranslationNotFound>)
        ensures
            match resolve(self@, texts(path@), 0) {
                Ok(t) => r matches Ok(found) && found@ == t,
                Err(m) => r matches Err(e) && e@ == m,
            },
            self.wf() ==> (r matches Ok(found) ==> found.wf()),
    {
            let ghost whole = texts(path@);
        let mut node: &TranslationTree = self;
        let mut i: usize = 0;
        loop
            invariant
                whole == texts(path@),
                i <= path@.len(),
                resolve(self@, whole, 0) == resolve(node@, whole, i as int),
                self.wf() ==> node.wf(),
            decreases path@.len() - i,
        {
            match node {
                TranslationTree::Nesting(children) => {
                    let ghost models = children_model(children@);
                    proof {
                        lemma_children_model(children@);
                        assert(node@ == TreeModel::Nesting(models));
                    }
                    if i == path.len() {
                        let accomplished_segments = leading(path, i);
                        proof {
                            assert(whole.take(i as int) =~= whole);
                        }
                        return Err(TranslationNotFound::PathLeadsToNesting { accomplished_segments });
                    }
                    let segment = &path[i];
                    match find_child(children, segment.as_str()) {
                        Some(k) => {
                            proof {
                                assert(models[k as int].1 == children@[k as int].1@);
                            }
                            node = &children[k].1;
                            i += 1;
                        },
                        None => {
                            return Err(
                                TranslationNotFound::NotFoundInNode {
                                    accomplished_segments: leading(path, i),
                                    attempted_segment: segment.clone(),
                                    closest_next_possibility: node.closest_next_nesting(
                                        segment.as_str(),
                                    ),
                                },
                            );
                        },
                    }
                },
                TranslationTree::Translation(translation) => {
                    if i == path.len() {
                        return Ok(translation);
                    }
                    return Err(
                        TranslationNotFound::FoundEarlyTranslation {
                            accomplished_segments: leading(path, i),
                            attempted_segment: path[i].clone(),
                        },
                    );
                },
                TranslationTree::NestingError(e) => {
                    return Err(TranslationNotFound::FoundErroredNode(copy_of_error(e)));
                },
            }
        }
    }
}


/// While a table is read without a fault, a string among its entries makes
/// it a translation and a table among them makes it a namespace.
pub proof fn lemma_fill_shape(origin: Origin, entries: Seq<(String, Document)>, n: int)
    requires
        0 <= n <= entries.len(),
        !failed(fill(origin, entries, n)),
    ensures
        forall|k: int|
            0 <= k < n && (#[trigger] entries[k]).1 is Text ==> fill(origin, entries, n)
                matches Some(TreeModel::Translation(_)),
        forall|k: int|
            0 <= k < n && (#[trigger] entries[k]).1 is Table ==> fill(origin, entries, n)
                matches Some(TreeModel::Nesting(_)),
    decreases n,
{
    if n > 0 {
        if failed(fill(origin, entries, n - 1)) {
            lemma_fill_failed_stays(origin, entries, n - 1, n);
        }
        lemma_fill_shape(origin, entries, n - 1);
    }
}

/// Homogeneity: a table that holds a string and a table side by side, in
/// whatever order, reads as a broken branch.
pub proof fn lemma_mixed_table_is_broken(
    origin: Origin,
    entries: Vec<(String, Document)>,
    at: Option<usize>,
    i: int,
    j: int,
)
    requires
        0 <= i < entries@.len(),
        0 <= j < entries@.len(),
        entries@[i].1 is Text,
        entries@[j].1 is Table,
    ensures
        tree_of(origin, Document::Table { entries, at }) is NestingError,
{
    if !failed(fill(origin, entries@, entries@.len() as int)) {
        lemma_fill_shape(origin, entries@, entries@.len() as int);
        assert(entries@[i].1 is Text);
        assert(entries@[j].1 is Table);
    }
}

/// Homogeneity, by name: when the entries before the `n`-th read as a
/// translation and the `n`-th is a table, the branch is broken by a value
/// that has no place in a translation's table; when they read as a
/// namespace and the `n`-th is a string, by a string among namespaces. The
/// error points at that entry.
pub proof fn lemma_mixed_table_reports_mix(
    origin: Origin,
    entries: Vec<(String, Document)>,
    at: Option<usize>,
    n: int,
)
    requires
        0 <= n < entries@.len(),
        fill(origin, entries@, n) matches Some(state) && ((state is Translation
            && entries@[n].1 is Table) || (state is Nesting && entries@[n].1 is Text)),
    ensures
        tree_of(origin, Document::Table { entries, at }) == (match entries@[n].1 {
            Document::Table { entries: inner, at: place } => broken(
                origin,
                TreeFault::InvalidValueInNesting,
                place,
            ),
            Document::Text { value, at: place } => broken(
                origin,
                TreeFault::InvalidValueInTranslation,
                place,
            ),
            Document::Other { at: place } => broken(origin, TreeFault::InvalidValueInNesting, place),
        }),
{
    assert(failed(fill(origin, entries@, n + 1)));
    lemma_fill_failed_stays(origin, entries@, n + 1, entries@.len() as int);
}

/// The branch that the segments of `path` from the `i`-th on lead to,
/// starting at `node`: each segment names a branch of the namespace reached
/// so far.
pub open spec fn subtree_at(node: TreeModel, path: Seq<Seq<char>>, i: int) -> Option<TreeModel>
    decreases path.len() - i,
{
    if i < 0 || i >= path.len() {
        Some(node)
    } else {
        match node {
            TreeModel::Nesting(children) => match child_of(children, path[i]) {
                Some(child) => subtree_at(child, path, i + 1),
                None => None,
            },
            _ => None,
        }
    }
}

/// Following a path that leads to a translation, and then one segment
/// more, runs past a translation: the error names the path walked and the
/// segment that was too many.
pub proof fn lemma_path_past_leaf(node: TreeModel, path: Seq<Seq<char>>, extra: Seq<char>, i: int)
    requires
        0 <= i <= path.len(),
        subtree_at(node, path, i) matches Some(TreeModel::Translation(_)),
    ensures
        resolve(node, path.push(extra), i) == Err::<TranslationModel, NotFoundModel>(
            NotFoundModel::FoundEarlyTranslation {
                accomplished_segments: path,
                attempted_segment: extra,
            },
        ),
    decreases path.len() - i,
{
    let longer = path.push(extra);
    if i < path.len() {
        assert(longer[i] == path[i]);
        match node {
            TreeModel::Nesting(children) => {
                let child = child_of(children, path[i])->0;
                lemma_path_past_leaf(child, path, extra, i + 1);
            },
            _ => {},
        }
    } else {
        assert(longer.take(i) =~= path);
    }
}

/// Following a path that leads to a namespace ends at a namespace: the
/// error names the path.
pub proof fn lemma_path_to_namespace(node: TreeModel, path: Seq<Seq<char>>, i: int)
    requires
        0 <= i <= path.len(),
        subtree_at(node, path, i) matches Some(TreeModel::Nesting(_)),
    ensures
        resolve(node, path, i) == Err::<TranslationModel, NotFoundModel>(
            NotFoundModel::PathLeadsToNesting { accomplished_segments: path },
        ),
    decreases path.len() - i,
{
    if i < path.len() {
        match node {
            TreeModel::Nesting(children) => {
                let child = child_of(children, path[i])->0;
                lemma_path_to_namespace(child, path, i + 1);
            },
            _ => {},
        }
    }
}

/// Following a path leads to a translation exactly when the branch at the
/// path is one, and then it leads to that translation.
pub proof fn lemma_path_to_leaf(node: TreeModel, path: Seq<Seq<char>>, i: int)
    requires
        0 <= i <= path.len(),
    ensures
        resolve(node, path, i) is Ok <==> subtree_at(node, path, i) matches Some(
            TreeModel::Translation(_),
        ),
        resolve(node, path, i) matches Ok(t) ==> subtree_at(node, path, i) == Some(
            TreeModel::Translation(t),
        ),
    decreases path.len() - i,
{
    if i < path.len() {
        match node {
            TreeModel::Nesting(children) => {
                match child_of(children, path[i]) {
                    Some(child) => {
                        lemma_path_to_leaf(child, path, i + 1);
                    },
                    None => {},
                }
            },
            _ => {},
        }
    }
}


/// [`first_in`] looks at the first `n` keys only.
pub proof fn lemma_first_in_prefix<K>(keys: Seq<K>, other: Seq<K>, key: K, n: int)
    requires
        0 <= n <= keys.len(),
        n <= other.len(),
        forall|i: int| 0 <= i < n ==> keys[i] == other[i],
    ensures
        first_in(keys, key, n) == first_in(other, key, n),
    decreases n,
{
    if n > 0 {
        lemma_first_in_prefix(keys, other, key, n - 1);
    }
}

/// After a branch is put under a name, the name leads to that branch.
pub proof fn lemma_child_of_with_child(
    children: Seq<(Seq<char>, TreeModel)>,
    name: Seq<char>,
    node: TreeModel,
)
    ensures
        child_of(with_child(children, name, node), name) == Some(node),
{
    let names = names_of(children);
    let after = with_child(children, name, node);
    lemma_first_in(names, name, names.len() as int);
    match position(names, name) {
        Some(i) => {
            assert(names_of(after) =~= names);
        },
        None => {
            assert(names_of(after) =~= names.push(name));
            lemma_first_in_prefix(names, names.push(name), name, names.len() as int);
        },
    }
}

} // verus!
