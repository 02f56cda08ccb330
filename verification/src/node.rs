//! Translation nodes: trees that were read without a single fault, and
//! collections of them, one for each source.

use crate::catalog::Language;
use crate::document::Document;
use crate::language::{all_idents, first_answering, LanguageError, LanguageErrorModel};
use crate::template::{scan, TemplateFault, TemplateModel, TemplateParseError, TemplatedString};
use crate::text::{nearest, same_text, texts};
use crate::tree::{
    child_of, fill, first_in, lemma_first_in, lemma_first_in_stays, names_of, position, resolve,
    tree_of, tree_wf, with_child, with_language, Origin, Translation, TranslationModel, TreeModel,
};
use vstd::prelude::*;
use vstd::string::*;

verus! {

/// Why a document is no translation node.
#[derive(Debug)]
pub enum TranslationNodeError {
    /// A table holds something that is neither a string nor a table, or the
    /// document itself is no table.
    InvalidNesting,
    /// A string of a translation is not a template.
    TemplateValidation(TemplateParseError),
    /// A table holds strings and tables side by side.
    MixedValues,
    /// A key of a translation names no language.
    LanguageParsing(LanguageError),
    /// A table is empty.
    EmptyTable,
}

/// Why a document is no translation node, as a mathematical value.
pub ghost enum NodeFault {
    InvalidNesting,
    TemplateValidation(TemplateFault),
    MixedValues,
    LanguageParsing(LanguageErrorModel),
    EmptyTable,
}

impl View for TranslationNodeError {
    type V = NodeFault;

    open spec fn view(&self) -> NodeFault {
        match self {
            TranslationNodeError::InvalidNesting => NodeFault::InvalidNesting,
            TranslationNodeError::TemplateValidation(e) => NodeFault::TemplateValidation(e@),
            TranslationNodeError::MixedValues => NodeFault::MixedValues,
            TranslationNodeError::LanguageParsing(e) => NodeFault::LanguageParsing(e@),
            TranslationNodeError::EmptyTable => NodeFault::EmptyTable,
        }
    }
}

/// A translation: one template for each of its languages.
pub type TranslationObject = Translation;

/// A tree of translations without broken branches.
#[derive(Debug)]
pub enum TranslationNode {
    /// A namespace: named nodes.
    Nesting(Vec<(String, TranslationNode)>),
    /// A translation.
    Translation(TranslationObject),
}

/// What a node is: a tree without broken branches.
pub open spec fn node_model(n: TranslationNode) -> TreeModel
    decreases n,
{
    match n {
        TranslationNode::Nesting(children) => TreeModel::Nesting(
            node_models_upto(children@, children@.len() as int),
        ),
        TranslationNode::Translation(translation) => TreeModel::Translation(translation@),
    }
}

/// The models of the first `n` nodes of a namespace.
pub open spec fn node_models_upto(children: Seq<(String, TranslationNode)>, n: int) -> Seq<
    (Seq<char>, TreeModel),
>
    decreases children, n,
{
    if n <= 0 || n > children.len() {
        Seq::empty()
    } else {
        node_models_upto(children, n - 1).push(
            (children[n - 1].0@, node_model(children[n - 1].1)),
        )
    }
}

/// The models of the nodes of a namespace.
pub open spec fn node_models(children: Seq<(String, TranslationNode)>) -> Seq<
    (Seq<char>, TreeModel),
> {
    node_models_upto(children, children.len() as int)
}

impl View for TranslationNode {
    type V = TreeModel;

    open spec fn view(&self) -> TreeModel {
        node_model(*self)
    }
}

/// [`node_models_upto`] holds one model for each of the first `n` nodes.
pub proof fn lemma_node_models_upto(children: Seq<(String, TranslationNode)>, n: int)
    requires
        0 <= n <= children.len(),
    ensures
        node_models_upto(children, n).len() == n,
        forall|i: int|
            0 <= i < n ==> (#[trigger] node_models_upto(children, n)[i]) == (
                children[i].0@,
                children[i].1@,
            ),
    decreases n,
{
    if n > 0 {
        lemma_node_models_upto(children, n - 1);
    }
}

/// The models of the nodes stand in the order of the nodes.
pub proof fn lemma_node_models(children: Seq<(String, TranslationNode)>)
    ensures
        node_models(children).len() == children.len(),
        forall|i: int|
            0 <= i < children.len() ==> (#[trigger] node_models(children)[i]) == (
                children[i].0@,
                children[i].1@,
            ),
{
    lemma_node_models_upto(children, children.len() as int);
}

/// What a table read so far becomes when a string named `key` follows: a
/// translation that gains the language that the key names, or a fault.
pub open spec fn node_add_text(state: Option<TreeModel>, key: Seq<char>, value: Seq<char>) -> Result<
    Option<TreeModel>,
    NodeFault,
> {
    match state {
        Some(TreeModel::Nesting(_)) => Err(NodeFault::MixedValues),
        _ => {
            let so_far = match state {
                Some(TreeModel::Translation(t)) => t,
                _ => TranslationModel::empty(),
            };
            match first_answering(key, 0) {
                None => Err(
                    NodeFault::LanguageParsing(
                        LanguageErrorModel { attempt: key, closest: nearest(key, all_idents()) },
                    ),
                ),
                Some(lang) => match scan(value) {
                    Err(fault) => Err(NodeFault::TemplateValidation(fault)),
                    Ok(spans) => Ok(
                        Some(
                            TreeModel::Translation(
                                with_language(so_far, lang, TemplateModel { text: value, spans }),
                            ),
                        ),
                    ),
                },
            }
        },
    }
}

/// What a table read so far becomes when a table named `key` follows that
/// reads as `child`: a namespace that gains this node, or a fault.
pub open spec fn node_add_table(
    state: Option<TreeModel>,
    key: Seq<char>,
    child: Result<TreeModel, NodeFault>,
) -> Result<Option<TreeModel>, NodeFault> {
    match state {
        Some(TreeModel::Translation(_)) => Err(NodeFault::MixedValues),
        _ => {
            let so_far = match state {
                Some(TreeModel::Nesting(children)) => children,
                _ => Seq::empty(),
            };
            match child {
                Err(fault) => Err(fault),
                Ok(node) => Ok(Some(TreeModel::Nesting(with_child(so_far, key, node)))),
            }
        },
    }
}

/// What the first `n` entries of a table read as: nothing yet, a
/// translation or a namespace; or the first fault met.
pub open spec fn node_fill(entries: Seq<(String, Document)>, n: int) -> Result<
    Option<TreeModel>,
    NodeFault,
>
    decreases entries, n,
{
    if n <= 0 || n > entries.len() {
        Ok(None)
    } else {
        match node_fill(entries, n - 1) {
            Err(fault) => Err(fault),
            Ok(before) => {
                let key = entries[n - 1].0@;
                match entries[n - 1].1 {
                    Document::Text { value, at } => node_add_text(before, key, value@),
                    Document::Table { entries: inner, at } => node_add_table(
                        before,
                        key,
                        node_of(entries[n - 1].1),
                    ),
                    Document::Other { at } => Err(NodeFault::InvalidNesting),
                }
            },
        }
    }
}

/// The node that a document reads as, or why it reads as none.
///
/// A table whose entries are all tables is a namespace; one whose entries
/// are all strings, keyed by languages, is a translation. The first fault
/// met, at any depth, is the result: an empty table, a table that holds
/// strings and tables side by side, a value of another kind, a key that
/// names no language, a string that is no template.
pub open spec fn node_of(doc: Document) -> Result<TreeModel, NodeFault>
    decreases doc,
{
    match doc {
        Document::Table { entries, at } => match node_fill(entries@, entries@.len() as int) {
            Err(fault) => Err(fault),
            Ok(Some(node)) => Ok(node),
            Ok(None) => Err(NodeFault::EmptyTable),
        },
        Document::Text { value, at } => Err(NodeFault::InvalidNesting),
        Document::Other { at } => Err(NodeFault::InvalidNesting),
    }
}

/// What a path leads to in a node: the translation at its end, if the path
/// ends at one.
pub open spec fn found(node: TreeModel, path: Seq<Seq<char>>) -> Option<TranslationModel> {
    match resolve(node, path, 0) {
        Ok(t) => Some(t),
        Err(_) => None,
    }
}

/// The position of the node named `name`.
pub fn find_node(children: &Vec<(String, TranslationNode)>, name: &str) -> (r: Option<usize>)
    ensures
        match r {
            Some(i) => position(names_of(node_models(children@)), name@) == Some(i as int) && i
                < children@.len(),
            None => position(names_of(node_models(children@)), name@) is None,
        },
{
    let ghost names = names_of(node_models(children@));
    let mut i: usize = 0;
    proof {
        lemma_node_models(children@);
    }
    while i < children.len()
        invariant
            names == names_of(node_models(children@)),
            names.len() == children@.len(),
            i <= children@.len(),
            first_in(names, name@, i as int) is None,
        decreases children.len() - i,
    {
        proof {
            lemma_node_models(children@);
        }
        if same_text(children[i].0.as_str(), name) {
            proof {
                assert(names[i as int] == name@);
                assert(first_in(names, name@, i + 1) == Some(i as int));
                lemma_first_in_stays(names, name@, i + 1, names.len() as int);
            }
            return Some(i);
        }
        i += 1;
    }
    None
}

/// Puts `node` under `name`: in the place of the node that had the name, or
/// at the end where none had it.
pub fn put_node(children: &mut Vec<(String, TranslationNode)>, name: String, node: TranslationNode)
    ensures
        node_models(final(children)@) == with_child(node_models(old(children)@), name@, node@),
        tree_wf(TreeModel::Nesting(node_models(old(children)@))) && tree_wf(node@) ==> tree_wf(
            TreeModel::Nesting(node_models(final(children)@)),
        ),
{
    let ghost before = node_models(children@);
    let ghost names = names_of(before);
    proof {
        lemma_node_models(children@);
        lemma_first_in(names, name@, names.len() as int);
    }
    match find_node(children, name.as_str()) {
        Some(i) => {
            children[i] = (name, node);
            proof {
                lemma_node_models(children@);
                let after = node_models(children@);
                assert(after =~= before.update(i as int, (name@, node@)));
                assert(names_of(after) =~= names);
                if tree_wf(TreeModel::Nesting(before)) && tree_wf(node@) {
                    assert forall|k: int| 0 <= k < after.len() implies tree_wf(
                        (#[trigger] after[k]).1,
                    ) by {
                        if k != i {
                            assert(after[k] == before[k]);
                        }
                    }
                }
            }
        },
        None => {
            children.push((name, node));
            proof {
                lemma_node_models(children@);
                let after = node_models(children@);
                assert(after =~= before.push((name@, node@)));
                assert(names_of(after) =~= names.push(name@));
                if tree_wf(TreeModel::Nesting(before)) && tree_wf(node@) {
                    assert forall|k: int| 0 <= k < after.len() implies tree_wf(
                        (#[trigger] after[k]).1,
                    ) by {
                        if k < before.len() {
                            assert(after[k] == before[k]);
                        }
                    }
                }
            }
        },
    }
}

/// What the entries of a table have turned out to be so far.
#[derive(Clone, Copy, PartialEq, Eq, Structural)]
enum Shape {
    Unknown,
    Leaf,
    Branch,
}

/// The state of reading a table, put together from its parts.
spec fn state_of(
    shape: Shape,
    leaf: TranslationModel,
    children: Seq<(Seq<char>, TreeModel)>,
) -> Option<TreeModel> {
    match shape {
        Shape::Unknown => None,
        Shape::Leaf => Some(TreeModel::Translation(leaf)),
        Shape::Branch => Some(TreeModel::Nesting(children)),
    }
}

impl TranslationNode {
    /// Whether no name stands twice in a namespace and every translation is
    /// well formed.
    pub open spec fn wf(&self) -> bool {
        tree_wf(self@)
    }

    /// Reads a node out of a document.
    ///
    /// Succeeds exactly when the document is a table that, at every depth,
    /// is not empty and holds only tables or only strings keyed by
    /// languages, each string a template. Otherwise the error is the first
    /// fault met.
    pub fn from_document(doc: &Document) -> (r: Result<Self, TranslationNodeError>)
        ensures
            match node_of(*doc) {
                Ok(node) => r matches Ok(n) && n@ == node && n.wf(),
                Err(fault) => r matches Err(e) && e@ == fault,
            },
        decreases doc,
    {
        match doc {
            Document::Table { entries, at } => {
                let mut shape = Shape::Unknown;
                let mut leaf = Translation::empty();
                let mut children: Vec<(String, TranslationNode)> = Vec::new();
                let mut i: usize = 0;
                proof {
                    lemma_node_models(children@);
                    assert(node_models(children@) =~= Seq::empty());
                }
                while i < entries.len()
                    invariant
                        *doc == (Document::Table { entries: *entries, at: *at }),
                        i <= entries@.len(),
                        node_fill(entries@, i as int) == Ok::<Option<TreeModel>, NodeFault>(
                            state_of(shape, leaf@, node_models(children@)),
                        ),
                        leaf.wf(),
                        tree_wf(TreeModel::Nesting(node_models(children@))),
                        shape == Shape::Unknown ==> leaf@.len() == 0 && children@.len() == 0,
                        shape == Shape::Leaf ==> children@.len() == 0,
                        shape == Shape::Branch ==> leaf@.len() == 0,
                    decreases entries.len() - i,
                {
                    let key = &entries[i].0;
                    let value = &entries[i].1;
                    proof {
                        lemma_node_models(children@);
                        assert(entries@[i as int].0@ == key@);
                        assert(entries@[i as int].1 == *value);
                        if shape == Shape::Unknown {
                            assert(leaf@ =~= TranslationModel::empty());
                            assert(node_models(children@) =~= Seq::empty());
                        }
                        if shape == Shape::Leaf {
                            assert(node_models(children@) =~= Seq::empty());
                        }
                    }
                    match value {
                        Document::Text { value: text, at: place } => {
                            if shape == Shape::Branch {
                                proof {
                                    lemma_node_fill_fault_stays(
                                        entries@,
                                        i + 1,
                                        entries@.len() as int,
                                    );
                                }
                                return Err(TranslationNodeError::MixedValues);
                            }
                            match Language::from_str(key.as_str()) {
                                Err(e) => {
                                    proof {
                                        lemma_node_fill_fault_stays(
                                            entries@,
                                            i + 1,
                                            entries@.len() as int,
                                        );
                                    }
                                    return Err(TranslationNodeError::LanguageParsing(e));
                                },
                                Ok(lang) => match TemplatedString::from_str(text.as_str()) {
                                    Err(e) => {
                                        proof {
                                            lemma_node_fill_fault_stays(
                                                entries@,
                                                i + 1,
                                                entries@.len() as int,
                                            );
                                        }
                                        return Err(TranslationNodeError::TemplateValidation(e));
                                    },
                                    Ok(template) => {
                                        leaf.insert(lang, template);
                                        shape = Shape::Leaf;
                                    },
                                },
                            }
                        },
                        Document::Table { entries: inner, at: place } => {
                            if shape == Shape::Leaf {
                                proof {
                                    lemma_node_fill_fault_stays(
                                        entries@,
                                        i + 1,
                                        entries@.len() as int,
                                    );
                                }
                                return Err(TranslationNodeError::MixedValues);
                            }
                            proof {
                                assert(decreases_to!(doc => doc->Table_entries@[i as int].1));
                            }
                            match Self::from_document(value) {
                                Err(e) => {
                                    proof {
                                        lemma_node_fill_fault_stays(
                                            entries@,
                                            i + 1,
                                            entries@.len() as int,
                                        );
                                    }
                                    return Err(e);
                                },
                                Ok(child) => {
                                    put_node(&mut children, key.clone(), child);
                                    shape = Shape::Branch;
                                },
                            }
                        },
                        Document::Other { at: place } => {
                            proof {
                                lemma_node_fill_fault_stays(entries@, i + 1, entries@.len() as int);
                            }
                            return Err(TranslationNodeError::InvalidNesting);
                        },
                    }
                    i += 1;
                }
                match shape {
                    Shape::Unknown => Err(TranslationNodeError::EmptyTable),
                    Shape::Leaf => Ok(TranslationNode::Translation(leaf)),
                    Shape::Branch => Ok(TranslationNode::Nesting(children)),
                }
            },
            Document::Text { value, at } => Err(TranslationNodeError::InvalidNesting),
            Document::Other { at } => Err(TranslationNodeError::InvalidNesting),
        }
    }

    /// Follows `path` from this node and gives the translation it leads
    /// to, if it leads to one.
    pub fn find_path(&self, path: &Vec<String>) -> (r: Option<&TranslationObject>)
        ensures
            match found(self@, texts(path@)) {
                Some(t) => r matches Some(object) && object@ == t,
                None => r is None,
            },
            self.wf() ==> (r matches Some(object) ==> object.wf()),
    {
        let ghost whole = texts(path@);
        let mut node: &TranslationNode = self;
        let mut i: usize = 0;
        loop
            invariant
                whole == texts(path@),
                i <= path@.len(),
                resolve(self@, whole, 0) == resolve(node@, whole, i as int),
                self.wf() ==> node.wf(),
            decreases path@.len() - i,
        {
            match node {
                TranslationNode::Nesting(children) => {
                    let ghost models = node_models(children@);
                    proof {
                        lemma_node_models(children@);
                        assert(node@ == TreeModel::Nesting(models));
                    }
                    if i == path.len() {
                        return None;
                    }
                    match find_node(children, path[i].as_str()) {
                        Some(k) => {
                            proof {
                                assert(models[k as int].1 == children@[k as int].1@);
                            }
                            node = &children[k].1;
                            i += 1;
                        },
                        None => {
                            return None;
                        },
                    }
                },
                TranslationNode::Translation(translation) => {
                    if i == path.len() {
                        return Some(translation);
                    }
                    return None;
                },
            }
        }
    }
}

/// Once reading a table has met a fault, further entries change nothing.
pub proof fn lemma_node_fill_fault_stays(entries: Seq<(String, Document)>, n: int, m: int)
    requires
        0 <= n <= m <= entries.len(),
        node_fill(entries, n) is Err,
    ensures
        node_fill(entries, m) == node_fill(entries, n),
    decreases m - n,
{
    if n < m {
        lemma_node_fill_fault_stays(entries, n, m - 1);
    }
}


/// The nodes of many sources, each under the name of its source, in the
/// order in which they were given.
#[derive(Debug)]
pub struct TranslationNodeCollection(Vec<(String, TranslationNode)>);

impl View for TranslationNodeCollection {
    type V = Seq<(Seq<char>, TreeModel)>;

    closed spec fn view(&self) -> Seq<(Seq<char>, TreeModel)> {
        node_models(self.0@)
    }
}

/// The translation that `path` leads to in the first of the first `n`
/// nodes in which it leads to one.
pub open spec fn found_in(nodes: Seq<(Seq<char>, TreeModel)>, path: Seq<Seq<char>>, n: int) -> Option<
    TranslationModel,
>
    decreases n,
{
    if n <= 0 || n > nodes.len() {
        None
    } else {
        match found_in(nodes, path, n - 1) {
            Some(t) => Some(t),
            None => found(nodes[n - 1].1, path),
        }
    }
}

/// What [`found_in`] has found among the first `n` nodes it finds among
/// the first `m` as well.
pub proof fn lemma_found_in_stays(
    nodes: Seq<(Seq<char>, TreeModel)>,
    path: Seq<Seq<char>>,
    n: int,
    m: int,
)
    requires
        0 <= n <= m <= nodes.len(),
        found_in(nodes, path, n) is Some,
    ensures
        found_in(nodes, path, m) == found_in(nodes, path, n),
    decreases m - n,
{
    if n < m {
        lemma_found_in_stays(nodes, path, n, m - 1);
    }
}

impl TranslationNodeCollection {
    /// Whether every node is well formed.
    pub open spec fn wf(&self) -> bool {
        forall|i: int| 0 <= i < self@.len() ==> tree_wf((#[trigger] self@[i]).1)
    }

    /// A collection of the given nodes, each with the name of its source.
    pub fn new(collection: Vec<(String, TranslationNode)>) -> (c: Self)
        ensures
            c@ == node_models(collection@),
            (forall|i: int| 0 <= i < collection@.len() ==> (#[trigger] collection@[i]).1.wf())
                ==> c.wf(),
    {
        proof {
            lemma_node_models(collection@);
        }
        Self(collection)
    }

    /// The node of the source named `path`: the first with that name.
    pub fn get_node(&self, path: &str) -> (r: Option<&TranslationNode>)
        ensures
            match child_of(self@, path@) {
                Some(node) => r matches Some(n) && n@ == node,
                None => r is None,
            },
    {
        proof {
            lemma_node_models(self.0@);
        }
        match find_node(&self.0, path) {
            Some(i) => Some(&self.0[i].1),
            None => None,
        }
    }

    /// The translation that `path` leads to in the first node in which it
    /// leads to one.
    pub fn find_path(&self, path: &Vec<String>) -> (r: Option<&TranslationObject>)
        ensures
            match found_in(self@, texts(path@), self@.len() as int) {
                Some(t) => r matches Some(object) && object@ == t,
                None => r is None,
            },
            self.wf() ==> (r matches Some(object) ==> object.wf()),
    {
        let ghost nodes = self@;
        let mut i: usize = 0;
        proof {
            lemma_node_models(self.0@);
        }
        while i < self.0.len()
            invariant
                nodes == self@,
                nodes.len() == self.0@.len(),
                forall|q: int|
                    0 <= q < self.0@.len() ==> (#[trigger] nodes[q]) == (
                        self.0@[q].0@,
                        self.0@[q].1@,
                    ),
                i <= self.0@.len(),
                found_in(nodes, texts(path@), i as int) is None,
            decreases self.0.len() - i,
        {
            match self.0[i].1.find_path(path) {
                Some(object) => {
                    proof {
                        assert(found_in(nodes, texts(path@), i + 1) == Some(object@));
                        lemma_found_in_stays(nodes, texts(path@), i + 1, nodes.len() as int);
                        assert(self.wf() ==> tree_wf(nodes[i as int].1));
                    }
                    return Some(object);
                },
                None => {},
            }
            i += 1;
        }
        None
    }
}


/// While a table is read without a fault, a string among its entries makes
/// it a translation and a table among them makes it a namespace.
pub proof fn lemma_node_fill_shape(entries: Seq<(String, Document)>, n: int)
    requires
        0 <= n <= entries.len(),
        node_fill(entries, n) is Ok,
    ensures
        forall|k: int|
            0 <= k < n && (#[trigger] entries[k]).1 is Text ==> node_fill(entries, n)
                matches Ok(Some(TreeModel::Translation(_))),
        forall|k: int|
            0 <= k < n && (#[trigger] entries[k]).1 is Table ==> node_fill(entries, n)
                matches Ok(Some(TreeModel::Nesting(_))),
    decreases n,
{
    if n > 0 {
        lemma_node_fill_shape(entries, n - 1);
    }
}

/// Homogeneity: a table that holds a string and a table side by side, in
/// whatever order, is no translation node.
pub proof fn lemma_mixed_table_fails(
    entries: Vec<(String, Document)>,
    at: Option<usize>,
    i: int,
    j: int,
)
    requires
        0 <= i < entries@.len(),
        0 <= j < entries@.len(),
        entries@[i].1 is Text,
        entries@[j].1 is Table,
    ensures
        node_of(Document::Table { entries, at }) is Err,
{
    if node_fill(entries@, entries@.len() as int) is Ok {
        lemma_node_fill_shape(entries@, entries@.len() as int);
        assert(entries@[i].1 is Text);
        assert(entries@[j].1 is Table);
    }
}

/// Homogeneity, by name: when the entries before the `n`-th read without a
/// fault, and the `n`-th is a table after strings or a string after tables,
/// then what is wrong with the table is that it mixes the two.
pub proof fn lemma_mixed_table_reports_mix(
    entries: Vec<(String, Document)>,
    at: Option<usize>,
    n: int,
)
    requires
        0 <= n < entries@.len(),
        node_fill(entries@, n) matches Ok(Some(state)) && ((state is Translation
            && entries@[n].1 is Table) || (state is Nesting && entries@[n].1 is Text)),
    ensures
        node_of(Document::Table { entries, at }) == Err::<TreeModel, NodeFault>(
            NodeFault::MixedValues,
        ),
{
    assert(node_fill(entries@, n + 1) == Err::<Option<TreeModel>, NodeFault>(
        NodeFault::MixedValues,
    ));
    lemma_node_fill_fault_stays(entries@, n + 1, entries@.len() as int);
}


/// What the first entries of a table read as without a fault, they read as
/// in a tree as well.
pub proof fn lemma_node_fill_is_fill(origin: Origin, entries: Seq<(String, Document)>, n: int)
    requires
        0 <= n <= entries.len(),
        node_fill(entries, n) is Ok,
    ensures
        fill(origin, entries, n) == node_fill(entries, n)->Ok_0,
    decreases entries, n,
{
    if n > 0 {
        lemma_node_fill_is_fill(origin, entries, n - 1);
        match entries[n - 1].1 {
            Document::Table { entries: inner, at } => {
                lemma_node_is_tree(origin, entries[n - 1].1);
            },
            _ => {},
        }
    }
}

/// A document that reads as a node reads as the same tree: the two ways of
/// reading differ only in what they make of faults.
pub proof fn lemma_node_is_tree(origin: Origin, doc: Document)
    requires
        node_of(doc) is Ok,
    ensures
        tree_of(origin, doc) == node_of(doc)->Ok_0,
    decreases doc,
{
    match doc {
        Document::Table { entries, at } => {
            lemma_node_fill_is_fill(origin, entries@, entries@.len() as int);
        },
        _ => {},
    }
}

} // verus!
