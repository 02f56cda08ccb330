//! Building one tree out of many sources: each source is put at its path,
//! in an order that goes by the names of the sources, and where two sources
//! meet a policy decides which one stays.

use crate::config::{SeekMode, TranslationOverlap};
use crate::document::{parsed_toml, Document};
use crate::text::{
    chars_of, lemma_lex_lt_asymmetric, lex_lt, lowercase_of, lowercased, text_lt, texts,
};
use crate::tree::{
    child_of, children_model, find_child, lemma_child_of_with_child, lemma_children_model,
    lemma_first_in, names_of, position, put_child, subtree_at, tree_of, tree_of_parse, tree_wf,
    with_child, Origin, TranslationTree, TranslationTreeParseError, TreeModel,
};
use vstd::prelude::*;
use vstd::string::*;

verus! {

/// One source as the builder keeps it: the path under which it goes into
/// the tree, the name it is ordered by, and the tree it reads as.
pub ghost struct RegistrationModel {
    pub path: Seq<Seq<char>>,
    pub origin: Seq<char>,
    pub tree: TreeModel,
}

/// What a builder holds: its sources in the order in which they were
/// registered, and the two settings that govern the merge.
pub ghost struct BuilderModel {
    pub registrations: Seq<RegistrationModel>,
    pub seek_mode: SeekMode,
    pub overlap: TranslationOverlap,
}

/// The key by which a source is ordered: its name in lower case.
pub open spec fn order_key(r: RegistrationModel) -> Seq<char> {
    lowercase_of(r.origin)
}

/// `x` put into `sorted` behind every source whose key is not greater than
/// its own.
pub open spec fn insert_by_origin(
    sorted: Seq<RegistrationModel>,
    x: RegistrationModel,
) -> Seq<RegistrationModel>
    decreases sorted.len(),
{
    if sorted.len() == 0 {
        seq![x]
    } else if !lex_lt(order_key(x), order_key(sorted.last())) {
        sorted.push(x)
    } else {
        insert_by_origin(sorted.drop_last(), x).push(sorted.last())
    }
}

/// The sources in ascending order of their keys; sources with equal keys
/// keep the order in which they were registered.
pub open spec fn sorted_by_origin(regs: Seq<RegistrationModel>) -> Seq<RegistrationModel>
    decreases regs.len(),
{
    if regs.len() == 0 {
        Seq::empty()
    } else {
        insert_by_origin(sorted_by_origin(regs.drop_last()), regs.last())
    }
}

/// The order in which the sources are merged: ascending by key, or the
/// reverse of that.
pub open spec fn merge_order(regs: Seq<RegistrationModel>, mode: SeekMode) -> Seq<
    RegistrationModel,
> {
    match mode {
        SeekMode::Alphabetical => sorted_by_origin(regs),
        SeekMode::Unalphabetical => sorted_by_origin(regs).reverse(),
    }
}

/// The branches of a namespace after `tree` is put under the segments of
/// `path` from the `i`-th on.
///
/// Namespaces that the path needs and that do not exist are made. Where the
/// last segment names a branch that is already there, the policy decides:
/// `Overwrite` puts `tree` in its place, `Ignore` leaves everything as it
/// is. The same holds where an earlier segment names a branch that is no
/// namespace: `Overwrite` puts a new namespace in its place, `Ignore`
/// leaves everything as it is. An empty path puts nothing anywhere.
pub open spec fn insert_at(
    children: Seq<(Seq<char>, TreeModel)>,
    path: Seq<Seq<char>>,
    i: int,
    tree: TreeModel,
    overlap: TranslationOverlap,
) -> Seq<(Seq<char>, TreeModel)>
    decreases path.len() - i,
{
    if i < 0 || i >= path.len() {
        children
    } else if i == path.len() - 1 {
        if child_of(children, path[i]) is Some && overlap == TranslationOverlap::Ignore {
            children
        } else {
            with_child(children, path[i], tree)
        }
    } else {
        match child_of(children, path[i]) {
            Some(TreeModel::Nesting(inner)) => with_child(
                children,
                path[i],
                TreeModel::Nesting(insert_at(inner, path, i + 1, tree, overlap)),
            ),
            Some(_) => if overlap == TranslationOverlap::Ignore {
                children
            } else {
                with_child(
                    children,
                    path[i],
                    TreeModel::Nesting(insert_at(Seq::empty(), path, i + 1, tree, overlap)),
                )
            },
            None => with_child(
                children,
                path[i],
                TreeModel::Nesting(insert_at(Seq::empty(), path, i + 1, tree, overlap)),
            ),
        }
    }
}

/// The branches of the root after the first `n` sources of `regs` are
/// merged, one after the other.
pub open spec fn merged(regs: Seq<RegistrationModel>, n: int, overlap: TranslationOverlap) -> Seq<
    (Seq<char>, TreeModel),
>
    decreases n,
{
    if n <= 0 || n > regs.len() {
        Seq::empty()
    } else {
        insert_at(merged(regs, n - 1, overlap), regs[n - 1].path, 0, regs[n - 1].tree, overlap)
    }
}

/// The tree that a builder builds.
pub open spec fn built(b: BuilderModel) -> TreeModel {
    let order = merge_order(b.registrations, b.seek_mode);
    TreeModel::Nesting(merged(order, order.len() as int, b.overlap))
}

/// [`insert_by_origin`] puts `x` at position `j` when every source from `j`
/// on has a greater key and the one before `j` has not.
pub proof fn lemma_insert_by_origin(s: Seq<RegistrationModel>, x: RegistrationModel, j: int)
    requires
        0 <= j <= s.len(),
        forall|k: int| j <= k < s.len() ==> lex_lt(order_key(x), order_key(#[trigger] s[k])),
        j > 0 ==> !lex_lt(order_key(x), order_key(s[j - 1])),
    ensures
        insert_by_origin(s, x) == s.insert(j, x),
    decreases s.len(),
{
    if s.len() == 0 {
        assert(seq![x] =~= s.insert(j, x));
    } else if j == s.len() {
        assert(s.push(x) =~= s.insert(j, x));
    } else {
        assert(lex_lt(order_key(x), order_key(s[s.len() - 1])));
        lemma_insert_by_origin(s.drop_last(), x, j);
        assert(s.drop_last().insert(j, x).push(s.last()) =~= s.insert(j, x));
    }
}

/// Puts `tree` into the branches of a namespace, under the segments of
/// `path` from the `i`-th on.
pub fn insert_into(
    children: Vec<(String, TranslationTree)>,
    path: &Vec<String>,
    i: usize,
    tree: TranslationTree,
    overlap: TranslationOverlap,
) -> (r: Vec<(String, TranslationTree)>)
    ensures
        children_model(r@) == insert_at(
            children_model(children@),
            texts(path@),
            i as int,
            tree@,
            overlap,
        ),
        tree_wf(TreeModel::Nesting(children_model(children@))) && tree.wf() ==> tree_wf(
            TreeModel::Nesting(children_model(r@)),
        ),
    decreases path@.len() - i,
{
    let mut children = children;
    if i >= path.len() {
        return children;
    }
    let ghost before = children_model(children@);
    let ghost names = names_of(before);
    let name = &path[i];
    proof {
        lemma_children_model(children@);
        lemma_first_in(names, name@, names.len() as int);
        assert(texts(path@)[i as int] == name@);
    }
    let found = find_child(&children, name.as_str());
    if i + 1 == path.len() {
        match found {
            Some(_) => match overlap {
                TranslationOverlap::Ignore => children,
                TranslationOverlap::Overwrite => {
                    put_child(&mut children, name.clone(), tree);
                    children
                },
            },
            None => {
                put_child(&mut children, name.clone(), tree);
                children
            },
        }
    } else {
        match found {
            Some(k) => {
                let ghost old_children = children@;
                let (old_name, node) = children.remove(k);
                let ghost sound = tree_wf(TreeModel::Nesting(before)) && tree.wf();
                proof {
                    assert(old_name@ == name@);
                    assert(node@ == before[k as int].1);
                    assert(sound ==> tree_wf(before[k as int].1));
                }
                let replacement = match node {
                    TranslationTree::Nesting(inner) => {
                        let grown = insert_into(inner, path, i + 1, tree, overlap);
                        TranslationTree::Nesting(grown)
                    },
                    other => match overlap {
                        TranslationOverlap::Ignore => other,
                        TranslationOverlap::Overwrite => {
                            proof {
                                lemma_children_model(Seq::empty());
                                assert(children_model(Seq::empty()) =~= Seq::empty());
                            }
                            let grown = insert_into(Vec::new(), path, i + 1, tree, overlap);
                            TranslationTree::Nesting(grown)
                        },
                    },
                };
                let ghost put = replacement@;
                children.insert(k, (old_name, replacement));
                proof {
                    lemma_children_model(children@);
                    let after = children_model(children@);
                    assert(children@ =~= old_children.update(k as int, children@[k as int]));
                    assert(after =~= before.update(k as int, (name@, put)));
                    assert(names_of(after) =~= names);
                    if sound {
                        assert forall|q: int| 0 <= q < after.len() implies tree_wf(
                            (#[trigger] after[q]).1,
                        ) by {
                            if q != k {
                                assert(after[q] == before[q]);
                            }
                        }
                    }
                    if put == before[k as int].1 {
                        assert(after =~= before);
                    }
                }
                children
            },
            None => {
                proof {
                    lemma_children_model(Seq::empty());
                    assert(children_model(Seq::empty()) =~= Seq::empty());
                }
                let grown = insert_into(Vec::new(), path, i + 1, tree, overlap);
                put_child(&mut children, name.clone(), TranslationTree::Nesting(grown));
                children
            },
        }
    }
}

/// One source as the builder keeps it.
#[derive(Debug)]
struct Registration {
    path: Vec<String>,
    origin: String,
    tree: TranslationTree,
}

/// The model of one source.
spec fn registration_model(r: Registration) -> RegistrationModel {
    RegistrationModel { path: texts(r.path@), origin: r.origin@, tree: r.tree@ }
}

/// The models of a list of sources.
spec fn registration_models(v: Seq<Registration>) -> Seq<RegistrationModel> {
    v.map_values(|r: Registration| registration_model(r))
}

/// Collects sources and builds one tree out of them.
#[derive(Debug)]
pub struct TranslationTreeBuilder {
    sources: Vec<Registration>,
    seek_mode: SeekMode,
    overlap: TranslationOverlap,
}

impl View for TranslationTreeBuilder {
    type V = BuilderModel;

    closed spec fn view(&self) -> BuilderModel {
        BuilderModel {
            registrations: registration_models(self.sources@),
            seek_mode: self.seek_mode,
            overlap: self.overlap,
        }
    }
}

/// The characters of the key by which a source named `origin` is ordered.
fn sort_key(origin: &str) -> (r: Vec<char>)
    ensures
        r@ == lowercase_of(origin@),
{
    let lower = lowercased(origin);
    chars_of(lower.as_str())
}

impl TranslationTreeBuilder {
    /// A builder without sources that merges in ascending order and lets
    /// the later source win.
    pub fn new() -> (b: Self)
        ensures
            b@ == (BuilderModel {
                registrations: Seq::empty(),
                seek_mode: SeekMode::Alphabetical,
                overlap: TranslationOverlap::Overwrite,
            }),
    {
        let b = Self {
            sources: Vec::new(),
            seek_mode: SeekMode::Alphabetical,
            overlap: TranslationOverlap::Overwrite,
        };
        proof {
            assert(b@.registrations =~= Seq::empty());
        }
        b
    }

    /// Sets the order in which the sources are merged.
    pub fn with_seek_mode(&mut self, seek_mode: SeekMode) -> (r: &mut Self)
        ensures
            r@ == (BuilderModel { seek_mode, ..old(self)@ }),
            *final(self) == *final(r),
    {
        self.seek_mode = seek_mode;
        self
    }

    /// Sets which source wins where two define the same path.
    pub fn with_overlap(&mut self, overlap: TranslationOverlap) -> (r: &mut Self)
        ensures
            r@ == (BuilderModel { overlap, ..old(self)@ }),
            *final(self) == *final(r),
    {
        self.overlap = overlap;
        self
    }

    /// Registers a tree under `path`. `origin` is the name by which the
    /// source is ordered among the others.
    pub fn with_tree_source(
        &mut self,
        path: Vec<String>,
        origin: String,
        tree: TranslationTree,
    ) -> (r: &mut Self)
        ensures
            r@ == (BuilderModel {
                registrations: old(self)@.registrations.push(
                    RegistrationModel { path: texts(path@), origin: origin@, tree: tree@ },
                ),
                ..old(self)@
            }),
            *final(self) == *final(r),
    {
        let ghost before = self@.registrations;
        let ghost added = RegistrationModel { path: texts(path@), origin: origin@, tree: tree@ };
        self.sources.push(Registration { path, origin, tree });
        proof {
            assert(self@.registrations =~= before.push(added));
        }
        self
    }

    /// Registers the contents of the file `file` under `path`. The contents
    /// are parsed as TOML; the file's name is what the source is ordered
    /// by, and what errors in it refer to.
    pub fn with_file_source(
        &mut self,
        path: Vec<String>,
        file: String,
        contents: String,
    ) -> (r: &mut Self)
        ensures
            r@ == (BuilderModel {
                registrations: old(self)@.registrations.push(
                    RegistrationModel {
                        path: texts(path@),
                        origin: file@,
                        tree: tree_of_parse(
                            Origin { file: Some(file@), text: contents@ },
                            parsed_toml(contents@),
                        ),
                    },
                ),
                ..old(self)@
            }),
            *final(self) == *final(r),
    {
        let tree = TranslationTree::from_raw(Some(file.as_str()), contents.as_str());
        self.with_tree_source(path, file, tree)
    }

    /// Registers a document under `path` that was parsed from
    /// `raw_contents`, the contents of the file `file`. The file's name is
    /// what the source is ordered by, and what errors in it refer to.
    pub fn with_document_source(
        &mut self,
        path: Vec<String>,
        file: String,
        raw_contents: &str,
        document: &Document,
    ) -> (r: &mut Self)
        ensures
            r@ == (BuilderModel {
                registrations: old(self)@.registrations.push(
                    RegistrationModel {
                        path: texts(path@),
                        origin: file@,
                        tree: tree_of(Origin { file: Some(file@), text: raw_contents@ }, *document),
                    },
                ),
                ..old(self)@
            }),
            *final(self) == *final(r),
    {
        let tree = TranslationTree::from_document(Some(file.as_str()), raw_contents, document);
        self.with_tree_source(path, file, tree)
    }

    /// Registers a text under `path`. The text is parsed as TOML; it
    /// belongs to no file and is ordered by the empty name.
    pub fn with_raw_source(&mut self, path: Vec<String>, contents: String) -> (r: &mut Self)
        ensures
            r@ == (BuilderModel {
                registrations: old(self)@.registrations.push(
                    RegistrationModel {
                        path: texts(path@),
                        origin: Seq::empty(),
                        tree: tree_of_parse(
                            Origin { file: None, text: contents@ },
                            parsed_toml(contents@),
                        ),
                    },
                ),
                ..old(self)@
            }),
            *final(self) == *final(r),
    {
        let tree = TranslationTree::from_raw(None, contents.as_str());
        self.with_tree_source(path, String::new(), tree)
    }

    /// Registers a branch that could not be read under `path`; it is
    /// ordered by the empty name.
    pub fn with_error_source(
        &mut self,
        path: Vec<String>,
        error: TranslationTreeParseError,
    ) -> (r: &mut Self)
        ensures
            r@ == (BuilderModel {
                registrations: old(self)@.registrations.push(
                    RegistrationModel {
                        path: texts(path@),
                        origin: Seq::empty(),
                        tree: TreeModel::NestingError(error@),
                    },
                ),
                ..old(self)@
            }),
            *final(self) == *final(r),
    {
        self.with_tree_source(path, String::new(), TranslationTree::NestingError(error))
    }

    /// Builds the tree: the sources are taken in the order of their names,
    /// lower-cased, or in the reverse of it, and each is put at its path in
    /// turn. Nothing makes the build fail: a source that could not be read
    /// is a broken branch of the tree.
    pub fn build(self) -> (t: TranslationTree)
        ensures
            t@ == built(self@),
    {
        let ghost all = self@.registrations;
        let seek_mode = self.seek_mode;
        let overlap = self.overlap;
        let mut rest = self.sources;
        let mut sorted: Vec<Registration> = Vec::new();
        let mut keys: Vec<Vec<char>> = Vec::new();
        proof {
            assert(registration_models(sorted@) =~= sorted_by_origin(all.take(0)));
            assert(all.skip(0) =~= all);
        }
        while rest.len() > 0
            invariant
                rest@.len() <= all.len(),
                registration_models(rest@) == all.skip(all.len() - rest@.len()),
                registration_models(sorted@) == sorted_by_origin(all.take(all.len() - rest@.len())),
                keys@.len() == sorted@.len(),
                forall|q: int|
                    0 <= q < keys@.len() ==> (#[trigger] keys@[q])@ == order_key(
                        registration_models(sorted@)[q],
                    ),
            decreases rest.len(),
        {
            let ghost done = all.len() - rest@.len();
            let ghost old_rest = registration_models(rest@);
            let ghost old_sorted = registration_models(sorted@);
            let reg = rest.remove(0);
            let ghost x = registration_model(reg);
            proof {
                assert(x == old_rest[0]);
                assert(x == all[done]);
                assert(registration_models(rest@) =~= old_rest.remove(0));
                assert(old_rest.remove(0) =~= all.skip(done + 1));
                assert(all.take(done + 1).drop_last() =~= all.take(done));
                assert(all.take(done + 1).last() == x);
            }
            let key = sort_key(reg.origin.as_str());
            let mut j: usize = sorted.len();
            while j > 0 && text_lt(&key, &keys[j - 1])
                invariant
                    j <= sorted@.len(),
                    keys@.len() == sorted@.len(),
                    key@ == order_key(x),
                    old_sorted == registration_models(sorted@),
                    forall|q: int|
                        0 <= q < keys@.len() ==> (#[trigger] keys@[q])@ == order_key(
                            old_sorted[q],
                        ),
                    forall|q: int|
                        j <= q < old_sorted.len() ==> lex_lt(
                            order_key(x),
                            order_key(#[trigger] old_sorted[q]),
                        ),
                decreases j,
            {
                j -= 1;
            }
            proof {
                lemma_insert_by_origin(old_sorted, x, j as int);
            }
            let ghost old_keys = keys@;
            sorted.insert(j, reg);
            keys.insert(j, key);
            proof {
                assert(registration_models(sorted@) =~= old_sorted.insert(j as int, x));
                assert forall|q: int| 0 <= q < keys@.len() implies (#[trigger] keys@[q])@
                    == order_key(registration_models(sorted@)[q]) by {
                    if q < j {
                        assert(keys@[q] == old_keys[q]);
                    } else if q > j {
                        assert(keys@[q] == old_keys[q - 1]);
                    }
                }
            }
        }
        let ghost order = merge_order(all, seek_mode);
        let ghost ascending = registration_models(sorted@);
        proof {
            assert(all.take(all.len() as int) =~= all);
            assert(ascending == sorted_by_origin(all));
            lemma_sorted_by_origin_keeps(all);
        }
        let mut root: Vec<(String, TranslationTree)> = Vec::new();
        proof {
            lemma_children_model(root@);
            assert(children_model(root@) =~= merged(order, 0, overlap));
        }
        while sorted.len() > 0
            invariant
                order == merge_order(all, seek_mode),
                ascending == sorted_by_origin(all),
                sorted@.len() <= ascending.len(),
                registration_models(sorted@) == (match seek_mode {
                    SeekMode::Alphabetical => ascending.skip(ascending.len() - sorted@.len()),
                    SeekMode::Unalphabetical => ascending.take(sorted@.len() as int),
                }),
                children_model(root@) == merged(order, ascending.len() - sorted@.len(), overlap),
            decreases sorted.len(),
        {
            let ghost done = ascending.len() - sorted@.len();
            let ghost old_models = registration_models(sorted@);
            let reg = match seek_mode {
                SeekMode::Alphabetical => sorted.remove(0),
                SeekMode::Unalphabetical => {
                    let last = sorted.len() - 1;
                    sorted.remove(last)
                },
            };
            proof {
                match seek_mode {
                    SeekMode::Alphabetical => {
                        assert(registration_model(reg) == old_models[0]);
                        assert(registration_model(reg) == ascending[done]);
                        assert(registration_models(sorted@) =~= old_models.remove(0));
                        assert(old_models.remove(0) =~= ascending.skip(done + 1));
                    },
                    SeekMode::Unalphabetical => {
                        assert(registration_model(reg) == old_models[old_models.len() - 1]);
                        assert(registration_model(reg) == ascending[ascending.len() - 1 - done]);
                        assert(registration_models(sorted@) =~= old_models.remove(
                            old_models.len() - 1,
                        ));
                        assert(old_models.remove(old_models.len() - 1) =~= ascending.take(
                            sorted@.len() as int,
                        ));
                        assert(order[done] == ascending[ascending.len() - 1 - done]);
                    },
                }
                assert(order.len() == ascending.len());
                assert(registration_model(reg) == order[done]);
            }
            root = insert_into(root, &reg.path, 0, reg.tree, overlap);
        }
        let t = TranslationTree::Nesting(root);
        proof {
            assert(order.len() == ascending.len());
        }
        t
    }
}

/// Sorting keeps the number of sources, and each source of the sorted list
/// is one of the given list.
pub proof fn lemma_sorted_by_origin_keeps(regs: Seq<RegistrationModel>)
    ensures
        sorted_by_origin(regs).len() == regs.len(),
        forall|k: int|
            0 <= k < regs.len() ==> exists|j: int|
                0 <= j < regs.len() && regs[j] == #[trigger] sorted_by_origin(regs)[k],
    decreases regs.len(),
{
    if regs.len() > 0 {
        let front = regs.drop_last();
        let sorted_front = sorted_by_origin(front);
        lemma_sorted_by_origin_keeps(front);
        lemma_insert_by_origin_keeps(sorted_front, regs.last());
        let sorted = sorted_by_origin(regs);
        assert forall|k: int| 0 <= k < regs.len() implies exists|j: int|
            0 <= j < regs.len() && regs[j] == #[trigger] sorted[k] by {
            if sorted[k] == regs.last() {
                assert(regs[regs.len() - 1] == sorted[k]);
            } else {
                let q = choose|q: int| 0 <= q < sorted_front.len() && sorted_front[q] == sorted[k];
                let j = choose|j: int| 0 <= j < front.len() && front[j] == sorted_front[q];
                assert(regs[j] == sorted[k]);
            }
        }
    }
}

/// Inserting adds one source, and each source of the result is the new one
/// or one that was there.
pub proof fn lemma_insert_by_origin_keeps(s: Seq<RegistrationModel>, x: RegistrationModel)
    ensures
        insert_by_origin(s, x).len() == s.len() + 1,
        forall|k: int|
            0 <= k <= s.len() ==> (#[trigger] insert_by_origin(s, x)[k]) == x || exists|q: int|
                0 <= q < s.len() && s[q] == insert_by_origin(s, x)[k],
    decreases s.len(),
{
    let r = insert_by_origin(s, x);
    if s.len() == 0 {
    } else if !lex_lt(order_key(x), order_key(s.last())) {
        assert forall|k: int| 0 <= k <= s.len() implies (#[trigger] r[k]) == x || exists|q: int|
            0 <= q < s.len() && s[q] == r[k] by {
            if k < s.len() {
                assert(s[k] == r[k]);
            }
        }
    } else {
        let front = s.drop_last();
        lemma_insert_by_origin_keeps(front, x);
        let rf = insert_by_origin(front, x);
        assert forall|k: int| 0 <= k <= s.len() implies (#[trigger] r[k]) == x || exists|q: int|
            0 <= q < s.len() && s[q] == r[k] by {
            if k == s.len() {
                assert(s[s.len() - 1] == r[k]);
            } else {
                assert(r[k] == rf[k]);
                if rf[k] != x {
                    let q = choose|q: int| 0 <= q < front.len() && front[q] == rf[k];
                    assert(s[q] == r[k]);
                }
            }
        }
    }
}


/// After a tree is put under a path into a namespace without branches, the
/// path leads to that tree.
pub proof fn lemma_insert_fresh(
    path: Seq<Seq<char>>,
    i: int,
    tree: TreeModel,
    overlap: TranslationOverlap,
)
    requires
        0 <= i < path.len(),
    ensures
        subtree_at(
            TreeModel::Nesting(insert_at(Seq::empty(), path, i, tree, overlap)),
            path,
            i,
        ) == Some(tree),
    decreases path.len() - i,
{
    let none = Seq::<(Seq<char>, TreeModel)>::empty();
    assert(names_of(none) =~= Seq::empty());
    assert(child_of(none, path[i]) is None);
    if i == path.len() - 1 {
        lemma_child_of_with_child(none, path[i], tree);
        assert(subtree_at(tree, path, i + 1) == Some(tree));
    } else {
        let inner = TreeModel::Nesting(insert_at(none, path, i + 1, tree, overlap));
        lemma_child_of_with_child(none, path[i], inner);
        lemma_insert_fresh(path, i + 1, tree, overlap);
    }
}

/// After a tree is put under a path that already leads somewhere, the path
/// leads to the new tree under `Overwrite` and to what was there under
/// `Ignore`.
pub proof fn lemma_insert_existing(
    children: Seq<(Seq<char>, TreeModel)>,
    path: Seq<Seq<char>>,
    i: int,
    present: TreeModel,
    tree: TreeModel,
    overlap: TranslationOverlap,
)
    requires
        0 <= i < path.len(),
        subtree_at(TreeModel::Nesting(children), path, i) == Some(present),
    ensures
        subtree_at(
            TreeModel::Nesting(insert_at(children, path, i, tree, overlap)),
            path,
            i,
        ) == Some(
            match overlap {
                TranslationOverlap::Overwrite => tree,
                TranslationOverlap::Ignore => present,
            },
        ),
    decreases path.len() - i,
{
    if i == path.len() - 1 {
        let there = child_of(children, path[i])->0;
        assert(subtree_at(there, path, i + 1) == Some(there));
        assert(there == present);
        if overlap == TranslationOverlap::Overwrite {
            lemma_child_of_with_child(children, path[i], tree);
            assert(subtree_at(tree, path, i + 1) == Some(tree));
        }
    } else {
        match child_of(children, path[i]) {
            Some(TreeModel::Nesting(inner)) => {
                lemma_insert_existing(inner, path, i + 1, present, tree, overlap);
                lemma_child_of_with_child(
                    children,
                    path[i],
                    TreeModel::Nesting(insert_at(inner, path, i + 1, tree, overlap)),
                );
            },
            Some(other) => {
                assert(subtree_at(other, path, i + 1) is None);
            },
            None => {},
        }
    }
}

/// Two sources of which the first has the smaller key are merged in this
/// order, in whichever order they were registered.
pub proof fn lemma_order_of_two(a: RegistrationModel, b: RegistrationModel)
    requires
        lex_lt(order_key(a), order_key(b)),
    ensures
        sorted_by_origin(seq![a, b]) == seq![a, b],
        sorted_by_origin(seq![b, a]) == seq![a, b],
{
    lemma_lex_lt_asymmetric(order_key(a), order_key(b));
    let none = Seq::<RegistrationModel>::empty();
    assert(seq![a, b].drop_last() =~= seq![a]);
    assert(seq![b, a].drop_last() =~= seq![b]);
    assert(seq![a].drop_last() =~= none);
    assert(seq![b].drop_last() =~= none);
    assert(sorted_by_origin(none) =~= none);
    assert(sorted_by_origin(seq![a]) =~= seq![a]);
    assert(sorted_by_origin(seq![b]) =~= seq![b]);
    assert(seq![a].push(b) =~= seq![a, b]);
    assert(insert_by_origin(none, a) =~= seq![a]);
    assert(seq![a].push(b) =~= seq![a, b]);
    assert(insert_by_origin(seq![b], a) =~= seq![a].push(b));
}

/// Merge precedence: of two sources that define the same path, under
/// `Overwrite` in ascending order the one whose name comes later wins, and
/// under `Ignore` the one whose name comes first; the reversed order turns
/// both around. The order in which the two were registered does not matter.
/// Names are compared in lower case.
pub proof fn lemma_merge_precedence(
    a: RegistrationModel,
    b: RegistrationModel,
    seek_mode: SeekMode,
    overlap: TranslationOverlap,
)
    requires
        a.path == b.path,
        a.path.len() > 0,
        lex_lt(order_key(a), order_key(b)),
    ensures
        subtree_at(
            built(BuilderModel { registrations: seq![a, b], seek_mode, overlap }),
            a.path,
            0,
        ) == Some(
            if (seek_mode == SeekMode::Alphabetical) == (overlap == TranslationOverlap::Overwrite) {
                b.tree
            } else {
                a.tree
            },
        ),
        built(BuilderModel { registrations: seq![b, a], seek_mode, overlap }) == built(
            BuilderModel { registrations: seq![a, b], seek_mode, overlap },
        ),
{
    lemma_order_of_two(a, b);
    let ascending = seq![a, b];
    let order = merge_order(ascending, seek_mode);
    let first = order[0];
    let second = order[1];
    assert(ascending.reverse() =~= seq![b, a]);
    assert(order.len() == 2);
    let none = Seq::<(Seq<char>, TreeModel)>::empty();
    assert(merged(order, 0, overlap) =~= none);
    let one = insert_at(none, first.path, 0, first.tree, overlap);
    assert(merged(order, 1, overlap) == one);
    lemma_insert_fresh(first.path, 0, first.tree, overlap);
    lemma_insert_existing(one, second.path, 0, first.tree, second.tree, overlap);
}

} // verus!
