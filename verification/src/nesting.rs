//! Nested translations as plain strings: namespaces that hold namespaces or
//! tables from language names to texts.

use crate::template::pairs;
use crate::text::same_text;
use crate::tree::{first_in, lemma_first_in_stays, position};
use vstd::prelude::*;

verus! {

/// A namespace of translations, or the texts of one translation.
#[derive(Debug)]
pub enum NestingType {
    /// A namespace: named nestings.
    Object(Vec<(String, NestingType)>),
    /// One translation: language names with their texts.
    Translation(Vec<(String, String)>),
}

/// What a nesting is.
pub ghost enum NestingModel {
    Object(Seq<(Seq<char>, NestingModel)>),
    Translation(Seq<(Seq<char>, Seq<char>)>),
}

/// What a nesting is: the model of each nesting under its name.
pub open spec fn nesting_model(n: NestingType) -> NestingModel
    decreases n,
{
    match n {
        NestingType::Object(nested) => NestingModel::Object(
            nesting_models_upto(nested@, nested@.len() as int),
        ),
        NestingType::Translation(translation) => NestingModel::Translation(pairs(translation@)),
    }
}

/// The models of the first `n` nestings of a namespace.
pub open spec fn nesting_models_upto(nested: Seq<(String, NestingType)>, n: int) -> Seq<
    (Seq<char>, NestingModel),
>
    decreases nested, n,
{
    if n <= 0 || n > nested.len() {
        Seq::empty()
    } else {
        nesting_models_upto(nested, n - 1).push((nested[n - 1].0@, nesting_model(nested[n - 1].1)))
    }
}

/// The models of the nestings of a namespace.
pub open spec fn nesting_models(nested: Seq<(String, NestingType)>) -> Seq<
    (Seq<char>, NestingModel),
> {
    nesting_models_upto(nested, nested.len() as int)
}

impl View for NestingType {
    type V = NestingModel;

    open spec fn view(&self) -> NestingModel {
        nesting_model(*self)
    }
}

/// [`nesting_models_upto`] holds one model for each of the first `n`
/// nestings.
pub proof fn lemma_nesting_models_upto(nested: Seq<(String, NestingType)>, n: int)
    requires
        0 <= n <= nested.len(),
    ensures
        nesting_models_upto(nested, n).len() == n,
        forall|i: int|
            0 <= i < n ==> (#[trigger] nesting_models_upto(nested, n)[i]) == (
                nested[i].0@,
                nested[i].1@,
            ),
    decreases n,
{
    if n > 0 {
        lemma_nesting_models_upto(nested, n - 1);
    }
}

/// The names of the nestings of a namespace.
pub open spec fn nesting_names(nested: Seq<(Seq<char>, NestingModel)>) -> Seq<Seq<char>> {
    nested.map_values(|c: (Seq<char>, NestingModel)| c.0)
}

/// The views of a path of string slices.
pub open spec fn segments(path: Seq<&str>) -> Seq<Seq<char>> {
    path.map_values(|s: &str| s@)
}

/// The translation that the segments of `path` from the `i`-th on lead to:
/// each segment names a nesting of the namespace reached so far, and the
/// path ends at a translation.
pub open spec fn at_path(n: NestingModel, path: Seq<Seq<char>>, i: int) -> Option<
    Seq<(Seq<char>, Seq<char>)>,
>
    decreases path.len() - i,
{
    match n {
        NestingModel::Object(nested) => {
            if i < 0 || i >= path.len() {
                None
            } else {
                match position(nesting_names(nested), path[i]) {
                    Some(k) => at_path(nested[k].1, path, i + 1),
                    None => None,
                }
            }
        },
        NestingModel::Translation(translation) => {
            if i < 0 || i >= path.len() {
                Some(translation)
            } else {
                None
            }
        },
    }
}

impl NestingType {
    /// Follows `path` from this nesting and gives the translation it leads
    /// to, if it leads to one.
    pub fn get_path(&self, path: Vec<&str>) -> (r: Option<&Vec<(String, String)>>)
        ensures
            match at_path(self@, segments(path@), 0) {
                Some(t) => r matches Some(found) && pairs(found@) == t,
                None => r is None,
            },
    {
        let ghost whole = segments(path@);
        let mut node: &NestingType = self;
        let mut i: usize = 0;
        loop
            invariant
                whole == segments(path@),
                i <= path@.len(),
                at_path(self@, whole, 0) == at_path(node@, whole, i as int),
            decreases path@.len() - i,
        {
            match node {
                NestingType::Object(nested) => {
                    if i == path.len() {
                        return None;
                    }
                    let ghost models = nesting_models(nested@);
                    let ghost names = nesting_names(models);
                    let wanted: &str = path[i];
                    proof {
                        lemma_nesting_models_upto(nested@, nested@.len() as int);
                        assert(node@ == NestingModel::Object(models));
                        assert(whole[i as int] == wanted@);
                    }
                    let mut k: usize = 0;
                    let mut hit: Option<usize> = None;
                    while k < nested.len() && hit.is_none()
                        invariant
                            models == nesting_models(nested@),
                            names == nesting_names(models),
                            names.len() == nested@.len(),
                            forall|q: int|
                                0 <= q < nested@.len() ==> (#[trigger] models[q]) == (
                                    nested@[q].0@,
                                    nested@[q].1@,
                                ),
                            k <= nested@.len(),
                            match hit {
                                Some(h) => position(names, wanted@) == Some(h as int) && h
                                    < nested@.len(),
                                None => first_in(names, wanted@, k as int) is None,
                            },
                        decreases nested.len() - k + (if hit.is_none() { 1int } else { 0int }),
                    {
                        if same_text(nested[k].0.as_str(), wanted) {
                            proof {
                                assert(names[k as int] == wanted@);
                                assert(first_in(names, wanted@, k + 1) == Some(k as int));
                                lemma_first_in_stays(names, wanted@, k + 1, names.len() as int);
                            }
                            hit = Some(k);
                        } else {
                            k += 1;
                        }
                    }
                    match hit {
                        Some(h) => {
                            node = &nested[h].1;
                            i += 1;
                        },
                        None => {
                            return None;
                        },
                    }
                },
                NestingType::Translation(translation) => {
                    if i == path.len() {
                        return Some(translation);
                    }
                    return None;
                },
            }
        }
    }
}

} // verus!
