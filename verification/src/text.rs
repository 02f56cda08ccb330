//! Helpers on text that the rest of the library shares: character access,
//! ASCII case folding, ordering, edit distance and nearest-candidate search.

use vstd::prelude::*;
use vstd::std_specs::iter::IteratorSpec;

verus! {

/// The characters of `s`, in order.
pub fn chars_of(s: &str) -> (v: Vec<char>)
    ensures
        v@ == s@,
{
    let mut v: Vec<char> = Vec::new();
    for c in it: s.chars()
        invariant
            it.seq() == s@,
            v@ == s@.take(it.index() as int),
    {
        v.push(c);
    }
    v
}

/// Whether two string slices hold the same characters.
pub fn same_text(a: &str, b: &str) -> (r: bool)
    ensures
        r == (a@ == b@),
{
    let x = a.to_owned();
    let y = b.to_owned();
    x == y
}

/// Whether `c` may start an identifier: an ASCII letter or an underscore.
pub open spec fn is_ident_start(c: char) -> bool {
    c == '_' || ('a' <= c && c <= 'z') || ('A' <= c && c <= 'Z')
}

/// Whether `c` may stand inside an identifier: an ASCII letter, an ASCII
/// digit or an underscore.
pub open spec fn is_ident_continue(c: char) -> bool {
    is_ident_start(c) || ('0' <= c && c <= '9')
}

/// Whether `s` is an identifier: not empty, starting with a letter or an
/// underscore, and going on with letters, digits and underscores.
pub open spec fn is_ident_text(s: Seq<char>) -> bool {
    &&& s.len() > 0
    &&& is_ident_start(s[0])
    &&& forall|i: int| 0 <= i < s.len() ==> is_ident_continue(#[trigger] s[i])
}

/// Decides whether `candidate` is an identifier.
pub fn is_ident(candidate: &str) -> (r: bool)
    ensures
        r == is_ident_text(candidate@),
{
    let chars = chars_of(candidate);
    if chars.len() == 0 {
        return false;
    }
    let first = chars[0];
    if !(first == '_' || ('a' <= first && first <= 'z') || ('A' <= first && first <= 'Z')) {
        return false;
    }
    let mut i: usize = 1;
    while i < chars.len()
        invariant
            1 <= i <= chars.len(),
            chars@ == candidate@,
            is_ident_start(chars@[0]),
            forall|j: int| 0 <= j < i ==> is_ident_continue(#[trigger] chars@[j]),
        decreases chars.len() - i,
    {
        let c = chars[i];
        if !(c == '_' || ('a' <= c && c <= 'z') || ('A' <= c && c <= 'Z') || ('0' <= c && c <= '9')) {
            return false;
        }
        i += 1;
    }
    true
}

/// `c` with an ASCII upper-case letter replaced by its lower-case form.
pub open spec fn ascii_lower(c: char) -> char {
    if 'A' <= c && c <= 'Z' {
        ((c as u8) + 32) as char
    } else {
        c
    }
}

/// Executable form of [`ascii_lower`].
pub fn to_ascii_lower(c: char) -> (r: char)
    ensures
        r == ascii_lower(c),
{
    if 'A' <= c && c <= 'Z' {
        let b: u8 = c as u8;
        (b + 32) as char
    } else {
        c
    }
}

/// Equality of two texts up to the case of their ASCII letters.
pub open spec fn same_ignoring_ascii_case(a: Seq<char>, b: Seq<char>) -> bool {
    &&& a.len() == b.len()
    &&& forall|i: int| 0 <= i < a.len() ==> ascii_lower(#[trigger] a[i]) == ascii_lower(b[i])
}

/// Compares two texts up to the case of their ASCII letters.
pub fn eq_ignore_ascii_case(a: &Vec<char>, b: &Vec<char>) -> (r: bool)
    ensures
        r == same_ignoring_ascii_case(a@, b@),
{
    if a.len() != b.len() {
        return false;
    }
    let mut i: usize = 0;
    while i < a.len()
        invariant
            a.len() == b.len(),
            i <= a.len(),
            forall|j: int| 0 <= j < i ==> ascii_lower(#[trigger] a@[j]) == ascii_lower(b@[j]),
        decreases a.len() - i,
    {
        if to_ascii_lower(a[i]) != to_ascii_lower(b[i]) {
            return false;
        }
        i += 1;
    }
    true
}

/// Whether `needle` stands somewhere in `hay`, character for character.
pub open spec fn occurs_in(hay: Seq<char>, needle: Seq<char>) -> bool {
    exists|k: int| #[trigger] occurs_at(hay, needle, k)
}

/// Whether `needle` stands in `hay` at position `k`.
pub open spec fn occurs_at(hay: Seq<char>, needle: Seq<char>, k: int) -> bool {
    &&& 0 <= k
    &&& k + needle.len() <= hay.len()
    &&& hay.subrange(k, k + needle.len()) == needle
}

/// Decides [`occurs_in`].
pub fn contains_text(hay: &Vec<char>, needle: &Vec<char>) -> (r: bool)
    ensures
        r == occurs_in(hay@, needle@),
{
    let n = hay.len();
    let m = needle.len();
    if m > n {
        return false;
    }
    if m == 0 {
        proof {
            assert(hay@.subrange(0, 0) =~= needle@);
            assert(occurs_at(hay@, needle@, 0));
        }
        return true;
    }
    let last = n - m;
    let mut k: usize = 0;
    while k <= last
        invariant
            n == hay@.len(),
            m == needle@.len(),
            0 < m <= n,
            last == n - m,
            k <= last + 1,
            forall|q: int| 0 <= q < k ==> !occurs_at(hay@, needle@, q),
        decreases last + 1 - k,
    {
        let mut j: usize = 0;
        while j < m && hay[k + j] == needle[j]
            invariant
                n == hay@.len(),
                m == needle@.len(),
                0 < m <= n,
                last == n - m,
                k <= last,
                j <= m,
                forall|q: int| 0 <= q < j ==> hay@[k + q] == needle@[q],
            decreases m - j,
        {
            j += 1;
        }
        if j == m {
            proof {
                assert(hay@.subrange(k as int, k + m) =~= needle@);
                assert(occurs_at(hay@, needle@, k as int));
            }
            return true;
        }
        proof {
            if occurs_at(hay@, needle@, k as int) {
                assert(hay@.subrange(k as int, k + m)[j as int] == needle@[j as int]);
            }
        }
        k += 1;
    }
    false
}

/// Strict lexicographic order of two texts by the code points of their characters.
pub open spec fn lex_lt(a: Seq<char>, b: Seq<char>) -> bool {
    exists|k: int| #[trigger] differs_below_at(a, b, k)
}

/// `a` and `b` agree on their first `k` characters, and at position `k` the
/// text `a` ends or holds the smaller character while `b` goes on.
pub open spec fn differs_below_at(a: Seq<char>, b: Seq<char>, k: int) -> bool {
    &&& 0 <= k <= a.len()
    &&& k < b.len()
    &&& a.take(k) == b.take(k)
    &&& (k < a.len() ==> a[k] < b[k])
}

/// Decides [`lex_lt`].
pub fn text_lt(a: &Vec<char>, b: &Vec<char>) -> (r: bool)
    ensures
        r == lex_lt(a@, b@),
{
    let mut i: usize = 0;
    while i < a.len() && i < b.len()
        invariant
            i <= a.len(),
            i <= b.len(),
            a@.take(i as int) == b@.take(i as int),
        decreases a.len() - i,
    {
        if a[i] != b[i] {
            let r = a[i] < b[i];
            proof {
                lemma_first_difference(a@, b@, i as int);
            }
            return r;
        }
        proof {
            assert(a@.take(i + 1) =~= a@.take(i as int).push(a@[i as int]));
            assert(b@.take(i + 1) =~= b@.take(i as int).push(b@[i as int]));
        }
        i += 1;
    }
    proof {
        if i < b.len() {
            assert(differs_below_at(a@, b@, i as int));
        } else {
            assert forall|k: int| !differs_below_at(a@, b@, k) by {
                if differs_below_at(a@, b@, k) {
                    assert(a@.take(i as int)[k] == a@[k]);
                    assert(b@.take(i as int)[k] == b@[k]);
                }
            }
        }
    }
    i < b.len()
}

/// When two texts first differ at `i`, their order is the order of the two
/// characters found there.
pub proof fn lemma_first_difference(a: Seq<char>, b: Seq<char>, i: int)
    requires
        0 <= i < a.len(),
        i < b.len(),
        a.take(i) == b.take(i),
        a[i] != b[i],
    ensures
        lex_lt(a, b) == (a[i] < b[i]),
{
    if a[i] < b[i] {
        assert(differs_below_at(a, b, i));
    } else {
        assert forall|k: int| !differs_below_at(a, b, k) by {
            if differs_below_at(a, b, k) {
                if k < i {
                    assert(a.take(i)[k] == a[k]);
                    assert(b.take(i)[k] == b[k]);
                } else if k > i {
                    assert(a.take(k)[i] == a[i]);
                    assert(b.take(k)[i] == b[i]);
                }
            }
        }
    }
}

/// Of two texts at most one stands before the other.
pub proof fn lemma_lex_lt_asymmetric(a: Seq<char>, b: Seq<char>)
    requires
        lex_lt(a, b),
    ensures
        !lex_lt(b, a),
{
    let k = choose|k: int| differs_below_at(a, b, k);
    assert forall|m: int| !differs_below_at(b, a, m) by {
        if differs_below_at(b, a, m) {
            if m < k {
                assert(a.take(k)[m] == a[m]);
                assert(b.take(k)[m] == b[m]);
            } else if m > k {
                assert(a.take(m)[k] == a[k]);
                assert(b.take(m)[k] == b[k]);
            }
        }
    }
}

/// The lower-case form of a text, as `str::to_lowercase` computes it.
pub uninterp spec fn lowercase_of(s: Seq<char>) -> Seq<char>;

/// Calls `str::to_lowercase` of std. The result is the lower-case form of
/// the argument by Unicode's rules, which depend on the text alone; the
/// contract names it and says nothing more.
#[verifier::external_body]
pub(crate) fn lowercased(s: &str) -> (r: String)
    ensures
        r@ == lowercase_of(s@),
{
    s.to_lowercase()
}

/// The smallest of three numbers.
pub open spec fn min3(x: nat, y: nat, z: nat) -> nat {
    if x <= y && x <= z {
        x
    } else if y <= z {
        y
    } else {
        z
    }
}

/// The Levenshtein distance between two texts: the least number of
/// single-character insertions, deletions and substitutions that turn one
/// into the other.
pub open spec fn levenshtein(a: Seq<char>, b: Seq<char>) -> nat
    decreases a.len() + b.len(),
{
    if a.len() == 0 {
        b.len()
    } else if b.len() == 0 {
        a.len()
    } else if a[0] == b[0] {
        levenshtein(a.drop_first(), b.drop_first())
    } else {
        1 + min3(
            levenshtein(a.drop_first(), b),
            levenshtein(a, b.drop_first()),
            levenshtein(a.drop_first(), b.drop_first()),
        )
    }
}

/// Calls `edit_distance::edit_distance`, which its documentation defines as
/// the Levenshtein distance between the two strings, counted in characters.
/// The contract claims exactly that; the crate's dynamic-programming table
/// is not verified against it.
#[verifier::external_body]
pub(crate) fn edit_distance(a: &str, b: &str) -> (d: usize)
    ensures
        d == levenshtein(a@, b@),
{
    edit_distance::edit_distance(a, b)
}

/// Index of the first candidate among the first `n` that is nearest to
/// `attempt` by edit distance.
pub open spec fn nearest_index(attempt: Seq<char>, candidates: Seq<Seq<char>>, n: int) -> int
    decreases n,
{
    if n <= 1 {
        0
    } else {
        let best = nearest_index(attempt, candidates, n - 1);
        if levenshtein(attempt, candidates[n - 1]) < levenshtein(attempt, candidates[best]) {
            n - 1
        } else {
            best
        }
    }
}

/// The candidate nearest to `attempt` by edit distance, the first of them
/// where several are equally near; nothing where there is no candidate.
pub open spec fn nearest(attempt: Seq<char>, candidates: Seq<Seq<char>>) -> Option<Seq<char>> {
    if candidates.len() == 0 {
        None
    } else {
        Some(candidates[nearest_index(attempt, candidates, candidates.len() as int)])
    }
}

/// The views of a list of strings.
pub open spec fn texts(v: Seq<String>) -> Seq<Seq<char>> {
    v.map_values(|s: String| s@)
}

/// The view of an optional string.
pub open spec fn opt_text(o: Option<String>) -> Option<Seq<char>> {
    match o {
        Some(s) => Some(s@),
        None => None,
    }
}

/// Adds a copy of each string of `more` to the end of `list`.
pub fn push_all(list: &mut Vec<String>, more: &Vec<String>)
    ensures
        texts(final(list)@) == texts(old(list)@) + texts(more@),
{
    let ghost start = texts(list@);
    let mut i: usize = 0;
    proof {
        assert(texts(list@) =~= start + texts(more@).take(0));
    }
    while i < more.len()
        invariant
            i <= more@.len(),
            texts(list@) == start + texts(more@).take(i as int),
        decreases more.len() - i,
    {
        let ghost before = texts(list@);
        list.push(more[i].clone());
        proof {
            assert(texts(list@) =~= before.push(more@[i as int]@));
            assert(texts(more@).take(i + 1) =~= texts(more@).take(i as int).push(
                more@[i as int]@,
            ));
            assert(texts(list@) =~= start + texts(more@).take(i + 1));
        }
        i += 1;
    }
    proof {
        assert(texts(more@).take(i as int) =~= texts(more@));
    }
}

/// [`nearest_index`] names a candidate that no other beats, and that no
/// earlier one equals in distance.
pub proof fn lemma_nearest_index(attempt: Seq<char>, candidates: Seq<Seq<char>>, n: int)
    requires
        1 <= n <= candidates.len(),
    ensures
        0 <= nearest_index(attempt, candidates, n) < n,
        forall|j: int|
            0 <= j < n ==> levenshtein(
                attempt,
                candidates[nearest_index(attempt, candidates, n)],
            ) <= levenshtein(attempt, #[trigger] candidates[j]),
        forall|j: int|
            0 <= j < nearest_index(attempt, candidates, n) ==> levenshtein(
                attempt,
                candidates[nearest_index(attempt, candidates, n)],
            ) < levenshtein(attempt, #[trigger] candidates[j]),
    decreases n,
{
    if n > 1 {
        lemma_nearest_index(attempt, candidates, n - 1);
    }
}

/// Picks the candidate nearest to `attempt` by edit distance.
pub fn closest_to(attempt: &str, candidates: &Vec<String>) -> (r: Option<String>)
    ensures
        opt_text(r) == nearest(attempt@, texts(candidates@)),
{
    if candidates.len() == 0 {
        return None;
    }
    let ghost cands = texts(candidates@);
    let mut best: usize = 0;
    let mut best_distance: usize = edit_distance(attempt, candidates[0].as_str());
    let mut i: usize = 1;
    while i < candidates.len()
        invariant
            1 <= i <= candidates.len(),
            cands == texts(candidates@),
            best as int == nearest_index(attempt@, cands, i as int),
            0 <= best < i,
            best_distance == levenshtein(attempt@, cands[best as int]),
        decreases candidates.len() - i,
    {
        let d = edit_distance(attempt, candidates[i].as_str());
        if d < best_distance {
            best = i;
            best_distance = d;
        }
        i += 1;
    }
    Some(candidates[best].clone())
}

} // verus!
