//! The alphabetical order of names, and finding where a list breaks it.

use vstd::prelude::*;
use crate::text::chars_of;

verus! {

/// `a` comes strictly before `b`: lexicographic order by code point, a
/// proper prefix first. This is the order of Rust's `String` comparison,
/// since UTF-8 keeps code point order byte by byte.
pub open spec fn seq_lt(a: Seq<char>, b: Seq<char>) -> bool
    decreases a.len(),
{
    if b.len() == 0 {
        false
    } else if a.len() == 0 {
        true
    } else if a[0] != b[0] {
        a[0] < b[0]
    } else {
        seq_lt(a.drop_first(), b.drop_first())
    }
}

/// No name in the list comes strictly before the one preceding it.
pub open spec fn adjacent_sorted(ns: Seq<Seq<char>>) -> bool {
    forall|j: int| 1 <= j < ns.len() ==> !seq_lt(#[trigger] ns[j], ns[j - 1])
}

/// Every name is at or after every name that precedes it.
pub open spec fn sorted(ns: Seq<Seq<char>>) -> bool {
    forall|i: int, j: int| 0 <= i < j < ns.len() ==> !seq_lt(#[trigger] ns[j], #[trigger] ns[i])
}

pub proof fn lemma_lt_irreflexive(a: Seq<char>)
    ensures
        !seq_lt(a, a),
    decreases a.len(),
{
    if a.len() > 0 {
        lemma_lt_irreflexive(a.drop_first());
    }
}

pub proof fn lemma_lt_transitive(a: Seq<char>, b: Seq<char>, c: Seq<char>)
    requires
        seq_lt(a, b),
        seq_lt(b, c),
    ensures
        seq_lt(a, c),
    decreases a.len(),
{
    if a.len() > 0 && b.len() > 0 && c.len() > 0 && a[0] == b[0] && b[0] == c[0] {
        lemma_lt_transitive(a.drop_first(), b.drop_first(), c.drop_first());
    }
}

pub proof fn lemma_lt_total(a: Seq<char>, b: Seq<char>)
    ensures
        a == b || seq_lt(a, b) || seq_lt(b, a),
    decreases a.len(),
{
    if a.len() > 0 && b.len() > 0 && a[0] == b[0] {
        lemma_lt_total(a.drop_first(), b.drop_first());
        if a.drop_first() == b.drop_first() {
            assert(a =~= seq![a[0]] + a.drop_first());
            assert(b =~= seq![b[0]] + b.drop_first());
        }
    } else if a.len() == 0 && b.len() == 0 {
        assert(a =~= b);
    } else if a.len() > 0 && b.len() > 0 {
    }
}

/// "At or before" is transitive.
pub proof fn lemma_le_transitive(a: Seq<char>, b: Seq<char>, c: Seq<char>)
    requires
        !seq_lt(b, a),
        !seq_lt(c, b),
    ensures
        !seq_lt(c, a),
{
    lemma_lt_total(a, b);
    lemma_lt_total(b, c);
    if seq_lt(c, a) {
        if a == b {
            assert(seq_lt(c, b));
        } else if b == c {
            assert(seq_lt(b, a));
        } else {
            lemma_lt_transitive(a, b, c);
            lemma_lt_transitive(c, a, b);
            lemma_lt_irreflexive(c);
            lemma_lt_transitive(a, b, c);
            lemma_lt_transitive(c, a, c);
        }
    }
}

/// A list in which no name comes before its predecessor is sorted: every
/// name is at or after every earlier name.
pub proof fn lemma_adjacent_sorted_is_sorted(ns: Seq<Seq<char>>)
    requires
        adjacent_sorted(ns),
    ensures
        sorted(ns),
    decreases ns.len(),
{
    if ns.len() > 1 {
        let init = ns.drop_last();
        assert(adjacent_sorted(init)) by {
            assert forall|j: int| 1 <= j < init.len() implies !seq_lt(#[trigger] init[j], init[j - 1]) by {
                assert(init[j] == ns[j] && init[j - 1] == ns[j - 1]);
            }
        }
        lemma_adjacent_sorted_is_sorted(init);
        let n = ns.len() - 1;
        assert forall|i: int, j: int| 0 <= i < j < ns.len() implies !seq_lt(#[trigger] ns[j], #[trigger] ns[i]) by {
            if j < n {
                assert(init[i] == ns[i] && init[j] == ns[j]);
            } else if i < n - 1 {
                assert(init[i] == ns[i] && init[n - 1] == ns[n - 1]);
                assert(!seq_lt(ns[n - 1], ns[i]));
                assert(!seq_lt(ns[n], ns[n - 1]));
                lemma_le_transitive(ns[i], ns[n - 1], ns[n]);
            }
        }
    }
}

/// The first position at or after `i` (and at least 1) where a name comes
/// strictly before its predecessor.
pub open spec fn first_descent_from(ns: Seq<Seq<char>>, i: int) -> Option<int>
    decreases ns.len() - i,
{
    if i < 1 || i >= ns.len() {
        None
    } else if seq_lt(ns[i], ns[i - 1]) {
        Some(i)
    } else {
        first_descent_from(ns, i + 1)
    }
}

/// The first position where a name comes strictly before its predecessor.
pub open spec fn first_descent(ns: Seq<Seq<char>>) -> Option<int> {
    first_descent_from(ns, 1)
}

pub proof fn lemma_first_descent_from(ns: Seq<Seq<char>>, i: int)
    requires
        1 <= i,
        forall|j: int| 1 <= j < i && j < ns.len() ==> !seq_lt(#[trigger] ns[j], ns[j - 1]),
    ensures
        match first_descent_from(ns, i) {
            Some(k) => 1 <= k < ns.len() && seq_lt(ns[k], ns[k - 1]) && forall|j: int|
                1 <= j < k ==> !seq_lt(#[trigger] ns[j], ns[j - 1]),
            None => adjacent_sorted(ns),
        },
    decreases ns.len() - i,
{
    if i < ns.len() && !seq_lt(ns[i], ns[i - 1]) {
        lemma_first_descent_from(ns, i + 1);
    }
}

/// What `first_descent` gives: the first descent, or none when the list is
/// sorted pairwise.
pub proof fn lemma_first_descent(ns: Seq<Seq<char>>)
    ensures
        match first_descent(ns) {
            Some(k) => 1 <= k < ns.len() && seq_lt(ns[k], ns[k - 1]) && forall|j: int|
                1 <= j < k ==> !seq_lt(#[trigger] ns[j], ns[j - 1]),
            None => adjacent_sorted(ns),
        },
{
    lemma_first_descent_from(ns, 1);
}

/// Whether `a` comes strictly before `b`.
pub fn str_lt(a: &str, b: &str) -> (r: bool)
    ensures
        r == seq_lt(a@, b@),
{
    let va = chars_of(a);
    let vb = chars_of(b);
    let mut i: usize = 0;
    proof {
        assert(a@.skip(0) =~= a@);
        assert(b@.skip(0) =~= b@);
    }
    while i < va.len() && i < vb.len() && va[i] == vb[i]
        invariant
            va@ == a@,
            vb@ == b@,
            i <= va@.len(),
            i <= vb@.len(),
            seq_lt(a@, b@) == seq_lt(a@.skip(i as int), b@.skip(i as int)),
        decreases va@.len() - i,
    {
        proof {
            assert(a@.skip(i as int).drop_first() =~= a@.skip(i + 1));
            assert(b@.skip(i as int).drop_first() =~= b@.skip(i + 1));
        }
        i = i + 1;
    }
    if i == vb.len() {
        false
    } else if i == va.len() {
        true
    } else {
        va[i] < vb[i]
    }
}

/// The abstract values of a list of strings.
pub open spec fn names_view(v: Seq<String>) -> Seq<Seq<char>> {
    v.map_values(|s: String| s@)
}

/// Returns `Some((index, prev_name, curr_name))` for the first pair of
/// adjacent names that are out of alphabetical order.
pub fn first_unsorted(names: &Vec<String>) -> (r: Option<(usize, String, String)>)
    ensures
        match r {
            Some((idx, prev, curr)) => {
                &&& first_descent(names_view(names@)) == Some(idx as int)
                &&& prev@ == names@[idx - 1]@
                &&& curr@ == names@[idx as int]@
            },
            None => first_descent(names_view(names@)) is None,
        },
{
    let ghost ns = names_view(names@);
    let mut i: usize = 1;
    while i < names.len()
        invariant
            1 <= i,
            ns == names_view(names@),
            names@.len() > 0 ==> i <= names@.len(),
            first_descent(ns) == first_descent_from(ns, i as int),
        decreases names@.len() - i,
    {
        if str_lt(names[i].as_str(), names[i - 1].as_str()) {
            return Some((i, names[i - 1].clone(), names[i].clone()));
        }
        i = i + 1;
    }
    None
}

} // verus!
