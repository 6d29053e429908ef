//! Naming lints: a binding or parameter is named after its type, in snake
//! case, with a descriptive prefix where several share a type.

use vstd::prelude::*;
use crate::lints::newtypes::positions_view;
use crate::lints::{LintInfo, Level};
use crate::loader::{snake_case, snake_text};
use crate::text::chars_of;

verus! {

/// `name` is its type's name in snake case, or ends with `_` and that
/// snake-case name (`sender_account_id` for `AccountId`).
pub open spec fn named_after(name: Seq<char>, ty: Seq<char>) -> bool {
    let want = snake_text(ty);
    ||| name == want
    ||| (name.len() > want.len() && name.skip(name.len() - want.len() - 1) == seq!['_'] + want)
}

/// The abstract (name, type name) pairs.
pub open spec fn pairs_view(v: Seq<(String, String)>) -> Seq<(Seq<char>, Seq<char>)> {
    v.map_values(|p: (String, String)| (p.0@, p.1@))
}

/// The positions, in order, of the pairs whose name is not named after its
/// type.
pub open spec fn misnamed_positions(ps: Seq<(Seq<char>, Seq<char>)>) -> Seq<int>
    decreases ps.len(),
{
    if ps.len() == 0 {
        Seq::empty()
    } else {
        misnamed_positions(ps.drop_last()) + if named_after(ps.last().0, ps.last().1) {
            Seq::<int>::empty()
        } else {
            seq![ps.len() - 1]
        }
    }
}

/// Whether `name` is named after the type `ty`.
pub fn is_named_after(name: &str, ty: &str) -> (r: bool)
    ensures
        r == named_after(name@, ty@),
{
    let want = chars_of(snake_case(ty).as_str());
    let n = chars_of(name);
    let ghost w = snake_text(ty@);
    if n.len() < want.len() {
        return false;
    }
    let off = n.len() - want.len();
    let mut k: usize = 0;
    while k < want.len()
        invariant
            want@ == w,
            w == snake_text(ty@),
            n@ == name@,
            w.len() <= n@.len() <= usize::MAX,
            off == n@.len() - w.len(),
            k <= w.len(),
            forall|j: int| 0 <= j < k ==> n@[off + j] == w[j],
        decreases w.len() - k,
    {
        if n[off + k] != want[k] {
            proof {
                if name@.len() > w.len() {
                    let t = name@.skip(name@.len() - w.len() - 1);
                    assert(t[k + 1] != (seq!['_'] + w)[k + 1]);
                }
            }
            return false;
        }
        k = k + 1;
    }
    if off == 0 {
        proof {
            assert(name@ =~= w);
        }
        return true;
    }
    let r = n[off - 1] == '_';
    proof {
        let t = name@.skip(name@.len() - w.len() - 1);
        if r {
            assert(t =~= seq!['_'] + w);
        } else {
            assert(t[0] != (seq!['_'] + w)[0]);
            assert(name@.len() != w.len());
        }
    }
    r
}

/// The positions, in order, of the (name, type name) pairs whose name is
/// not named after its type.
pub fn misnamed(pairs: &Vec<(String, String)>) -> (r: Vec<usize>)
    ensures
        positions_view(r@) == misnamed_positions(pairs_view(pairs@)),
{
    let ghost ps = pairs_view(pairs@);
    let mut out: Vec<usize> = Vec::new();
    let mut i: usize = 0;
    while i < pairs.len()
        invariant
            i <= pairs@.len(),
            ps == pairs_view(pairs@),
            positions_view(out@) == misnamed_positions(ps.take(i as int)),
        decreases pairs@.len() - i,
    {
        proof {
            assert(ps.take(i + 1).drop_last() =~= ps.take(i as int));
            assert(ps.take(i + 1).last() == (pairs@[i as int].0@, pairs@[i as int].1@));
        }
        let ghost before = out@;
        if is_named_after(pairs[i].0.as_str(), pairs[i].1.as_str()) {
            proof {
                assert(positions_view(out@) =~= positions_view(before) + Seq::<int>::empty());
            }
        } else {
            out.push(i);
            proof {
                assert(positions_view(out@) =~= positions_view(before) + seq![i as int]);
            }
        }
        i = i + 1;
    }
    proof {
        assert(ps.take(i as int) =~= ps);
    }
    out
}

/// **Deny** — a variable is named after its type, in snake case.
pub struct TypeDerivedNaming;

impl TypeDerivedNaming {
    pub fn info(&self) -> (i: LintInfo)
        ensures
            i.name@ == "TYPE_DERIVED_NAMING"@,
            i.level == Level::Deny,
            i.description@ == "variable name must be snake_case of its type"@,
    {
        LintInfo::new("TYPE_DERIVED_NAMING", Level::Deny, "variable name must be snake_case of its type")
    }

    /// The `let` bindings, as (name, type name), that are not named after
    /// their type.
    pub fn check_bindings(&self, bindings: &Vec<(String, String)>) -> (r: Vec<usize>)
        ensures
            positions_view(r@) == misnamed_positions(pairs_view(bindings@)),
    {
        misnamed(bindings)
    }
}

/// **Warn** — a function parameter is named after its type.
pub struct InconsistentNaming;

impl InconsistentNaming {
    pub fn info(&self) -> (i: LintInfo)
        ensures
            i.name@ == "INCONSISTENT_NAMING"@,
            i.level == Level::Warn,
            i.description@ == "param names should match their type"@,
    {
        LintInfo::new("INCONSISTENT_NAMING", Level::Warn, "param names should match their type")
    }

    /// The parameters, as (name, type name), that are not named after their
    /// type.
    pub fn check_fn(&self, params: &Vec<(String, String)>) -> (r: Vec<usize>)
        ensures
            positions_view(r@) == misnamed_positions(pairs_view(params@)),
    {
        misnamed(params)
    }
}

} // verus!
