//! The sorting lints: struct fields, enum variants, match arms, imports,
//! impl methods and derives must be in alphabetical order.
//!
//! Each check takes the names the lint reads from the syntax tree, in
//! source order, and reports the position (an index into its input) of the
//! first item out of order, with the lint's message.

use vstd::prelude::*;
use crate::lints::order::{first_descent, first_unsorted, names_view, seq_lt, str_lt};
use crate::lints::{LintInfo, Level};
use crate::lsp::{join, join_strings};
use crate::text::{chars_of, push_str, string_from, string_from_range};

verus! {

/// A diagnostic of a lint: the index of the offending item in the checked
/// list, and the message.
#[derive(Debug)]
pub struct LintReport {
    pub index: usize,
    pub message: String,
}

/// The abstract value of a report.
pub struct SpecReport {
    pub index: int,
    pub message: Seq<char>,
}

impl View for LintReport {
    type V = SpecReport;

    open spec fn view(&self) -> SpecReport {
        SpecReport { index: self.index as int, message: self.message@ }
    }
}

/// The abstract values of a list of reports.
pub open spec fn reports_view(v: Seq<LintReport>) -> Seq<SpecReport> {
    v.map_values(|r: LintReport| r@)
}

/// `"<what> `<curr>` should come before `<prev>` (alphabetical order required)"`.
pub open spec fn order_message(what: Seq<char>, curr: Seq<char>, prev: Seq<char>) -> Seq<char> {
    what + " `"@ + curr + "` should come before `"@ + prev + "` (alphabetical order required)"@
}

/// Builds the message `order_message(what, curr, prev)`.
pub fn order_message_text(what: &str, curr: &str, prev: &str) -> (r: String)
    ensures
        r@ == order_message(what@, curr@, prev@),
{
    let mut m = string_from(what);
    push_str(&mut m, " `");
    push_str(&mut m, curr);
    push_str(&mut m, "` should come before `");
    push_str(&mut m, prev);
    push_str(&mut m, "` (alphabetical order required)");
    m
}

/// The report for the first descent of `ns`, positioned at `positions[k]`
/// for the `k`-th name.
pub open spec fn descent_report(ns: Seq<Seq<char>>, positions: Seq<int>, what: Seq<char>) -> Option<SpecReport> {
    match first_descent(ns) {
        Some(k) => Some(SpecReport { index: positions[k], message: order_message(what, ns[k], ns[k - 1]) }),
        None => None,
    }
}

/// The report a single check gives, as an abstract value.
pub open spec fn report_view(r: Option<LintReport>) -> Option<SpecReport> {
    match r {
        Some(rep) => Some(rep@),
        None => None,
    }
}

/// The positions `0..n`.
pub open spec fn identity_positions(n: nat) -> Seq<int> {
    Seq::new(n, |i: int| i)
}

/// The positions of the present entries, in order.
pub open spec fn present_positions<T>(xs: Seq<Option<T>>) -> Seq<int>
    decreases xs.len(),
{
    if xs.len() == 0 {
        Seq::empty()
    } else {
        present_positions(xs.drop_last()) + if xs.last() is Some {
            seq![xs.len() - 1]
        } else {
            Seq::<int>::empty()
        }
    }
}

/// The present entries, in order.
pub open spec fn present_names(xs: Seq<Option<Seq<char>>>) -> Seq<Seq<char>>
    decreases xs.len(),
{
    if xs.len() == 0 {
        Seq::empty()
    } else {
        present_names(xs.drop_last()) + match xs.last() {
            Some(n) => seq![n],
            None => Seq::<Seq<char>>::empty(),
        }
    }
}

/// The abstract values of a list of optional names.
pub open spec fn options_view(v: Seq<Option<String>>) -> Seq<Option<Seq<char>>> {
    v.map_values(|o: Option<String>| match o {
        Some(s) => Some(s@),
        None => None,
    })
}

/// The names of the present entries and their positions.
fn present(xs: &Vec<Option<String>>) -> (r: (Vec<String>, Vec<usize>))
    ensures
        names_view(r.0@) == present_names(options_view(xs@)),
        r.1@.map_values(|i: usize| i as int) == present_positions(options_view(xs@)),
        r.0@.len() == r.1@.len(),
{
    let mut names: Vec<String> = Vec::new();
    let mut positions: Vec<usize> = Vec::new();
    let mut i: usize = 0;
    while i < xs.len()
        invariant
            i <= xs@.len(),
            names_view(names@) == present_names(options_view(xs@).take(i as int)),
            positions@.map_values(|i: usize| i as int) == present_positions(options_view(xs@).take(i as int)),
            names@.len() == positions@.len(),
        decreases xs@.len() - i,
    {
        let ghost pre = options_view(xs@).take(i + 1);
        proof {
            assert(pre.drop_last() =~= options_view(xs@).take(i as int));
        }
        match &xs[i] {
            Some(n) => {
                let ghost nb = names@;
                let ghost pb = positions@;
                names.push(n.clone());
                positions.push(i);
                proof {
                    assert(names_view(names@) =~= names_view(nb).push(n@));
                    assert(positions@.map_values(|i: usize| i as int) =~= pb.map_values(|i: usize| i as int).push(
                        i as int,
                    ));
                }
            },
            None => {
                proof {
                    assert(names_view(names@) =~= names_view(names@) + Seq::<Seq<char>>::empty());
                    assert(positions@.map_values(|i: usize| i as int) =~= positions@.map_values(|i: usize| i as int)
                        + Seq::<int>::empty());
                }
            },
        }
        i = i + 1;
    }
    proof {
        assert(options_view(xs@).take(i as int) =~= options_view(xs@));
    }
    (names, positions)
}

/// The report for the first descent among `names`, at the matching entry
/// of `positions`.
fn report_first_descent(names: &Vec<String>, positions: &Vec<usize>, what: &str) -> (r: Option<LintReport>)
    requires
        names@.len() == positions@.len(),
    ensures
        report_view(r) == descent_report(names_view(names@), positions@.map_values(|i: usize| i as int), what@),
{
    match first_unsorted(names) {
        Some((idx, prev, curr)) => {
            proof {
                crate::lints::order::lemma_first_descent(names_view(names@));
                assert(positions@.map_values(|i: usize| i as int)[idx as int] == positions@[idx as int] as int);
            }
            Some(LintReport { index: positions[idx], message: order_message_text(what, curr.as_str(), prev.as_str()) })
        },
        None => None,
    }
}

/// The positions `0..n` as a list.
fn positions_upto(n: usize) -> (r: Vec<usize>)
    ensures
        r@.map_values(|i: usize| i as int) == identity_positions(n as nat),
        r@.len() == n,
{
    let mut v: Vec<usize> = Vec::new();
    let mut i: usize = 0;
    while i < n
        invariant
            i <= n,
            v@.len() == i,
            forall|j: int| 0 <= j < i ==> v@[j] == j,
        decreases n - i,
    {
        v.push(i);
        i = i + 1;
    }
    assert(v@.map_values(|i: usize| i as int) =~= identity_positions(n as nat));
    v
}

// ── 1. UNSORTED_STRUCT_FIELDS ───────────────────────────────────────────

/// **Deny** — struct fields must be in alphabetical order.
pub struct UnsortedStructFields;

/// What the struct field check reports for fields with the given names
/// (`None` for an unnamed field): tuple structs and structs of fewer than
/// two fields are not checked.
pub open spec fn struct_fields_report(fields: Seq<Option<Seq<char>>>) -> Option<SpecReport> {
    let names = present_names(fields);
    if names.len() != fields.len() || names.len() < 2 {
        None
    } else {
        descent_report(names, present_positions(fields), "struct field"@)
    }
}

impl UnsortedStructFields {
    pub fn info(&self) -> (i: LintInfo)
        ensures
            i.name@ == "UNSORTED_STRUCT_FIELDS"@,
            i.level == Level::Deny,
            i.description@ == "struct fields must be in alphabetical order"@,
    {
        LintInfo::new("UNSORTED_STRUCT_FIELDS", Level::Deny, "struct fields must be in alphabetical order")
    }

    /// Checks the field names of a struct, in declaration order.
    pub fn check_item(&self, fields: &Vec<Option<String>>) -> (r: Option<LintReport>)
        ensures
            report_view(r) == struct_fields_report(options_view(fields@)),
    {
        let (names, positions) = present(fields);
        if names.len() != fields.len() || names.len() < 2 {
            return None;
        }
        report_first_descent(&names, &positions, "struct field")
    }
}

// ── 2. UNSORTED_ENUM_VARIANTS ───────────────────────────────────────────

/// **Deny** — enum variants must be in alphabetical order.
pub struct UnsortedEnumVariants;

/// What the enum variant check reports for variants with the given names.
pub open spec fn enum_variants_report(names: Seq<Seq<char>>) -> Option<SpecReport> {
    if names.len() < 2 {
        None
    } else {
        descent_report(names, identity_positions(names.len()), "enum variant"@)
    }
}

impl UnsortedEnumVariants {
    pub fn info(&self) -> (i: LintInfo)
        ensures
            i.name@ == "UNSORTED_ENUM_VARIANTS"@,
            i.level == Level::Deny,
            i.description@ == "enum variants must be in alphabetical order"@,
    {
        LintInfo::new("UNSORTED_ENUM_VARIANTS", Level::Deny, "enum variants must be in alphabetical order")
    }

    /// Checks the variant names of an enum, in declaration order.
    pub fn check_item(&self, variants: &Vec<String>) -> (r: Option<LintReport>)
        ensures
            report_view(r) == enum_variants_report(names_view(variants@)),
    {
        if variants.len() < 2 {
            return None;
        }
        let positions = positions_upto(variants.len());
        report_first_descent(variants, &positions, "enum variant")
    }
}

// ── 3. UNSORTED_MATCH_ARMS ──────────────────────────────────────────────

/// **Deny** — match arms must be sorted by pattern text. Wildcard `_` must
/// always be last.
pub struct UnsortedMatchArms;

/// A match arm as the lint reads it: the source text of its pattern and
/// whether the pattern is the wildcard `_`.
#[derive(Debug)]
pub struct MatchArmKey {
    pub snippet: String,
    pub is_wild: bool,
}

/// The arms' pattern texts, `None` for wildcards.
pub open spec fn arm_names(arms: Seq<MatchArmKey>) -> Seq<Option<Seq<char>>> {
    arms.map_values(|a: MatchArmKey| if a.is_wild { None } else { Some(a.snippet@) })
}

/// The first arm that is not a wildcard but follows one.
pub open spec fn first_after_wildcard(arms: Seq<MatchArmKey>, i: int, seen_wild: bool) -> Option<int>
    decreases arms.len() - i,
{
    if i < 0 || i >= arms.len() {
        None
    } else if seen_wild && !arms[i].is_wild {
        Some(i)
    } else {
        first_after_wildcard(arms, i + 1, seen_wild || arms[i].is_wild)
    }
}

/// `"match arm `<snippet>` appears after wildcard `_`; wildcard must be last"`.
pub open spec fn after_wildcard_message(snippet: Seq<char>) -> Seq<char> {
    "match arm `"@ + snippet + "` appears after wildcard `_`; wildcard must be last"@
}

/// What the match arm check reports: a non-wildcard arm after a wildcard,
/// else the first non-wildcard arm out of order among the non-wildcard arms.
pub open spec fn match_arms_report(arms: Seq<MatchArmKey>) -> Option<SpecReport> {
    if arms.len() < 2 {
        None
    } else {
        match first_after_wildcard(arms, 0, false) {
            Some(k) => Some(SpecReport { index: k, message: after_wildcard_message(arms[k].snippet@) }),
            None => descent_report(
                present_names(arm_names(arms)),
                present_positions(arm_names(arms)),
                "match arm"@,
            ),
        }
    }
}

impl UnsortedMatchArms {
    pub fn info(&self) -> (i: LintInfo)
        ensures
            i.name@ == "UNSORTED_MATCH_ARMS"@,
            i.level == Level::Deny,
            i.description@ == "match arms must be sorted by pattern text; wildcard `_` must be last"@,
    {
        LintInfo::new(
            "UNSORTED_MATCH_ARMS",
            Level::Deny,
            "match arms must be sorted by pattern text; wildcard `_` must be last",
        )
    }

    /// Checks the arms of a `match`, in source order.
    pub fn check_expr(&self, arms: &Vec<MatchArmKey>) -> (r: Option<LintReport>)
        ensures
            report_view(r) == match_arms_report(arms@),
    {
        if arms.len() < 2 {
            return None;
        }

        // 1. Wildcards must be last.
        let mut seen_wild = false;
        let mut i: usize = 0;
        while i < arms.len()
            invariant
                i <= arms@.len(),
                arms@.len() >= 2,
                first_after_wildcard(arms@, 0, false) == first_after_wildcard(arms@, i as int, seen_wild),
            decreases arms@.len() - i,
        {
            if seen_wild && !arms[i].is_wild {
                let mut message = string_from("match arm `");
                push_str(&mut message, arms[i].snippet.as_str());
                push_str(&mut message, "` appears after wildcard `_`; wildcard must be last");
                assert(first_after_wildcard(arms@, i as int, seen_wild) == Some(i as int));
                assert(message@ == after_wildcard_message(arms@[i as int].snippet@));
                return Some(LintReport { index: i, message });
            }
            if arms[i].is_wild {
                seen_wild = true;
            }
            i = i + 1;
        }

        // 2. Non-wildcard arms must be alphabetically sorted.
        let mut keys: Vec<Option<String>> = Vec::new();
        let mut j: usize = 0;
        while j < arms.len()
            invariant
                j <= arms@.len(),
                arms@.len() >= 2,
                keys@.len() == j,
                options_view(keys@) == arm_names(arms@).take(j as int),
                first_after_wildcard(arms@, 0, false) is None,
            decreases arms@.len() - j,
        {
            let ghost before = keys@;
            if arms[j].is_wild {
                keys.push(None);
            } else {
                keys.push(Some(arms[j].snippet.clone()));
            }
            proof {
                assert forall|k: int| 0 <= k < j + 1 implies #[trigger] options_view(keys@)[k] == arm_names(arms@).take(j + 1)[k] by {
                    if k < j {
                        assert(keys@[k] == before[k]);
                        assert(options_view(before)[k] == arm_names(arms@).take(j as int)[k]);
                    }
                }
                assert(options_view(keys@) =~= arm_names(arms@).take(j + 1));
            }
            j = j + 1;
        }
        proof {
            assert(arm_names(arms@).take(j as int) =~= arm_names(arms@));
        }
        let (names, positions) = present(&keys);
        report_first_descent(&names, &positions, "match arm")
    }
}


// ── 4. UNSORTED_IMPORTS ─────────────────────────────────────────────────

/// **Deny** — `use` statements must be in alphabetical order within each
/// group, and items inside braced use trees must also be sorted.
pub struct UnsortedImports;

/// A use tree as the lint reads it: the segments of its path prefix, and
/// its braced subtrees when it is a group (`use std::{fmt, io}`).
#[derive(Debug)]
pub struct UseTree {
    pub prefix: Vec<String>,
    pub nested: Option<Vec<UseTree>>,
}

/// The sort key of a use tree: its prefix segments joined by `::`.
pub open spec fn tree_key(t: UseTree) -> Seq<char> {
    join(names_view(t.prefix@), "::"@)
}

/// Build a sort key from a `UseTree` by joining its path segments.
pub fn use_tree_sort_key(tree: &UseTree) -> (r: String)
    ensures
        r@ == tree_key(*tree),
{
    join_strings(&tree.prefix, "::")
}

/// The sort keys of items, `None` for items that are not `use` items.
pub open spec fn item_keys(items: Seq<Option<UseTree>>) -> Seq<Option<Seq<char>>> {
    items.map_values(|o: Option<UseTree>| match o {
        Some(t) => Some(tree_key(t)),
        None => None,
    })
}

/// The reports for runs of consecutive `use` items from position `i`,
/// `prev` being the key of the `use` item just before (if any): each key
/// must not come before the one right before it.
pub open spec fn consecutive_reports(keys: Seq<Option<Seq<char>>>, i: int, prev: Option<Seq<char>>) -> Seq<SpecReport>
    decreases keys.len() - i,
{
    if i < 0 || i >= keys.len() {
        Seq::empty()
    } else {
        match keys[i] {
            Some(k) => (match prev {
                Some(p) => if seq_lt(k, p) {
                    seq![SpecReport { index: i, message: order_message("import"@, k, p) }]
                } else {
                    Seq::<SpecReport>::empty()
                },
                None => Seq::<SpecReport>::empty(),
            }) + consecutive_reports(keys, i + 1, Some(k)),
            None => consecutive_reports(keys, i + 1, None),
        }
    }
}

/// The abstract value of an optional string.
pub open spec fn opt_view(o: Option<String>) -> Option<Seq<char>> {
    match o {
        Some(s) => Some(s@),
        None => None,
    }
}

/// Check consecutive `use` items in a list of items and report any that
/// are out of order; any other item starts a new group.
pub fn check_consecutive_uses(items: &Vec<Option<UseTree>>) -> (r: Vec<LintReport>)
    ensures
        reports_view(r@) == consecutive_reports(item_keys(items@), 0, None),
{
    let ghost keys = item_keys(items@);
    let mut prev: Option<String> = None;
    let mut out: Vec<LintReport> = Vec::new();
    let mut i: usize = 0;
    while i < items.len()
        invariant
            i <= items@.len(),
            keys == item_keys(items@),
            reports_view(out@) + consecutive_reports(keys, i as int, opt_view(prev)) == consecutive_reports(
                keys,
                0,
                None,
            ),
        decreases items@.len() - i,
    {
        let ghost before = out@;
        let ghost prev_v: Option<Seq<char>> = opt_view(prev);
        match &items[i] {
            Some(tree) => {
                let key = use_tree_sort_key(tree);
                let ghost k = key@;
                match &prev {
                    Some(prev_key) => {
                        if str_lt(key.as_str(), prev_key.as_str()) {
                            let message = order_message_text("import", key.as_str(), prev_key.as_str());
                            out.push(LintReport { index: i, message });
                            proof {
                                assert(reports_view(out@) =~= reports_view(before).push(SpecReport {
                                    index: i as int,
                                    message: order_message("import"@, k, prev_key@),
                                }));
                            }
                        }
                    },
                    None => {},
                }
                proof {
                    assert(reports_view(out@) + consecutive_reports(keys, i + 1, Some(k)) =~= reports_view(before)
                        + consecutive_reports(keys, i as int, prev_v));
                }
                prev = Some(key);
            },
            None => {
                prev = None;
            },
        }
        i = i + 1;
    }
    out
}

/// A report inside a use tree: the path of group positions to the
/// offending subtree, and the message.
#[derive(Debug)]
pub struct TreeReport {
    pub path: Vec<usize>,
    pub message: String,
}

/// The abstract value of a tree report.
pub struct SpecTreeReport {
    pub path: Seq<int>,
    pub message: Seq<char>,
}

impl View for TreeReport {
    type V = SpecTreeReport;

    open spec fn view(&self) -> SpecTreeReport {
        SpecTreeReport { path: self.path@.map_values(|i: usize| i as int), message: self.message@ }
    }
}

/// The abstract values of a list of tree reports.
pub open spec fn tree_reports_view(v: Seq<TreeReport>) -> Seq<SpecTreeReport> {
    v.map_values(|r: TreeReport| r@)
}

/// `"import `<curr>` should come before `<prev>` in use group (alphabetical order required)"`.
pub open spec fn group_message(curr: Seq<char>, prev: Seq<char>) -> Seq<char> {
    "import `"@ + curr + "` should come before `"@ + prev + "` in use group (alphabetical order required)"@
}

/// The sort keys of the subtrees of a group.
pub open spec fn group_keys(items: Seq<UseTree>) -> Seq<Seq<char>> {
    items.map_values(|t: UseTree| tree_key(t))
}

/// The report for a group whose keys are out of order (two or more).
pub open spec fn group_report(items: Seq<UseTree>, path: Seq<int>) -> Seq<SpecTreeReport> {
    let keys = group_keys(items);
    if keys.len() >= 2 {
        match first_descent(keys) {
            Some(k) => seq![SpecTreeReport { path: path.push(k), message: group_message(keys[k], keys[k - 1]) }],
            None => Seq::empty(),
        }
    } else {
        Seq::empty()
    }
}

/// The reports for a use tree at `path`: its own group, then each subtree's.
pub open spec fn use_tree_reports(t: UseTree, path: Seq<int>) -> Seq<SpecTreeReport>
    decreases t,
{
    match t.nested {
        Some(items) => group_report(items@, path) + subtree_reports(items@, path),
        None => Seq::empty(),
    }
}

/// The reports for the subtrees of a group, in order.
pub open spec fn subtree_reports(items: Seq<UseTree>, path: Seq<int>) -> Seq<SpecTreeReport>
    decreases items,
{
    if items.len() == 0 {
        Seq::empty()
    } else {
        subtree_reports(items.drop_last(), path) + use_tree_reports(items.last(), path.push(items.len() - 1))
    }
}

/// Recursively check that children of braced use trees are sorted
/// (e.g. `use std::{io, fmt}` should be `use std::{fmt, io}`); `path`
/// locates `tree` in the item's tree.
pub fn check_use_tree_children(tree: &UseTree, path: &Vec<usize>, out: &mut Vec<TreeReport>)
    ensures
        tree_reports_view(final(out)@) == tree_reports_view(old(out)@) + use_tree_reports(
            *tree,
            path@.map_values(|i: usize| i as int),
        ),
    decreases tree,
{
    let ghost pv = path@.map_values(|i: usize| i as int);
    match &tree.nested {
        Some(items) => {
            let ghost start = tree_reports_view(out@);
            let mut names: Vec<String> = Vec::new();
            let mut j: usize = 0;
            while j < items.len()
                invariant
                    j <= items@.len(),
                    names@.len() == j,
                    names_view(names@) == group_keys(items@).take(j as int),
                decreases items@.len() - j,
            {
                let ghost before = names@;
                names.push(use_tree_sort_key(&items[j]));
                proof {
                    assert forall|x: int| 0 <= x < j + 1 implies #[trigger] names_view(names@)[x] == group_keys(
                        items@,
                    ).take(j + 1)[x] by {
                        if x < j {
                            assert(names@[x] == before[x]);
                            assert(names_view(before)[x] == group_keys(items@).take(j as int)[x]);
                        }
                    }
                    assert(names_view(names@) =~= group_keys(items@).take(j + 1));
                }
                j = j + 1;
            }
            proof {
                assert(group_keys(items@).take(j as int) =~= group_keys(items@));
            }
            if names.len() >= 2 {
                match first_unsorted(&names) {
                    Some((idx, prev, curr)) => {
                        let mut p = path.clone();
                        p.push(idx);
                        let mut message = string_from("import `");
                        push_str(&mut message, curr.as_str());
                        push_str(&mut message, "` should come before `");
                        push_str(&mut message, prev.as_str());
                        push_str(&mut message, "` in use group (alphabetical order required)");
                        let ghost before = out@;
                        out.push(TreeReport { path: p, message });
                        proof {
                            crate::lints::order::lemma_first_descent(names_view(names@));
                            assert(p@.map_values(|i: usize| i as int) =~= pv.push(idx as int));
                            assert(tree_reports_view(out@) =~= tree_reports_view(before).push(SpecTreeReport {
                                path: pv.push(idx as int),
                                message: group_message(curr@, prev@),
                            }));
                        }
                    },
                    None => {
                        assert(tree_reports_view(out@) =~= start + group_report(items@, pv));
                    },
                }
            } else {
                assert(tree_reports_view(out@) =~= start + group_report(items@, pv));
            }
            let ghost mid = tree_reports_view(out@);
            proof {
                assert(mid =~= start + group_report(items@, pv));
            }
            // Recurse into each nested subtree.
            let mut k: usize = 0;
            while k < items.len()
                invariant
                    k <= items@.len(),
                    pv == path@.map_values(|i: usize| i as int),
                    tree.nested == Some(*items),
                    tree_reports_view(out@) == mid + subtree_reports(items@.take(k as int), pv),
                decreases items@.len() - k,
            {
                let mut p = path.clone();
                p.push(k);
                proof {
                    assert(decreases_to!(*tree => tree.nested));
                    assert(decreases_to!(tree.nested => tree.nested->Some_0));
                    assert(p@.map_values(|i: usize| i as int) =~= pv.push(k as int));
                    assert(items@.take(k + 1).drop_last() =~= items@.take(k as int));
                    vstd::std_specs::vec::axiom_vec_index_decreases(*items, k as int);
                }
                check_use_tree_children(&items[k], &p, out);
                k = k + 1;
            }
            proof {
                assert(items@.take(k as int) =~= items@);
                assert(tree_reports_view(out@) =~= start + (group_report(items@, pv) + subtree_reports(items@, pv)));
            }
        },
        None => {
            proof {
                assert(tree_reports_view(out@) =~= tree_reports_view(out@) + Seq::<SpecTreeReport>::empty());
            }
        },
    }
}

impl UnsortedImports {
    pub fn info(&self) -> (i: LintInfo)
        ensures
            i.name@ == "UNSORTED_IMPORTS"@,
            i.level == Level::Deny,
            i.description@ == "use statements must be in alphabetical order"@,
    {
        LintInfo::new("UNSORTED_IMPORTS", Level::Deny, "use statements must be in alphabetical order")
    }

    /// Checks the ordering of consecutive `use` items at the crate root
    /// (`None` for items that are not `use` items).
    pub fn check_crate(&self, items: &Vec<Option<UseTree>>) -> (r: Vec<LintReport>)
        ensures
            reports_view(r@) == consecutive_reports(item_keys(items@), 0, None),
    {
        check_consecutive_uses(items)
    }

    /// Checks the braced groups of a `use` item's tree.
    pub fn check_use_item(&self, tree: &UseTree) -> (r: Vec<TreeReport>)
        ensures
            tree_reports_view(r@) == use_tree_reports(*tree, Seq::empty()),
    {
        let mut out: Vec<TreeReport> = Vec::new();
        let path: Vec<usize> = Vec::new();
        proof {
            assert(path@.map_values(|i: usize| i as int) =~= Seq::<int>::empty());
            assert(tree_reports_view(out@) =~= Seq::<SpecTreeReport>::empty());
        }
        check_use_tree_children(tree, &path, &mut out);
        proof {
            assert(tree_reports_view(out@) =~= use_tree_reports(*tree, Seq::empty()));
        }
        out
    }

    /// Checks the ordering of consecutive `use` items inside a `mod` block.
    pub fn check_mod_item(&self, items: &Vec<Option<UseTree>>) -> (r: Vec<LintReport>)
        ensures
            reports_view(r@) == consecutive_reports(item_keys(items@), 0, None),
    {
        check_consecutive_uses(items)
    }
}

// ── 5. UNSORTED_IMPL_METHODS ────────────────────────────────────────────

/// **Deny** — methods within an `impl` block must be alphabetically sorted.
pub struct UnsortedImplMethods;

/// What the impl method check reports for the items of an impl block
/// (`Some(name)` for methods, `None` for other items): methods are checked
/// when there are two or more.
pub open spec fn impl_methods_report(items: Seq<Option<Seq<char>>>) -> Option<SpecReport> {
    let names = present_names(items);
    if names.len() < 2 {
        None
    } else {
        descent_report(names, present_positions(items), "impl method"@)
    }
}

impl UnsortedImplMethods {
    pub fn info(&self) -> (i: LintInfo)
        ensures
            i.name@ == "UNSORTED_IMPL_METHODS"@,
            i.level == Level::Deny,
            i.description@ == "methods within an impl block must be alphabetically sorted"@,
    {
        LintInfo::new(
            "UNSORTED_IMPL_METHODS",
            Level::Deny,
            "methods within an impl block must be alphabetically sorted",
        )
    }

    /// Checks the items of an impl block, in order.
    pub fn check_item(&self, items: &Vec<Option<String>>) -> (r: Option<LintReport>)
        ensures
            report_view(r) == impl_methods_report(options_view(items@)),
    {
        let (names, positions) = present(items);
        if names.len() < 2 {
            return None;
        }
        report_first_descent(&names, &positions, "impl method")
    }
}


// ── 6. UNSORTED_DERIVES ─────────────────────────────────────────────────

/// **Deny** — `#[derive(...)]` attributes must list traits in alphabetical
/// order.
pub struct UnsortedDerives;

/// Whether `c` is whitespace: the Unicode `White_Space` property, which
/// `char::is_whitespace` tests (tab to carriage return, space, next line,
/// no-break space, ogham space mark, en quad to hair space, line and
/// paragraph separators, narrow no-break space, medium mathematical space
/// and ideographic space).
pub open spec fn unicode_whitespace(c: char) -> bool {
    ||| ('\t' <= c && c <= '\r')
    ||| c == ' '
    ||| c == '\u{85}'
    ||| c == '\u{a0}'
    ||| c == '\u{1680}'
    ||| ('\u{2000}' <= c && c <= '\u{200a}')
    ||| c == '\u{2028}'
    ||| c == '\u{2029}'
    ||| c == '\u{202f}'
    ||| c == '\u{205f}'
    ||| c == '\u{3000}'
}

/// Whether `c` is whitespace.
pub(crate) fn is_whitespace(c: char) -> (r: bool)
    ensures
        r == unicode_whitespace(c),
{
    ('\t' <= c && c <= '\r') || c == ' ' || c == '\u{85}' || c == '\u{a0}' || c == '\u{1680}'
        || ('\u{2000}' <= c && c <= '\u{200a}') || c == '\u{2028}' || c == '\u{2029}' || c == '\u{202f}'
        || c == '\u{205f}' || c == '\u{3000}'
}

/// A text without its leading whitespace.
pub open spec fn trim_start(s: Seq<char>) -> Seq<char>
    decreases s.len(),
{
    if s.len() > 0 && unicode_whitespace(s[0]) {
        trim_start(s.drop_first())
    } else {
        s
    }
}

/// A text without its trailing whitespace.
pub open spec fn trim_end(s: Seq<char>) -> Seq<char>
    decreases s.len(),
{
    if s.len() > 0 && unicode_whitespace(s.last()) {
        trim_end(s.drop_last())
    } else {
        s
    }
}

/// A text without leading and trailing whitespace (`str::trim`).
pub open spec fn trim(s: Seq<char>) -> Seq<char> {
    trim_end(trim_start(s))
}

/// The characters of `s` without leading and trailing whitespace.
pub fn trim_chars(s: &Vec<char>, from: usize, to: usize) -> (r: (usize, usize))
    requires
        from <= to <= s@.len(),
    ensures
        r.0 <= r.1 <= s@.len(),
        s@.subrange(r.0 as int, r.1 as int) == trim(s@.subrange(from as int, to as int)),
{
    let mut a = from;
    while a < to && is_whitespace(s[a])
        invariant
            from <= a <= to <= s@.len(),
            trim_start(s@.subrange(from as int, to as int)) == trim_start(s@.subrange(a as int, to as int)),
        decreases to - a,
    {
        proof {
            assert(s@.subrange(a as int, to as int).drop_first() =~= s@.subrange(a + 1, to as int));
        }
        a = a + 1;
    }
    proof {
        if a < to {
            assert(s@.subrange(a as int, to as int)[0] == s@[a as int]);
        }
    }
    let mut b = to;
    while b > a && is_whitespace(s[b - 1])
        invariant
            a <= b <= to <= s@.len(),
            trim_end(s@.subrange(a as int, to as int)) == trim_end(s@.subrange(a as int, b as int)),
        decreases b,
    {
        proof {
            assert(s@.subrange(a as int, b as int).drop_last() =~= s@.subrange(a as int, b - 1));
        }
        b = b - 1;
    }
    proof {
        if b > a {
            assert(s@.subrange(a as int, b as int).last() == s@[b - 1]);
        }
    }
    (a, b)
}

/// The first position at or after `i` of `c` in `s`.
pub open spec fn find_first_from(s: Seq<char>, c: char, i: int) -> Option<int>
    decreases s.len() - i,
{
    if i < 0 || i >= s.len() {
        None
    } else if s[i] == c {
        Some(i)
    } else {
        find_first_from(s, c, i + 1)
    }
}

/// The first position of `c` in `s`.
pub open spec fn find_first(s: Seq<char>, c: char) -> Option<int> {
    find_first_from(s, c, 0)
}

/// The last position before `i` of `c` in `s`.
pub open spec fn find_last_before(s: Seq<char>, c: char, i: int) -> Option<int>
    decreases i,
{
    if i <= 0 || i > s.len() {
        None
    } else if s[i - 1] == c {
        Some(i - 1)
    } else {
        find_last_before(s, c, i - 1)
    }
}

/// The last position of `c` in `s`.
pub open spec fn find_last(s: Seq<char>, c: char) -> Option<int> {
    find_last_before(s, c, s.len() as int)
}

pub proof fn lemma_find_first_from(s: Seq<char>, c: char, i: int)
    requires
        0 <= i,
    ensures
        match find_first_from(s, c, i) {
            Some(k) => i <= k < s.len() && s[k] == c && forall|j: int| i <= j < k ==> s[j] != c,
            None => forall|j: int| i <= j < s.len() ==> s[j] != c,
        },
    decreases s.len() - i,
{
    if i < s.len() && s[i] != c {
        lemma_find_first_from(s, c, i + 1);
    }
}

/// `s` split at each `c` (`str::split`): one more piece than separators.
pub open spec fn split_on(s: Seq<char>, c: char) -> Seq<Seq<char>>
    decreases s.len(),
{
    match find_first(s, c) {
        Some(i) => {
            proof {
                lemma_find_first_from(s, c, 0);
            }
            seq![s.take(i)] + split_on(s.skip(i + 1), c)
        },
        None => seq![s],
    }
}

/// The pieces trimmed, the empty ones left out.
pub open spec fn trimmed_nonempty(parts: Seq<Seq<char>>) -> Seq<Seq<char>>
    decreases parts.len(),
{
    if parts.len() == 0 {
        Seq::empty()
    } else {
        trimmed_nonempty(parts.drop_last()) + if trim(parts.last()).len() > 0 {
            seq![trim(parts.last())]
        } else {
            Seq::<Seq<char>>::empty()
        }
    }
}

/// The trait names of a `#[derive(Trait1, Trait2, ...)]` snippet: what
/// stands between its first `(` and its last `)`, split at commas, trimmed,
/// empty names left out; none without both brackets.
pub open spec fn derive_names(snippet: Seq<char>) -> Seq<Seq<char>> {
    let s = trim(snippet);
    match (find_first(s, '('), find_last(s, ')')) {
        (Some(a), Some(b)) => trimmed_nonempty(split_on(s.subrange(a + 1, b), ',')),
        _ => Seq::empty(),
    }
}

/// Whether the first `(` of the trimmed snippet comes before its last `)`
/// when it has both (the names are read between them).
pub open spec fn derive_snippet_ok(snippet: Seq<char>) -> bool {
    let s = trim(snippet);
    match (find_first(s, '('), find_last(s, ')')) {
        (Some(a), Some(b)) => a < b,
        _ => true,
    }
}

pub proof fn lemma_trimmed_nonempty_cons(first: Seq<char>, rest: Seq<Seq<char>>)
    ensures
        trimmed_nonempty(seq![first] + rest) == (if trim(first).len() > 0 {
            seq![trim(first)]
        } else {
            Seq::<Seq<char>>::empty()
        }) + trimmed_nonempty(rest),
    decreases rest.len(),
{
    if rest.len() == 0 {
        let one = seq![first];
        assert(one + rest =~= one);
        assert(one.drop_last() =~= Seq::<Seq<char>>::empty());
        assert(one.last() == first);
        let head = if trim(first).len() > 0 { seq![trim(first)] } else { Seq::<Seq<char>>::empty() };
        assert(trimmed_nonempty(Seq::<Seq<char>>::empty()) =~= Seq::<Seq<char>>::empty());
        assert(trimmed_nonempty(one.drop_last()) =~= Seq::<Seq<char>>::empty());
        assert(trimmed_nonempty(one) =~= Seq::<Seq<char>>::empty() + head);
        assert(head + trimmed_nonempty(rest) =~= head);
    } else {
        let all = seq![first] + rest;
        assert(all.drop_last() =~= seq![first] + rest.drop_last());
        assert(all.last() == rest.last());
        lemma_trimmed_nonempty_cons(first, rest.drop_last());
    }
}

proof fn lemma_split_at_comma(chars: Seq<char>, p: int, i: int, to: int)
    requires
        0 <= p <= i < to <= chars.len(),
        chars[i] == ',',
        forall|j: int| p <= j < i ==> chars[j] != ',',
    ensures
        trimmed_nonempty(split_on(chars.subrange(p, to), ',')) == (if trim(chars.subrange(p, i)).len() > 0 {
            seq![trim(chars.subrange(p, i))]
        } else {
            Seq::<Seq<char>>::empty()
        }) + trimmed_nonempty(split_on(chars.subrange(i + 1, to), ',')),
{
    let rest = chars.subrange(p, to);
    let piece = chars.subrange(p, i);
    let tail_text = chars.subrange(i + 1, to);
    lemma_find_first_from(rest, ',', 0);
    assert(rest[i - p] == ',');
    assert forall|j: int| 0 <= j < i - p implies rest[j] != ',' by {
        assert(rest[j] == chars[p + j]);
    }
    assert(find_first(rest, ',') == Some(i - p));
    assert(rest.take(i - p) =~= piece);
    assert(rest.skip(i - p + 1) =~= tail_text);
    assert(split_on(rest, ',') == seq![piece] + split_on(tail_text, ','));
    lemma_trimmed_nonempty_cons(piece, split_on(tail_text, ','));
}

/// The trimmed, non-empty pieces of `chars[from..to]` split at commas.
fn split_trimmed(chars: &Vec<char>, from: usize, to: usize) -> (r: Vec<String>)
    requires
        from <= to <= chars@.len(),
    ensures
        names_view(r@) == trimmed_nonempty(split_on(chars@.subrange(from as int, to as int), ',')),
{
    let mut out: Vec<String> = Vec::new();
    let mut piece_start = from;
    let mut i = from;
    let ghost whole = chars@.subrange(from as int, to as int);
    proof {
        assert(names_view(out@) =~= Seq::<Seq<char>>::empty());
        assert(names_view(out@) + trimmed_nonempty(split_on(whole, ',')) =~= trimmed_nonempty(split_on(whole, ',')));
    }
    while i < to
        invariant
            from <= piece_start <= i <= to <= chars@.len(),
            whole == chars@.subrange(from as int, to as int),
            forall|j: int| piece_start <= j < i ==> chars@[j] != ',',
            trimmed_nonempty(split_on(whole, ',')) == names_view(out@) + trimmed_nonempty(
                split_on(chars@.subrange(piece_start as int, to as int), ','),
            ),
        decreases to - i,
    {
        if chars[i] == ',' {
            let ghost piece = chars@.subrange(piece_start as int, i as int);
            let ghost tail_text = chars@.subrange(i + 1, to as int);
            proof {
                lemma_split_at_comma(chars@, piece_start as int, i as int, to as int);
            }
            let (x, y) = trim_chars(chars, piece_start, i);
            let ghost before = out@;
            if x < y {
                out.push(string_from_range(chars, x, y));
                proof {
                    assert(names_view(out@) =~= names_view(before).push(chars@.subrange(x as int, y as int)));
                }
            }
            proof {
                let t = trim(piece);
                let tail = trimmed_nonempty(split_on(tail_text, ','));
                if t.len() > 0 {
                    assert(names_view(out@) + tail =~= names_view(before) + (seq![t] + tail));
                } else {
                    assert(names_view(out@) + tail =~= names_view(before) + (Seq::<Seq<char>>::empty() + tail));
                }
            }
            piece_start = i + 1;
        }
        i = i + 1;
    }
    let ghost last = chars@.subrange(piece_start as int, to as int);
    proof {
        lemma_find_first_from(last, ',', 0);
        assert forall|j: int| 0 <= j < last.len() implies last[j] != ',' by {
            assert(last[j] == chars@[piece_start + j]);
        }
        assert(split_on(last, ',') == seq![last]);
        lemma_trimmed_nonempty_cons(last, Seq::empty());
        assert(seq![last] + Seq::<Seq<char>>::empty() =~= seq![last]);
        assert(trimmed_nonempty(Seq::<Seq<char>>::empty()) =~= Seq::<Seq<char>>::empty());
    }
    let (x, y) = trim_chars(chars, piece_start, to);
    let ghost before = out@;
    if x < y {
        out.push(string_from_range(chars, x, y));
        proof {
            assert(names_view(out@) =~= names_view(before).push(chars@.subrange(x as int, y as int)));
            assert(names_view(out@) =~= names_view(before) + seq![trim(last)]);
        }
    } else {
        proof {
            assert(names_view(out@) =~= names_view(out@) + Seq::<Seq<char>>::empty());
        }
    }
    out
}

/// Extract trait names from a `#[derive(Trait1, Trait2, ...)]` source snippet.
pub fn extract_derive_names(snippet: &str) -> (r: Vec<String>)
    requires
        derive_snippet_ok(snippet@),
    ensures
        names_view(r@) == derive_names(snippet@),
{
    let chars = chars_of(snippet);
    let (lo, hi) = trim_chars(&chars, 0, chars.len());
    proof {
        assert(chars@.subrange(0, chars@.len() as int) =~= snippet@);
    }
    let ghost s = chars@.subrange(lo as int, hi as int);
    // first `(`
    let mut a = lo;
    while a < hi && chars[a] != '('
        invariant
            lo <= a <= hi <= chars@.len(),
            s == chars@.subrange(lo as int, hi as int),
            find_first(s, '(') == find_first_from(s, '(', a - lo),
        decreases hi - a,
    {
        a = a + 1;
    }
    // last `)`
    let mut b = hi;
    while b > lo && chars[b - 1] != ')'
        invariant
            lo <= b <= hi <= chars@.len(),
            s == chars@.subrange(lo as int, hi as int),
            find_last(s, ')') == find_last_before(s, ')', b - lo),
        decreases b,
    {
        b = b - 1;
    }
    if a == hi || b == lo {
        return Vec::new();
    }
    let close = b - 1;
    proof {
        assert(s.subrange(a - lo + 1, close - lo) =~= chars@.subrange(a + 1, close as int));
    }
    split_trimmed(&chars, a + 1, close)
}

/// Whether the names of a derive snippet can be read: its first `(` comes
/// before its last `)` where it has both.
pub fn derive_snippet_readable(snippet: &str) -> (r: bool)
    ensures
        r == derive_snippet_ok(snippet@),
{
    let chars = chars_of(snippet);
    let (lo, hi) = trim_chars(&chars, 0, chars.len());
    proof {
        assert(chars@.subrange(0, chars@.len() as int) =~= snippet@);
    }
    let ghost s = chars@.subrange(lo as int, hi as int);
    let mut a = lo;
    while a < hi && chars[a] != '('
        invariant
            lo <= a <= hi <= chars@.len(),
            s == chars@.subrange(lo as int, hi as int),
            find_first(s, '(') == find_first_from(s, '(', a - lo),
        decreases hi - a,
    {
        a = a + 1;
    }
    let mut b = hi;
    while b > lo && chars[b - 1] != ')'
        invariant
            lo <= b <= hi <= chars@.len(),
            s == chars@.subrange(lo as int, hi as int),
            find_last(s, ')') == find_last_before(s, ')', b - lo),
        decreases b,
    {
        b = b - 1;
    }
    a == hi || b == lo || a < b - 1
}

/// The trait names of a derive snippet, or `None` where its first `(`
/// comes after its last `)` and no names can be read.
pub fn derive_names_checked(snippet: &str) -> (r: Option<Vec<String>>)
    ensures
        match r {
            Some(v) => derive_snippet_ok(snippet@) && names_view(v@) == derive_names(snippet@),
            None => !derive_snippet_ok(snippet@),
        },
{
    if derive_snippet_readable(snippet) {
        Some(extract_derive_names(snippet))
    } else {
        None
    }
}

/// What the derive check reports for the derive attributes of an item (the
/// source text of each, `None` when it cannot be read): one report per
/// attribute of two or more names that are out of order.
pub open spec fn derive_reports(attrs: Seq<Option<Seq<char>>>) -> Seq<SpecReport>
    decreases attrs.len(),
{
    if attrs.len() == 0 {
        Seq::empty()
    } else {
        derive_reports(attrs.drop_last()) + match attrs.last() {
            Some(snippet) => {
                let names = derive_names(snippet);
                if names.len() < 2 {
                    Seq::<SpecReport>::empty()
                } else {
                    match first_descent(names) {
                        Some(k) => seq![SpecReport {
                            index: attrs.len() - 1,
                            message: order_message("derive trait"@, names[k], names[k - 1]),
                        }],
                        None => Seq::<SpecReport>::empty(),
                    }
                }
            },
            None => Seq::<SpecReport>::empty(),
        }
    }
}

impl UnsortedDerives {
    pub fn info(&self) -> (i: LintInfo)
        ensures
            i.name@ == "UNSORTED_DERIVES"@,
            i.level == Level::Deny,
            i.description@ == "#[derive(...)] traits must be in alphabetical order"@,
    {
        LintInfo::new("UNSORTED_DERIVES", Level::Deny, "#[derive(...)] traits must be in alphabetical order")
    }

    /// Checks the derive attributes of an item, in order.
    pub fn check_item(&self, attrs: &Vec<Option<String>>) -> (r: Vec<LintReport>)
        requires
            forall|i: int| 0 <= i < attrs@.len() ==> (#[trigger] attrs@[i] matches Some(s) ==> derive_snippet_ok(s@)),
        ensures
            reports_view(r@) == derive_reports(options_view(attrs@)),
    {
        let mut out: Vec<LintReport> = Vec::new();
        let mut i: usize = 0;
        while i < attrs.len()
            invariant
                i <= attrs@.len(),
                forall|i: int| 0 <= i < attrs@.len() ==> (#[trigger] attrs@[i] matches Some(s) ==> derive_snippet_ok(s@)),
                reports_view(out@) == derive_reports(options_view(attrs@).take(i as int)),
            decreases attrs@.len() - i,
        {
            let ghost before = reports_view(out@);
            proof {
                assert(options_view(attrs@).take(i + 1).drop_last() =~= options_view(attrs@).take(i as int));
            }
            match &attrs[i] {
                Some(snippet) => {
                    let names = extract_derive_names(snippet.as_str());
                    if names.len() >= 2 {
                        match first_unsorted(&names) {
                            Some((_idx, prev, curr)) => {
                                let message = order_message_text("derive trait", curr.as_str(), prev.as_str());
                                out.push(LintReport { index: i, message });
                                proof {
                                    crate::lints::order::lemma_first_descent(names_view(names@));
                                    assert(reports_view(out@) =~= before.push(SpecReport {
                                        index: i as int,
                                        message: order_message("derive trait"@, curr@, prev@),
                                    }));
                                }
                            },
                            None => {
                                assert(reports_view(out@) =~= before + Seq::<SpecReport>::empty());
                            },
                        }
                    } else {
                        assert(reports_view(out@) =~= before + Seq::<SpecReport>::empty());
                    }
                },
                None => {
                    assert(reports_view(out@) =~= before + Seq::<SpecReport>::empty());
                },
            }
            i = i + 1;
        }
        proof {
            assert(options_view(attrs@).take(i as int) =~= options_view(attrs@));
        }
        out
    }
}

} // verus!
