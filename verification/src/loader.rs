//! What the module loader decides: which file a `use` names, which
//! bindings ship with the compiler and what they bring, and the error for
//! a `use` that names neither.

use vstd::prelude::*;
use crate::lexer::token::str_eq;
use crate::lsp::strings_view;
use crate::syntax::tree::{item_v, items_v, Item, Module, SpecItem, SpecUse, UseDecl};
use crate::text::{chars_of, push_char, push_str, string_from};

verus! {

/// A crate that a shipped binding needs.
#[derive(Debug)]
pub struct CargoDep {
    pub name: String,
    pub version: String,
    pub features: Vec<String>,
}

pub struct SpecDep {
    pub name: Seq<char>,
    pub version: Seq<char>,
    pub features: Seq<Seq<char>>,
}

impl View for CargoDep {
    type V = SpecDep;

    open spec fn view(&self) -> SpecDep {
        SpecDep { name: self.name@, version: self.version@, features: strings_view(self.features@) }
    }
}

pub open spec fn deps_view(deps: Seq<CargoDep>) -> Seq<SpecDep> {
    deps.map_values(|d: CargoDep| d@)
}

/// A loaded program: its items, with those of the files and bindings it
/// uses, the crates the bindings need and the Rust code they put before
/// the generated program.
#[derive(Debug)]
pub struct LoadResult {
    pub module: Module,
    pub cargo_deps: Vec<CargoDep>,
    pub rust_preludes: Vec<String>,
}

// ── file names ──────────────────────────────────────────────────────────

pub open spec fn is_ascii_upper(c: char) -> bool {
    'A' <= c && c <= 'Z'
}

/// The lower-case letter for an ASCII capital.
pub open spec fn ascii_lower(c: char) -> char {
    if c == 'A' { 'a' } else if c == 'B' { 'b' } else if c == 'C' { 'c' } else if c == 'D' { 'd' }
    else if c == 'E' { 'e' } else if c == 'F' { 'f' } else if c == 'G' { 'g' } else if c == 'H' { 'h' }
    else if c == 'I' { 'i' } else if c == 'J' { 'j' } else if c == 'K' { 'k' } else if c == 'L' { 'l' }
    else if c == 'M' { 'm' } else if c == 'N' { 'n' } else if c == 'O' { 'o' } else if c == 'P' { 'p' }
    else if c == 'Q' { 'q' } else if c == 'R' { 'r' } else if c == 'S' { 's' } else if c == 'T' { 't' }
    else if c == 'U' { 'u' } else if c == 'V' { 'v' } else if c == 'W' { 'w' } else if c == 'X' { 'x' }
    else if c == 'Y' { 'y' } else if c == 'Z' { 'z' } else { c }
}

/// Lowering an ASCII capital gives the letter at the same place in the
/// lower-case alphabet, which stands 32 code points after it.
pub proof fn lemma_ascii_lower_shift(c: char)
    requires
        is_ascii_upper(c),
    ensures
        ascii_lower(c) as u32 == c as u32 + 32,
        'a' <= ascii_lower(c) && ascii_lower(c) <= 'z',
{
}

/// A name in snake case: each ASCII capital becomes its lower-case letter,
/// with `_` before it unless it comes first.
pub open spec fn snake_text(s: Seq<char>) -> Seq<char>
    decreases s.len(),
{
    if s.len() == 0 {
        s
    } else {
        let c = s.last();
        snake_text(s.drop_last()) + if is_ascii_upper(c) {
            if s.len() > 1 {
                seq!['_', ascii_lower(c)]
            } else {
                seq![ascii_lower(c)]
            }
        } else {
            seq![c]
        }
    }
}

fn to_ascii_lower(c: char) -> (r: char)
    requires
        is_ascii_upper(c),
    ensures
        r == ascii_lower(c),
{
    if c == 'A' { 'a' } else if c == 'B' { 'b' } else if c == 'C' { 'c' } else if c == 'D' { 'd' }
    else if c == 'E' { 'e' } else if c == 'F' { 'f' } else if c == 'G' { 'g' } else if c == 'H' { 'h' }
    else if c == 'I' { 'i' } else if c == 'J' { 'j' } else if c == 'K' { 'k' } else if c == 'L' { 'l' }
    else if c == 'M' { 'm' } else if c == 'N' { 'n' } else if c == 'O' { 'o' } else if c == 'P' { 'p' }
    else if c == 'Q' { 'q' } else if c == 'R' { 'r' } else if c == 'S' { 's' } else if c == 'T' { 't' }
    else if c == 'U' { 'u' } else if c == 'V' { 'v' } else if c == 'W' { 'w' } else if c == 'X' { 'x' }
    else if c == 'Y' { 'y' } else { 'z' }
}

/// The name in snake case (`HttpClient` → `http_client`).
pub fn snake_case(s: &str) -> (r: String)
    ensures
        r@ == snake_text(s@),
{
    let cs = chars_of(s);
    let mut out = String::new();
    let mut i: usize = 0;
    while i < cs.len()
        invariant
            i <= cs@.len(),
            cs@ == s@,
            out@ == snake_text(s@.take(i as int)),
        decreases cs@.len() - i,
    {
        let c = cs[i];
        proof {
            assert(s@.take(i + 1).drop_last() =~= s@.take(i as int));
            assert(s@.take(i + 1).last() == c);
        }
        if 'A' <= c && c <= 'Z' {
            if i > 0 {
                push_char(&mut out, '_');
            }
            push_char(&mut out, to_ascii_lower(c));
        } else {
            push_char(&mut out, c);
        }
        proof {
            if 'A' <= c && c <= 'Z' {
                if i > 0 {
                    assert(out@ =~= snake_text(s@.take(i as int)) + seq!['_', ascii_lower(c)]);
                } else {
                    assert(out@ =~= snake_text(s@.take(i as int)) + seq![ascii_lower(c)]);
                }
            } else {
                assert(out@ =~= snake_text(s@.take(i as int)) + seq![c]);
            }
        }
        i = i + 1;
    }
    proof {
        assert(s@.take(i as int) =~= s@);
    }
    out
}

/// The file a `use Name` looks for, beside the file that holds it.
pub open spec fn use_file(name: Seq<char>) -> Seq<char> {
    snake_text(name) + ".ow"@
}

pub fn use_file_name(name: &str) -> (r: String)
    ensures
        r@ == use_file(name@),
{
    let mut out = snake_case(name);
    push_str(&mut out, ".ow");
    out
}

/// The error for a `use` that names neither a file nor a shipped binding.
pub open spec fn unresolved_use(name: Seq<char>, candidate: Seq<char>) -> Seq<char> {
    "`use "@ + name + "` cannot find `"@ + candidate + "` (not in current directory and not a shipped binding)"@
}

pub fn unresolved_use_message(name: &str, candidate: &str) -> (r: String)
    ensures
        r@ == unresolved_use(name@, candidate@),
{
    let mut out = string_from("`use ");
    push_str(&mut out, name);
    push_str(&mut out, "` cannot find `");
    push_str(&mut out, candidate);
    push_str(&mut out, "` (not in current directory and not a shipped binding)");
    out
}

// ── shipped bindings ────────────────────────────────────────────────────

/// A binding that ships with the compiler: its name, the crates it needs
/// and the Rust code it puts before the program.
#[derive(Debug)]
pub struct StdlibEntry {
    pub name: String,
    pub cargo_deps: Vec<CargoDep>,
    pub rust_prelude: Option<String>,
}

pub struct SpecStdlib {
    pub name: Seq<char>,
    pub cargo_deps: Seq<SpecDep>,
    pub rust_prelude: Option<Seq<char>>,
}

impl View for StdlibEntry {
    type V = SpecStdlib;

    open spec fn view(&self) -> SpecStdlib {
        SpecStdlib {
            name: self.name@,
            cargo_deps: deps_view(self.cargo_deps@),
            rust_prelude: match self.rust_prelude {
                Some(p) => Some(p@),
                None => None,
            },
        }
    }
}

pub open spec fn spec_dep(name: Seq<char>, version: Seq<char>, features: Seq<Seq<char>>) -> SpecDep {
    SpecDep { name, version, features }
}

/// The Rust code the `HttpClient` binding puts before a program.
pub open spec fn http_client_prelude() -> Seq<char> {
    "#[allow(dead_code)]\nasync fn oneway_http_get_text(url: String) -> Result<String, reqwest::Error> {\n    let resp = reqwest::get(&url).await?;\n    resp.text().await\n}\n"@
}

/// The shipped bindings: `Clock` and `Datetime` need `chrono`,
/// `Filesystem` needs `tokio`, and `HttpClient` needs `reqwest` and
/// `tokio` and brings a Rust helper.
pub open spec fn stdlib_binding(name: Seq<char>) -> Option<SpecStdlib> {
    if name == "Clock"@ || name == "Datetime"@ {
        Some(SpecStdlib { name, cargo_deps: seq![spec_dep("chrono"@, "0.4"@, Seq::empty())], rust_prelude: None })
    } else if name == "Filesystem"@ {
        Some(SpecStdlib { name, cargo_deps: seq![spec_dep("tokio"@, "1"@, seq!["full"@])], rust_prelude: None })
    } else if name == "HttpClient"@ {
        Some(SpecStdlib {
            name,
            cargo_deps: seq![spec_dep("reqwest"@, "0.12"@, Seq::empty()), spec_dep("tokio"@, "1"@, seq!["full"@])],
            rust_prelude: Some(http_client_prelude()),
        })
    } else {
        None
    }
}

fn dep(name: &str, version: &str, features: Vec<String>) -> (d: CargoDep)
    ensures
        d@ == spec_dep(name@, version@, strings_view(features@)),
{
    CargoDep { name: string_from(name), version: string_from(version), features }
}

fn full_features() -> (v: Vec<String>)
    ensures
        strings_view(v@) == seq!["full"@],
{
    let v = vec![string_from("full")];
    assert(strings_view(v@) =~= seq!["full"@]);
    v
}

/// The shipped binding of that name, if there is one.
pub fn stdlib_entry(name: &str) -> (r: Option<StdlibEntry>)
    ensures
        match r {
            Some(e) => stdlib_binding(name@) == Some(e@),
            None => stdlib_binding(name@) is None,
        },
{
    let no_features: Vec<String> = Vec::new();
    proof {
        assert(strings_view(no_features@) =~= Seq::<Seq<char>>::empty());
    }
    if str_eq(name, "Clock") || str_eq(name, "Datetime") {
        let deps = vec![dep("chrono", "0.4", no_features)];
        let e = StdlibEntry { name: string_from(name), cargo_deps: deps, rust_prelude: None };
        assert(deps_view(e.cargo_deps@) =~= seq![spec_dep("chrono"@, "0.4"@, Seq::empty())]);
        Some(e)
    } else if str_eq(name, "Filesystem") {
        let deps = vec![dep("tokio", "1", full_features())];
        let e = StdlibEntry { name: string_from(name), cargo_deps: deps, rust_prelude: None };
        assert(deps_view(e.cargo_deps@) =~= seq![spec_dep("tokio"@, "1"@, seq!["full"@])]);
        Some(e)
    } else if str_eq(name, "HttpClient") {
        let deps = vec![dep("reqwest", "0.12", no_features), dep("tokio", "1", full_features())];
        let prelude = string_from(
            "#[allow(dead_code)]\nasync fn oneway_http_get_text(url: String) -> Result<String, reqwest::Error> {\n    let resp = reqwest::get(&url).await?;\n    resp.text().await\n}\n",
        );
        let e = StdlibEntry { name: string_from(name), cargo_deps: deps, rust_prelude: Some(prelude) };
        assert(deps_view(e.cargo_deps@) =~= seq![
            spec_dep("reqwest"@, "0.12"@, Seq::empty()),
            spec_dep("tokio"@, "1"@, seq!["full"@]),
        ]);
        Some(e)
    } else {
        None
    }
}

// ── resolving a `use` ───────────────────────────────────────────────────

/// What the loader does for one `use Name`, given whether the file it names
/// exists beside the current one and which bindings were already added.
#[derive(Debug)]
pub enum UseStep {
    /// Load the file beside the current one.
    LoadFile,
    /// Add the shipped binding's crates and prelude.
    Bind(StdlibEntry),
    /// The binding was added before; nothing more to do.
    AlreadyBound,
    /// Neither a file nor a shipped binding: the error's message.
    Unresolved(String),
}

pub enum SpecUseStep {
    LoadFile,
    Bind(SpecStdlib),
    AlreadyBound,
    Unresolved(Seq<char>),
}

impl View for UseStep {
    type V = SpecUseStep;

    open spec fn view(&self) -> SpecUseStep {
        match self {
            UseStep::LoadFile => SpecUseStep::LoadFile,
            UseStep::Bind(e) => SpecUseStep::Bind(e@),
            UseStep::AlreadyBound => SpecUseStep::AlreadyBound,
            UseStep::Unresolved(m) => SpecUseStep::Unresolved(m@),
        }
    }
}

/// A file beside the current one comes first, then a shipped binding (once
/// per name), and otherwise the `use` is an error naming the file looked
/// for.
pub open spec fn use_step(name: Seq<char>, file_exists: bool, bound: Seq<Seq<char>>, candidate: Seq<char>) -> SpecUseStep {
    if file_exists {
        SpecUseStep::LoadFile
    } else {
        match stdlib_binding(name) {
            Some(e) => if bound.contains(name) { SpecUseStep::AlreadyBound } else { SpecUseStep::Bind(e) },
            None => SpecUseStep::Unresolved(unresolved_use(name, candidate)),
        }
    }
}

/// Decides one `use Name`: `file_exists` tells whether the file
/// `use_file_name(name)` exists beside the current file, `bound` lists the
/// bindings added so far, and `candidate` is how that file is shown.
pub fn resolve_use(name: &str, file_exists: bool, bound: &Vec<String>, candidate: &str) -> (r: UseStep)
    ensures
        r@ == use_step(name@, file_exists, strings_view(bound@), candidate@),
{
    if file_exists {
        return UseStep::LoadFile;
    }
    match stdlib_entry(name) {
        Some(e) => {
            let mut i: usize = 0;
            while i < bound.len()
                invariant
                    i <= bound@.len(),
                    strings_view(bound@).len() == bound@.len(),
                    !file_exists,
                    stdlib_binding(name@) == Some(e@),
                    forall|j: int| 0 <= j < i ==> strings_view(bound@)[j] != name@,
                decreases bound@.len() - i,
            {
                if str_eq(bound[i].as_str(), name) {
                    proof {
                        assert(strings_view(bound@)[i as int] == name@);
                        assert(strings_view(bound@).contains(name@));
                    }
                    return UseStep::AlreadyBound;
                }
                i = i + 1;
            }
            UseStep::Bind(e)
        },
        None => UseStep::Unresolved(unresolved_use_message(name, candidate)),
    }
}

// ── `use` items ─────────────────────────────────────────────────────────

/// The `use` declarations of a list of items, in order.
pub open spec fn uses_of(items: Seq<SpecItem>) -> Seq<SpecUse>
    decreases items.len(),
{
    if items.len() == 0 {
        Seq::empty()
    } else {
        uses_of(items.drop_last()) + match items.last() {
            SpecItem::Use(u) => seq![u],
            _ => Seq::empty(),
        }
    }
}

/// The items other than `use` declarations, in order.
pub open spec fn non_uses(items: Seq<SpecItem>) -> Seq<SpecItem>
    decreases items.len(),
{
    if items.len() == 0 {
        Seq::empty()
    } else {
        non_uses(items.drop_last()) + match items.last() {
            SpecItem::Use(_) => Seq::empty(),
            other => seq![other],
        }
    }
}

pub open spec fn use_v(u: UseDecl) -> SpecUse {
    SpecUse { name: u.name@, span: u.span }
}

/// Parts a module's items into its `use` declarations and the rest, both
/// in their order.
pub fn split_uses(module: Module) -> (r: (Vec<UseDecl>, Vec<Item>))
    ensures
        r.0@.map_values(|u: UseDecl| use_v(u)) == uses_of(items_v(module.items@)),
        items_v(r.1@) == non_uses(items_v(module.items@)),
{
    let ghost all = module.items@;
    let n = module.items.len();
    let mut rest_in = module.items;
    let mut uses: Vec<UseDecl> = Vec::new();
    let mut others: Vec<Item> = Vec::new();
    let mut k: usize = 0;
    proof {
        assert(all.take(0) =~= Seq::<Item>::empty());
        assert(items_v(Seq::<Item>::empty()) =~= Seq::<SpecItem>::empty());
        assert(uses@.map_values(|u: UseDecl| use_v(u)) =~= Seq::<SpecUse>::empty());
    }
    while rest_in.len() > 0
        invariant
            k + rest_in@.len() == all.len(),
            all.len() == n,
            rest_in@ == all.skip(k as int),
            uses@.map_values(|u: UseDecl| use_v(u)) == uses_of(items_v(all.take(k as int))),
            items_v(others@) == non_uses(items_v(all.take(k as int))),
        decreases rest_in@.len(),
    {
        let ghost before_uses = uses@;
        let ghost before_others = others@;
        let item = rest_in.remove(0);
        proof {
            assert(item == all[k as int]);
            assert(all.take(k + 1).drop_last() =~= all.take(k as int));
            crate::syntax::tree::lemma_items_v_push(all.take(k as int), item);
            assert(all.take(k + 1) =~= all.take(k as int).push(item));
            let pv = items_v(all.take(k as int));
            assert(pv.push(item_v(item)).drop_last() =~= pv);
        }
        match item {
            Item::Use(u) => {
                uses.push(u);
                proof {
                    assert(uses@.map_values(|u: UseDecl| use_v(u)) =~= before_uses.map_values(|u: UseDecl| use_v(u)).push(
                        use_v(u),
                    ));
                }
            },
            other => {
                proof {
                    crate::syntax::tree::lemma_items_v_push(before_others, other);
                }
                others.push(other);
            },
        }
        proof {
            assert(rest_in@ =~= all.skip(k + 1));
        }
        k = k + 1;
    }
    proof {
        assert(all.take(k as int) =~= all);
    }
    (uses, others)
}

proof fn lemma_snake_text_no_capitals(s: Seq<char>)
    ensures
        forall|i: int| 0 <= i < snake_text(s).len() ==> !is_ascii_upper(#[trigger] snake_text(s)[i]),
    decreases s.len(),
{
    if s.len() > 0 {
        lemma_snake_text_no_capitals(s.drop_last());
        let prev = snake_text(s.drop_last());
        let r = snake_text(s);
        assert forall|i: int| 0 <= i < r.len() implies !is_ascii_upper(#[trigger] r[i]) by {
            if i < prev.len() {
                assert(r[i] == prev[i]);
            }
        }
    }
}

proof fn lemma_snake_text_keeps(t: Seq<char>)
    requires
        forall|i: int| 0 <= i < t.len() ==> !is_ascii_upper(#[trigger] t[i]),
    ensures
        snake_text(t) == t,
    decreases t.len(),
{
    if t.len() > 0 {
        lemma_snake_text_keeps(t.drop_last());
        assert(!is_ascii_upper(t[t.len() - 1]));
        assert(t.drop_last() + seq![t.last()] =~= t);
    }
}

/// A snake-case name holds no ASCII capitals, so converting it again
/// leaves it as it is.
pub proof fn lemma_snake_case_idempotent(s: Seq<char>)
    ensures
        forall|i: int| 0 <= i < snake_text(s).len() ==> !is_ascii_upper(#[trigger] snake_text(s)[i]),
        snake_text(snake_text(s)) == snake_text(s),
{
    lemma_snake_text_no_capitals(s);
    lemma_snake_text_keeps(snake_text(s));
}

} // verus!
