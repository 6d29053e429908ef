//! The decisions of the `oneway` command line: which command runs, what
//! `upgrade` was asked to do, and the text the commands assemble (sources
//! with preludes, output paths, crate names, version tags, shell words and
//! the manifest of a generated crate).

use vstd::prelude::*;
use crate::lexer::scanner::{alphanumeric, is_alphanumeric};
use crate::lexer::token::str_eq;
use crate::loader::{deps_view, CargoDep, SpecDep};
use crate::lints::sorting::{is_whitespace, trim, trim_chars, trim_start, unicode_whitespace};
use crate::lsp::{lines_of, split_lines, strings_view};
use crate::text::{chars_of, push_char, push_chars, push_str, string_from, string_from_range};

verus! {

// ── commands ────────────────────────────────────────────────────────────

/// A command of the `oneway` tool.
#[derive(Debug, Clone, Copy, PartialEq, Eq, Structural)]
pub enum Command {
    Run,
    Build,
    Emit,
    Ast,
    Check,
    Tokens,
    Upgrade,
    Version,
    Help,
}

/// The command a word names (`update` is `upgrade`; `--version`, `-V`,
/// `--help` and `-h` name `version` and `help`).
pub open spec fn command_named(w: Seq<char>) -> Option<Command> {
    if w == "run"@ {
        Some(Command::Run)
    } else if w == "build"@ {
        Some(Command::Build)
    } else if w == "emit"@ {
        Some(Command::Emit)
    } else if w == "ast"@ {
        Some(Command::Ast)
    } else if w == "check"@ {
        Some(Command::Check)
    } else if w == "tokens"@ {
        Some(Command::Tokens)
    } else if w == "upgrade"@ || w == "update"@ {
        Some(Command::Upgrade)
    } else if w == "version"@ || w == "--version"@ || w == "-V"@ {
        Some(Command::Version)
    } else if w == "help"@ || w == "--help"@ || w == "-h"@ {
        Some(Command::Help)
    } else {
        None
    }
}

/// Reads the command word.
pub fn parse_command(word: &str) -> (r: Option<Command>)
    ensures
        r == command_named(word@),
{
    if str_eq(word, "run") {
        Some(Command::Run)
    } else if str_eq(word, "build") {
        Some(Command::Build)
    } else if str_eq(word, "emit") {
        Some(Command::Emit)
    } else if str_eq(word, "ast") {
        Some(Command::Ast)
    } else if str_eq(word, "check") {
        Some(Command::Check)
    } else if str_eq(word, "tokens") {
        Some(Command::Tokens)
    } else if str_eq(word, "upgrade") || str_eq(word, "update") {
        Some(Command::Upgrade)
    } else if str_eq(word, "version") || str_eq(word, "--version") || str_eq(word, "-V") {
        Some(Command::Version)
    } else if str_eq(word, "help") || str_eq(word, "--help") || str_eq(word, "-h") {
        Some(Command::Help)
    } else {
        None
    }
}

// ── assembling the generated source ─────────────────────────────────────

/// Preludes, each followed by a blank line (a newline added first when it
/// does not end in one), then the body; the body alone without preludes.
pub open spec fn combined_source(preludes: Seq<Seq<char>>, body: Seq<char>) -> Seq<char>
    decreases preludes.len(),
{
    if preludes.len() == 0 {
        body
    } else {
        prelude_block(preludes[0]) + combined_source(preludes.drop_first(), body)
    }
}

/// A prelude as it stands before the body.
pub open spec fn prelude_block(p: Seq<char>) -> Seq<char> {
    if p.len() > 0 && p.last() == '\n' {
        p + seq!['\n']
    } else {
        p + seq!['\n', '\n']
    }
}

/// Puts the Rust preludes of the used bindings before the generated code.
pub fn combine_source(preludes: &Vec<String>, body: &str) -> (r: String)
    ensures
        r@ == combined_source(preludes@.map_values(|p: String| p@), body@),
{
    let ghost ps = preludes@.map_values(|p: String| p@);
    if preludes.len() == 0 {
        return string_from(body);
    }
    let mut s = String::new();
    let mut i: usize = 0;
    proof {
        assert(ps.skip(0) =~= ps);
        assert(s@ + combined_source(ps, body@) =~= combined_source(ps, body@));
    }
    while i < preludes.len()
        invariant
            i <= preludes@.len(),
            ps == preludes@.map_values(|p: String| p@),
            s@ + combined_source(ps.skip(i as int), body@) == combined_source(ps, body@),
        decreases preludes@.len() - i,
    {
        let p = &preludes[i];
        let pc = chars_of(p.as_str());
        push_str(&mut s, p.as_str());
        if !(pc.len() > 0 && pc[pc.len() - 1] == '\n') {
            push_char(&mut s, '\n');
        }
        push_char(&mut s, '\n');
        proof {
            assert(ps.skip(i as int)[0] == p@);
            assert(ps.skip(i as int).drop_first() =~= ps.skip(i + 1));
            assert(s@ + combined_source(ps.skip(i + 1), body@) =~= (s@ + combined_source(ps.skip(i + 1), body@)));
        }
        i = i + 1;
    }
    push_str(&mut s, body);
    proof {
        assert(ps.skip(i as int) =~= Seq::<Seq<char>>::empty());
    }
    s
}

/// Whether `s` ends with `suffix`.
pub open spec fn ends_with(s: Seq<char>, suffix: Seq<char>) -> bool {
    s.len() >= suffix.len() && s.skip(s.len() - suffix.len()) == suffix
}

/// A path without its `.ow` extension.
pub open spec fn without_ow(path: Seq<char>) -> Seq<char> {
    if ends_with(path, ".ow"@) {
        path.take(path.len() - 3)
    } else {
        path
    }
}

/// The output path for a source file: its path without `.ow`.
pub fn strip_ow_extension(file_path: &str) -> (r: String)
    ensures
        r@ == without_ow(file_path@),
{
    let cs = chars_of(file_path);
    let n = cs.len();
    proof {
        reveal_strlit(".ow");
    }
    if n >= 3 && cs[n - 3] == '.' && cs[n - 2] == 'o' && cs[n - 1] == 'w' {
        proof {
            assert(file_path@.skip(n - 3) =~= ".ow"@);
        }
        string_from_range(&cs, 0, n - 3)
    } else {
        proof {
            if ends_with(file_path@, ".ow"@) {
                assert(file_path@.skip(n - 3)[0] == file_path@[n - 3]);
                assert(file_path@.skip(n - 3)[1] == file_path@[n - 2]);
                assert(file_path@.skip(n - 3)[2] == file_path@[n - 1]);
            }
        }
        string_from(file_path)
    }
}

// ── crate names ─────────────────────────────────────────────────────────

/// A name with every character that is not alphanumeric or `_` replaced
/// by `_`.
pub open spec fn underscored(name: Seq<char>) -> Seq<char> {
    name.map_values(|c: char| if alphanumeric(c) || c == '_' { c } else { '_' })
}

/// A valid crate name from a file name: characters outside identifiers
/// become `_`, a leading digit gets a `_` before it, and an empty name
/// becomes `oneway_build`.
pub open spec fn crate_name_of(name: Seq<char>) -> Seq<char> {
    let s = underscored(name);
    if s.len() > 0 && '0' <= s[0] && s[0] <= '9' {
        seq!['_'] + s
    } else if s.len() == 0 {
        "oneway_build"@
    } else {
        s
    }
}

pub fn sanitize_crate_name(name: &str) -> (r: String)
    ensures
        r@ == crate_name_of(name@),
{
    let cs = chars_of(name);
    let mut s: Vec<char> = Vec::new();
    let mut i: usize = 0;
    while i < cs.len()
        invariant
            i <= cs@.len(),
            cs@ == name@,
            s@ == underscored(name@).take(i as int),
        decreases cs@.len() - i,
    {
        let c = cs[i];
        if is_alphanumeric(c) || c == '_' {
            s.push(c);
        } else {
            s.push('_');
        }
        proof {
            assert(s@ =~= underscored(name@).take(i + 1));
        }
        i = i + 1;
    }
    proof {
        assert(underscored(name@).take(i as int) =~= underscored(name@));
    }
    if s.len() > 0 && '0' <= s[0] && s[0] <= '9' {
        let mut out = string_from("_");
        push_chars(&mut out, s.as_slice());
        proof {
            reveal_strlit("_");
        }
        out
    } else if s.len() == 0 {
        string_from("oneway_build")
    } else {
        crate::text::string_from_chars(s.as_slice())
    }
}

// ── release tags ────────────────────────────────────────────────────────

/// A tag without its leading `v`, if any.
pub open spec fn tag_version(tag: Seq<char>) -> Seq<char> {
    if tag.len() > 0 && tag[0] == 'v' {
        tag.drop_first()
    } else {
        tag
    }
}

/// A tag without its leading `v`.
pub fn normalize_tag(tag: &str) -> (r: String)
    ensures
        r@ == tag_version(tag@),
{
    let cs = chars_of(tag);
    if cs.len() > 0 && cs[0] == 'v' {
        string_from_range(&cs, 1, cs.len())
    } else {
        string_from(tag)
    }
}

/// An ASCII letter or digit.
pub open spec fn is_ascii_alphanumeric(c: char) -> bool {
    ('0' <= c && c <= '9') || ('a' <= c && c <= 'z') || ('A' <= c && c <= 'Z')
}

/// Whether a tag looks like a release version: after an optional `v`, a
/// digit and then only ASCII letters, digits, `.` and `-`.
pub open spec fn is_version_tag(tag: Seq<char>) -> bool {
    let rest = tag_version(tag);
    &&& rest.len() > 0
    &&& '0' <= rest[0] && rest[0] <= '9'
    &&& forall|i: int| 1 <= i < rest.len() ==> is_ascii_alphanumeric(#[trigger] rest[i]) || rest[i] == '.' || rest[i] == '-'
}

pub fn looks_like_version_tag(tag: &str) -> (r: bool)
    ensures
        r == is_version_tag(tag@),
{
    let cs = chars_of(tag);
    let start: usize = if cs.len() > 0 && cs[0] == 'v' { 1 } else { 0 };
    let ghost rest = tag_version(tag@);
    proof {
        assert(rest =~= cs@.skip(start as int));
    }
    if start >= cs.len() {
        return false;
    }
    if !('0' <= cs[start] && cs[start] <= '9') {
        proof {
            assert(rest[0] == cs@[start as int]);
        }
        return false;
    }
    let mut i = start + 1;
    while i < cs.len()
        invariant
            start < i <= cs@.len(),
            cs@ == tag@,
            rest == cs@.skip(start as int),
            rest == tag_version(tag@),
            forall|j: int| 1 <= j < i - start ==> is_ascii_alphanumeric(#[trigger] rest[j]) || rest[j] == '.' || rest[j] == '-',
        decreases cs@.len() - i,
    {
        let c = cs[i];
        if !(('0' <= c && c <= '9') || ('a' <= c && c <= 'z') || ('A' <= c && c <= 'Z') || c == '.' || c == '-') {
            proof {
                assert(rest[i - start] == c);
            }
            return false;
        }
        proof {
            assert(rest[i - start] == c);
        }
        i = i + 1;
    }
    true
}

/// Whether the latest release tag names the running version.
pub fn is_up_to_date(latest: &str, current: &str) -> (r: bool)
    ensures
        r == (tag_version(latest@) == tag_version(current@)),
{
    let a = normalize_tag(latest);
    let b = normalize_tag(current);
    str_eq(a.as_str(), b.as_str())
}

/// The last `/`-separated segment of a URL.
pub open spec fn last_segment(url: Seq<char>) -> Seq<char>
    decreases url.len(),
{
    if url.len() == 0 {
        url
    } else if url.last() == '/' {
        Seq::empty()
    } else {
        last_segment(url.drop_last()).push(url.last())
    }
}

/// The release tag at the end of a release URL.
pub fn tag_from_url(url: &str) -> (r: String)
    ensures
        r@ == last_segment(url@),
{
    let cs = chars_of(url);
    let mut start = cs.len();
    proof {
        assert(url@.take(start as int) =~= url@);
        assert(url@.subrange(start as int, start as int) =~= Seq::<char>::empty());
        assert(last_segment(url@) + Seq::<char>::empty() =~= last_segment(url@));
    }
    while start > 0 && cs[start - 1] != '/'
        invariant
            start <= cs@.len(),
            cs@ == url@,
            last_segment(url@) == last_segment(url@.take(start as int)) + url@.subrange(start as int, cs@.len() as int),
        decreases start,
    {
        proof {
            let t = url@.take(start as int);
            assert(t.drop_last() =~= url@.take(start - 1));
            assert(t.last() == url@[start - 1]);
            assert(url@.subrange(start - 1, cs@.len() as int) =~= seq![url@[start - 1]] + url@.subrange(
                start as int,
                cs@.len() as int,
            ));
            assert(last_segment(t) == last_segment(url@.take(start - 1)).push(url@[start - 1]));
            assert(last_segment(url@.take(start - 1)).push(url@[start - 1]) + url@.subrange(start as int, cs@.len() as int)
                =~= last_segment(url@.take(start - 1)) + url@.subrange(start - 1, cs@.len() as int));
        }
        start = start - 1;
    }
    proof {
        if start == 0 {
            assert(url@.take(0) =~= Seq::<char>::empty());
        } else {
            let t = url@.take(start as int);
            assert(t.last() == '/');
        }
        assert(Seq::<char>::empty() + url@.subrange(start as int, cs@.len() as int) =~= url@.subrange(
            start as int,
            cs@.len() as int,
        ));
    }
    string_from_range(&cs, start, cs.len())
}

// ── quoting for the shell ───────────────────────────────────────────────

/// A character that needs no quoting in a shell word.
pub open spec fn shell_safe(c: char) -> bool {
    is_ascii_alphanumeric(c) || c == '.' || c == '_' || c == '-' || c == '/'
}

/// The text with each `'` written as `'\''`.
pub open spec fn escape_quotes(s: Seq<char>) -> Seq<char>
    decreases s.len(),
{
    if s.len() == 0 {
        s
    } else {
        escape_quotes(s.drop_last()) + if s.last() == '\'' {
            seq!['\'', '\\', '\'', '\'']
        } else {
            seq![s.last()]
        }
    }
}

/// A shell word for `s`: unchanged when every character is safe, else in
/// single quotes with each `'` written as `'\''`.
pub open spec fn shell_word(s: Seq<char>) -> Seq<char> {
    if forall|i: int| 0 <= i < s.len() ==> shell_safe(#[trigger] s[i]) {
        s
    } else {
        seq!['\''] + escape_quotes(s) + seq!['\'']
    }
}

pub fn shell_escape(s: &str) -> (r: String)
    ensures
        r@ == shell_word(s@),
{
    let cs = chars_of(s);
    let mut all_safe = true;
    let mut i: usize = 0;
    while i < cs.len()
        invariant
            i <= cs@.len(),
            cs@ == s@,
            all_safe == forall|j: int| 0 <= j < i ==> shell_safe(#[trigger] s@[j]),
        decreases cs@.len() - i,
    {
        let c = cs[i];
        if !(('0' <= c && c <= '9') || ('a' <= c && c <= 'z') || ('A' <= c && c <= 'Z') || c == '.' || c == '_'
            || c == '-' || c == '/') {
            all_safe = false;
        }
        i = i + 1;
    }
    if all_safe {
        return string_from(s);
    }
    let mut out = String::new();
    push_char(&mut out, '\'');
    let mut k: usize = 0;
    while k < cs.len()
        invariant
            k <= cs@.len(),
            cs@ == s@,
            out@ == seq!['\''] + escape_quotes(s@.take(k as int)),
        decreases cs@.len() - k,
    {
        proof {
            assert(s@.take(k + 1).drop_last() =~= s@.take(k as int));
        }
        if cs[k] == '\'' {
            push_char(&mut out, '\'');
            push_char(&mut out, '\\');
            push_char(&mut out, '\'');
            push_char(&mut out, '\'');
        } else {
            push_char(&mut out, cs[k]);
        }
        proof {
            assert(out@ =~= seq!['\''] + escape_quotes(s@.take(k + 1)));
        }
        k = k + 1;
    }
    push_char(&mut out, '\'');
    proof {
        assert(s@.take(k as int) =~= s@);
    }
    out
}

// ── `upgrade` ───────────────────────────────────────────────────────────

/// What `oneway upgrade` was asked to do.
#[derive(Debug)]
pub enum UpgradeAction {
    /// Print the usage of `upgrade`.
    Help,
    /// Only check whether a newer release exists.
    Check,
    /// Install the given release, or the latest.
    Install(Option<String>),
    /// A flag `upgrade` does not know.
    UnknownFlag(String),
    /// More than one version was given.
    TooManyVersions,
}

pub enum SpecUpgrade {
    Help,
    Check,
    Install(Option<Seq<char>>),
    UnknownFlag(Seq<char>),
    TooManyVersions,
}

impl View for UpgradeAction {
    type V = SpecUpgrade;

    open spec fn view(&self) -> SpecUpgrade {
        match self {
            UpgradeAction::Help => SpecUpgrade::Help,
            UpgradeAction::Check => SpecUpgrade::Check,
            UpgradeAction::Install(v) => SpecUpgrade::Install(
                match v {
                    Some(s) => Some(s@),
                    None => None,
                },
            ),
            UpgradeAction::UnknownFlag(f) => SpecUpgrade::UnknownFlag(f@),
            UpgradeAction::TooManyVersions => SpecUpgrade::TooManyVersions,
        }
    }
}

/// The arguments of `upgrade` read from the first on, with `--check`
/// seen or not and the version read so far: `--check`/`-c` sets the
/// check, `--help`/`-h` asks for the usage at once, another word starting
/// with `-` is an unknown flag, and any other word is the version, of
/// which there may be one. With no arguments left, a check wins over an
/// install.
pub open spec fn upgrade_plan(args: Seq<Seq<char>>, check: bool, version: Option<Seq<char>>) -> SpecUpgrade
    decreases args.len(),
{
    if args.len() == 0 {
        if check {
            SpecUpgrade::Check
        } else {
            SpecUpgrade::Install(version)
        }
    } else {
        let a = args[0];
        if a == "--check"@ || a == "-c"@ {
            upgrade_plan(args.drop_first(), true, version)
        } else if a == "--help"@ || a == "-h"@ {
            SpecUpgrade::Help
        } else if a.len() > 0 && a[0] == '-' {
            SpecUpgrade::UnknownFlag(a)
        } else if version is Some {
            SpecUpgrade::TooManyVersions
        } else {
            upgrade_plan(args.drop_first(), check, Some(a))
        }
    }
}

/// Reads the arguments of `upgrade`.
pub fn parse_upgrade_args(args: &Vec<String>) -> (r: UpgradeAction)
    ensures
        r@ == upgrade_plan(strings_view(args@), false, None),
{
    let ghost all = strings_view(args@);
    let mut check_only = false;
    let mut requested: Option<String> = None;
    let mut i: usize = 0;
    proof {
        assert(all.skip(0) =~= all);
    }
    while i < args.len()
        invariant
            i <= args@.len(),
            all == strings_view(args@),
            upgrade_plan(all, false, None) == upgrade_plan(
                all.skip(i as int),
                check_only,
                match requested {
                    Some(v) => Some(v@),
                    None => None,
                },
            ),
        decreases args@.len() - i,
    {
        let a = args[i].as_str();
        proof {
            assert(all.skip(i as int)[0] == a@);
            assert(all.skip(i as int).drop_first() =~= all.skip(i + 1));
        }
        if str_eq(a, "--check") || str_eq(a, "-c") {
            check_only = true;
        } else if str_eq(a, "--help") || str_eq(a, "-h") {
            return UpgradeAction::Help;
        } else {
            let cs = chars_of(a);
            if cs.len() > 0 && cs[0] == '-' {
                return UpgradeAction::UnknownFlag(string_from(a));
            }
            if requested.is_some() {
                return UpgradeAction::TooManyVersions;
            }
            requested = Some(string_from(a));
        }
        i = i + 1;
    }
    proof {
        assert(all.skip(i as int) =~= Seq::<Seq<char>>::empty());
    }
    if check_only {
        UpgradeAction::Check
    } else {
        UpgradeAction::Install(requested)
    }
}

/// Where the install script is published.
pub open spec fn install_url() -> Seq<char> {
    "https://raw.githubusercontent.com/almaju/oneway/main/install.sh"@
}

/// The shell pipeline that installs a release: the install script fetched
/// with `curl` (or `wget` where `curl` is missing) and piped to `sh`, with
/// the requested version, quoted for the shell, as its argument.
pub open spec fn install_pipeline(use_curl: bool, version: Option<Seq<char>>) -> Seq<char> {
    let fetch = if use_curl { "curl -fsSL "@ + install_url() } else { "wget -qO- "@ + install_url() };
    let sh = match version {
        Some(v) => "sh -s -- "@ + shell_word(v),
        None => "sh"@,
    };
    fetch + " | "@ + sh
}

pub fn upgrade_pipeline(use_curl: bool, version: Option<&str>) -> (r: String)
    ensures
        r@ == install_pipeline(use_curl, match version {
            Some(v) => Some(v@),
            None => None,
        }),
{
    let mut out = if use_curl { string_from("curl -fsSL ") } else { string_from("wget -qO- ") };
    push_str(&mut out, "https://raw.githubusercontent.com/almaju/oneway/main/install.sh");
    push_str(&mut out, " | ");
    match version {
        Some(v) => {
            push_str(&mut out, "sh -s -- ");
            let q = shell_escape(v);
            push_str(&mut out, q.as_str());
        },
        None => {
            push_str(&mut out, "sh");
        },
    }
    out
}

/// What `upgrade --check` reports, given the latest release tag and the
/// running version's tag.
pub open spec fn check_report(latest: Seq<char>, current: Seq<char>) -> Seq<char> {
    if tag_version(latest) == tag_version(current) {
        "oneway is up to date ("@ + current + ")"@
    } else {
        "A new version is available: "@ + latest + " (current: "@ + current + ")\nRun `oneway upgrade` to update."@
    }
}

pub fn upgrade_check_message(latest: &str, current: &str) -> (r: String)
    ensures
        r@ == check_report(latest@, current@),
{
    if is_up_to_date(latest, current) {
        let mut out = string_from("oneway is up to date (");
        push_str(&mut out, current);
        push_str(&mut out, ")");
        out
    } else {
        let mut out = string_from("A new version is available: ");
        push_str(&mut out, latest);
        push_str(&mut out, " (current: ");
        push_str(&mut out, current);
        push_str(&mut out, ")\nRun `oneway upgrade` to update.");
        out
    }
}

// ── finding the latest release ──────────────────────────────────────────

/// The error when no release tag could be found.
pub open spec fn no_releases() -> Seq<char> {
    "no published releases found"@
}

/// The release tag at the end of a URL, if it looks like a version.
pub open spec fn release_tag(url: Seq<char>) -> Result<Seq<char>, Seq<char>> {
    let tag = last_segment(url);
    if is_version_tag(tag) {
        Ok(tag)
    } else {
        Err(no_releases())
    }
}

fn release_tag_of(url: &str) -> (r: Result<String, String>)
    ensures
        match r {
            Ok(t) => release_tag(url@) == Ok::<Seq<char>, Seq<char>>(t@),
            Err(e) => release_tag(url@) == Err::<Seq<char>, Seq<char>>(e@),
        },
{
    let tag = tag_from_url(url);
    if looks_like_version_tag(tag.as_str()) {
        Ok(tag)
    } else {
        Err(string_from("no published releases found"))
    }
}

/// The release tag from what `curl -w %{url_effective}` printed: the
/// trimmed URL's last segment.
pub fn release_tag_from_effective_url(output: &str) -> (r: Result<String, String>)
    ensures
        match r {
            Ok(t) => release_tag(trim(output@)) == Ok::<Seq<char>, Seq<char>>(t@),
            Err(e) => release_tag(trim(output@)) == Err::<Seq<char>, Seq<char>>(e@),
        },
{
    let cs = chars_of(output);
    let (a, b) = trim_chars(&cs, 0, cs.len());
    proof {
        assert(cs@.subrange(0, cs@.len() as int) =~= output@);
    }
    let url = string_from_range(&cs, a, b);
    release_tag_of(url.as_str())
}

/// The end of the first word of `s` (the first whitespace, or the end).
pub open spec fn word_end(s: Seq<char>, i: int) -> int
    decreases s.len() - i,
{
    if 0 <= i < s.len() && !unicode_whitespace(s[i]) {
        word_end(s, i + 1)
    } else {
        i
    }
}

/// The first whitespace-separated word of `s`, or nothing.
pub open spec fn first_word(s: Seq<char>) -> Seq<char> {
    let t = trim_start(s);
    t.take(word_end(t, 0))
}

/// The URL a `Location:` response header line gives: the first word
/// after `Location: ` on the trimmed line.
pub open spec fn location_of_line(l: Seq<char>) -> Option<Seq<char>> {
    let t = trim(l);
    if t.len() >= 10 && t.take(10) == "Location: "@ {
        Some(first_word(t.skip(10)))
    } else {
        None
    }
}

/// The URL of the last `Location:` header among the lines.
pub open spec fn last_location(lines: Seq<Seq<char>>) -> Option<Seq<char>>
    decreases lines.len(),
{
    if lines.len() == 0 {
        None
    } else {
        match location_of_line(lines.last()) {
            Some(u) => Some(u),
            None => last_location(lines.drop_last()),
        }
    }
}

/// The first word of `line[from..to]`.
fn first_word_of(line: &Vec<char>, from: usize, to: usize) -> (r: String)
    requires
        from <= to <= line@.len(),
    ensures
        r@ == first_word(line@.subrange(from as int, to as int)),
{
    let ghost s = line@.subrange(from as int, to as int);
    let mut a = from;
    while a < to && is_whitespace(line[a])
        invariant
            from <= a <= to <= line@.len(),
            s == line@.subrange(from as int, to as int),
            trim_start(s) == trim_start(line@.subrange(a as int, to as int)),
        decreases to - a,
    {
        proof {
            assert(line@.subrange(a as int, to as int).drop_first() =~= line@.subrange(a + 1, to as int));
        }
        a = a + 1;
    }
    let ghost t = line@.subrange(a as int, to as int);
    proof {
        if a < to {
            assert(t[0] == line@[a as int]);
        }
        assert(trim_start(t) == t);
    }
    let mut b = a;
    while b < to && !is_whitespace(line[b])
        invariant
            a <= b <= to <= line@.len(),
            t == line@.subrange(a as int, to as int),
            word_end(t, 0) == word_end(t, b - a),
        decreases to - b,
    {
        proof {
            assert(t[b - a] == line@[b as int]);
        }
        b = b + 1;
    }
    proof {
        if b < to {
            assert(t[b - a] == line@[b as int]);
        }
        assert(t.take(b - a) =~= line@.subrange(a as int, b as int));
    }
    string_from_range(line, a, b)
}

/// The URL of the last `Location:` header in a server response (what
/// `wget --server-response` printed).
pub fn location_header(response: &str) -> (r: Option<String>)
    ensures
        match r {
            Some(u) => last_location(lines_of(response@)) == Some(u@),
            None => last_location(lines_of(response@)) is None,
        },
{
    let cs = chars_of(response);
    let lines = split_lines(&cs);
    let ghost ls = lines@.map_values(|l: Vec<char>| l@);
    let mut i = lines.len();
    proof {
        assert(ls.take(i as int) =~= ls);
    }
    while i > 0
        invariant
            i <= lines@.len(),
            ls == lines@.map_values(|l: Vec<char>| l@),
            ls == lines_of(response@),
            last_location(ls) == last_location(ls.take(i as int)),
        decreases i,
    {
        proof {
            assert(ls.take(i as int).drop_last() =~= ls.take(i - 1));
            reveal_strlit("Location: ");
        }
        i = i - 1;
        let line = &lines[i];
        let (a, b) = trim_chars(line, 0, line.len());
        let ghost t = trim(line@);
        proof {
            assert(line@.subrange(0, line@.len() as int) =~= line@);
            assert(ls.take(i + 1).last() == line@);
            assert(t == line@.subrange(a as int, b as int));
        }
        if b - a >= 10 && line[a] == 'L' && line[a + 1] == 'o' && line[a + 2] == 'c' && line[a + 3] == 'a'
            && line[a + 4] == 't' && line[a + 5] == 'i' && line[a + 6] == 'o' && line[a + 7] == 'n' && line[a + 8] == ':'
            && line[a + 9] == ' ' {
            proof {
                assert(t.take(10) =~= "Location: "@);
                assert(t.skip(10) =~= line@.subrange(a + 10, b as int));
            }
            return Some(first_word_of(line, a + 10, b));
        }
        proof {
            if t.len() >= 10 && t.take(10) == "Location: "@ {
                assert(t.take(10)[0] == line@[a as int]);
                assert(t.take(10)[1] == line@[a + 1]);
                assert(t.take(10)[2] == line@[a + 2]);
                assert(t.take(10)[3] == line@[a + 3]);
                assert(t.take(10)[4] == line@[a + 4]);
                assert(t.take(10)[5] == line@[a + 5]);
                assert(t.take(10)[6] == line@[a + 6]);
                assert(t.take(10)[7] == line@[a + 7]);
                assert(t.take(10)[8] == line@[a + 8]);
                assert(t.take(10)[9] == line@[a + 9]);
            }
        }
    }
    None
}

/// The release tag from a server response: the last segment of the last
/// `Location:` URL, if it looks like a version.
pub fn release_tag_from_response(response: &str) -> (r: Result<String, String>)
    ensures
        match r {
            Ok(t) => match last_location(lines_of(response@)) {
                Some(u) => release_tag(u) == Ok::<Seq<char>, Seq<char>>(t@),
                None => false,
            },
            Err(e) => e@ == no_releases() && match last_location(lines_of(response@)) {
                Some(u) => release_tag(u) is Err,
                None => true,
            },
        },
{
    match location_header(response) {
        Some(url) => release_tag_of(url.as_str()),
        None => Err(string_from("no published releases found")),
    }
}

// ── the generated crate's manifest ──────────────────────────────────────

/// Each feature in double quotes, separated by `, `.
pub open spec fn quoted_list(fs: Seq<Seq<char>>) -> Seq<char>
    decreases fs.len(),
{
    if fs.len() == 0 {
        Seq::empty()
    } else if fs.len() == 1 {
        "\""@ + fs[0] + "\""@
    } else {
        quoted_list(fs.drop_last()) + ", "@ + "\""@ + fs.last() + "\""@
    }
}

/// The manifest line of a dependency.
pub open spec fn dep_line(name: Seq<char>, version: Seq<char>, features: Seq<Seq<char>>) -> Seq<char> {
    name + " = { version = \""@ + version + "\""@ + (if features.len() == 0 {
        Seq::empty()
    } else {
        ", features = ["@ + quoted_list(features) + "]"@
    }) + " }\n"@
}

/// Whether a dependency of that name comes among the first `n`.
pub open spec fn named_before(deps: Seq<SpecDep>, n: int, name: Seq<char>) -> bool {
    exists|j: int| 0 <= j < n && (#[trigger] deps[j]).name == name
}

/// The dependency lines, each crate once (its first entry).
pub open spec fn dep_lines(deps: Seq<SpecDep>, n: int) -> Seq<char>
    decreases n,
{
    if n <= 0 {
        Seq::empty()
    } else if named_before(deps, n - 1, deps[n - 1].name) {
        dep_lines(deps, n - 1)
    } else {
        dep_lines(deps, n - 1) + dep_line(deps[n - 1].name, deps[n - 1].version, deps[n - 1].features)
    }
}

/// Whether `pat` occurs in `s`.
pub open spec fn occurs_in(s: Seq<char>, pat: Seq<char>) -> bool {
    exists|i: int| 0 <= i <= s.len() - pat.len() && #[trigger] s.subrange(i, i + pat.len()) == pat
}

/// The `Cargo.toml` of the crate built for a program: its package, named
/// after the output file, then each dependency once, then `tokio` with all
/// its features where the source uses `#[tokio::main]` and no dependency
/// named it.
pub open spec fn cargo_manifest(project: Seq<char>, deps: Seq<SpecDep>, source: Seq<char>) -> Seq<char> {
    "[package]\nname = \""@ + crate_name_of(project) + "\"\nedition = \"2021\"\nversion = \"0.0.0\"\n\n[dependencies]\n"@
        + dep_lines(deps, deps.len() as int) + if !named_before(deps, deps.len() as int, "tokio"@) && occurs_in(
        source,
        "#[tokio::main]"@,
    ) {
        dep_line("tokio"@, "1"@, seq!["full"@])
    } else {
        Seq::empty()
    }
}

fn push_dep_line(out: &mut String, name: &str, version: &str, features: &Vec<String>)
    ensures
        final(out)@ == old(out)@ + dep_line(name@, version@, strings_view(features@)),
{
    push_str(out, name);
    push_str(out, " = { version = \"");
    push_str(out, version);
    push_str(out, "\"");
    if features.len() != 0 {
        push_str(out, ", features = [");
        let ghost prefix = out@;
        let ghost fs = strings_view(features@);
        let mut i: usize = 0;
        while i < features.len()
            invariant
                i <= features@.len(),
                fs == strings_view(features@),
                out@ == prefix + quoted_list(fs.take(i as int)),
            decreases features@.len() - i,
        {
            proof {
                assert(fs.take(i + 1).drop_last() =~= fs.take(i as int));
                assert(fs.take(i + 1).last() == features@[i as int]@);
            }
            if i > 0 {
                push_str(out, ", ");
            }
            push_str(out, "\"");
            push_str(out, features[i].as_str());
            push_str(out, "\"");
            i = i + 1;
        }
        proof {
            assert(fs.take(i as int) =~= fs);
        }
        push_str(out, "]");
    }
    push_str(out, " }\n");
}

/// Whether `pat` occurs in `s`.
pub fn contains_text(s: &str, pat: &str) -> (r: bool)
    ensures
        r == occurs_in(s@, pat@),
{
    let cs = chars_of(s);
    let ps = chars_of(pat);
    let n = cs.len();
    if ps.len() > n {
        return false;
    }
    let mut i: usize = 0;
    while i <= n - ps.len()
        invariant
            n == cs@.len(),
            cs@ == s@,
            ps@ == pat@,
            ps@.len() <= cs@.len(),
            i <= cs@.len() - ps@.len() + 1,
            forall|k: int| 0 <= k < i ==> #[trigger] s@.subrange(k, k + pat@.len()) != pat@,
        decreases cs@.len() - ps@.len() + 1 - i,
    {
        let mut j: usize = 0;
        while j < ps.len() && cs[i + j] == ps[j]
            invariant
                j <= ps@.len(),
                n == cs@.len(),
                i + ps@.len() <= n,
                cs@ == s@,
                ps@ == pat@,
                forall|m: int| 0 <= m < j ==> cs@[i + m] == ps@[m],
            decreases ps@.len() - j,
        {
            j = j + 1;
        }
        if j == ps.len() {
            assert(s@.subrange(i as int, i + pat@.len()) =~= pat@);
            return true;
        }
        assert(s@.subrange(i as int, i + pat@.len())[j as int] != pat@[j as int]);
        i = i + 1;
    }
    false
}

/// The `Cargo.toml` for the crate of a program with Rust dependencies.
pub fn cargo_toml(project_name: &str, deps: &Vec<CargoDep>, source: &str) -> (r: String)
    ensures
        r@ == cargo_manifest(project_name@, deps_view(deps@), source@),
{
    let ghost ds = deps_view(deps@);
    let mut out = string_from("[package]\nname = \"");
    let crate_name = sanitize_crate_name(project_name);
    push_str(&mut out, crate_name.as_str());
    push_str(&mut out, "\"\nedition = \"2021\"\nversion = \"0.0.0\"\n\n[dependencies]\n");
    proof {
        reveal_strlit("\"\nedition = \"2021\"\nversion = \"0.0.0\"\n\n[dependencies]\n");
        reveal_strlit("[package]\nname = \"");
        reveal_strlit("[package]\nname = \"");
    }
    let ghost prefix = out@;
    let mut i: usize = 0;
    while i < deps.len()
        invariant
            i <= deps@.len(),
            ds == deps_view(deps@),
            out@ == prefix + dep_lines(ds, i as int),
        decreases deps@.len() - i,
    {
        let mut seen = false;
        let mut j: usize = 0;
        while j < i
            invariant
                j <= i < deps@.len(),
                ds == deps_view(deps@),
                seen == named_before(ds, j as int, ds[i as int].name),
            decreases i - j,
        {
            if str_eq(deps[j].name.as_str(), deps[i].name.as_str()) {
                seen = true;
            }
            proof {
                if !seen {
                    assert(!named_before(ds, j + 1, ds[i as int].name));
                } else {
                    if !named_before(ds, j as int, ds[i as int].name) {
                        assert(ds[j as int].name == ds[i as int].name);
                    }
                    assert(named_before(ds, j + 1, ds[i as int].name));
                }
            }
            j = j + 1;
        }
        if !seen {
            let d = &deps[i];
            push_dep_line(&mut out, d.name.as_str(), d.version.as_str(), &d.features);
        }
        i = i + 1;
    }
    let mut tokio_named = false;
    let mut k: usize = 0;
    proof {
        reveal_strlit("tokio");
    }
    while k < deps.len()
        invariant
            k <= deps@.len(),
            ds == deps_view(deps@),
            tokio_named == named_before(ds, k as int, "tokio"@),
        decreases deps@.len() - k,
    {
        if str_eq(deps[k].name.as_str(), "tokio") {
            tokio_named = true;
        }
        proof {
            if tokio_named && !named_before(ds, k as int, "tokio"@) {
                assert(ds[k as int].name == "tokio"@);
            }
        }
        k = k + 1;
    }
    if !tokio_named && contains_text(source, "#[tokio::main]") {
        let full = vec![string_from("full")];
        proof {
            assert(strings_view(full@) =~= seq!["full"@]);
        }
        push_dep_line(&mut out, "tokio", "1", &full);
    }
    out
}

// ── reporting errors ────────────────────────────────────────────────────

/// How an error is reported for a file: `error[file:line:column]: message`.
pub open spec fn error_report(file: Seq<char>, e: crate::error::SpecError) -> Seq<char> {
    "error["@ + file + ":"@ + crate::text::decimal(e.span.line as nat) + ":"@ + crate::text::decimal(e.span.column as nat)
        + "]: "@ + e.message
}

pub fn format_error(file_path: &str, err: &crate::error::OnewayError) -> (r: String)
    ensures
        r@ == error_report(file_path@, err@),
{
    let span = err.span();
    let mut out = string_from("error[");
    push_str(&mut out, file_path);
    push_str(&mut out, ":");
    crate::text::push_decimal(&mut out, span.line as u64);
    push_str(&mut out, ":");
    crate::text::push_decimal(&mut out, span.column as u64);
    push_str(&mut out, "]: ");
    push_str(&mut out, err.message());
    out
}

/// A crate name made from any file name is a valid identifier: it is not
/// empty, each of its characters is `_` or alphanumeric, and it does not
/// start with a digit.
pub proof fn lemma_crate_name_valid(name: Seq<char>)
    ensures
        crate_name_of(name).len() > 0,
        forall|i: int| 0 <= i < crate_name_of(name).len() ==> {
            let c = #[trigger] crate_name_of(name)[i];
            c == '_' || alphanumeric(c)
        },
        !('0' <= crate_name_of(name)[0] && crate_name_of(name)[0] <= '9'),
{
    let s = underscored(name);
    let r = crate_name_of(name);
    reveal_strlit("oneway_build");
    if s.len() > 0 && '0' <= s[0] && s[0] <= '9' {
        assert forall|i: int| 0 <= i < r.len() implies {
            let c = #[trigger] r[i];
            c == '_' || alphanumeric(c)
        } by {
            if i > 0 {
                assert(r[i] == s[i - 1]);
            }
        }
    }
}

/// Making a crate name of a crate name changes nothing: `sanitize_crate_name`
/// is idempotent.
pub proof fn lemma_crate_name_idempotent(name: Seq<char>)
    ensures
        crate_name_of(crate_name_of(name)) == crate_name_of(name),
{
    let r = crate_name_of(name);
    lemma_crate_name_valid(name);
    assert(underscored(r) =~= r) by {
        assert forall|i: int| 0 <= i < r.len() implies #[trigger] underscored(r)[i] == r[i] by {
            let c = r[i];
            assert(c == '_' || alphanumeric(c));
        }
    }
}

} // verus!
