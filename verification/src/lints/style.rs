//! Style lints: no glob imports, one public type per file, inline format
//! arguments, no turbofish.

use vstd::prelude::*;
use crate::lints::{LintInfo, Level};

verus! {

/// **Deny** — no wildcard imports. Every imported symbol must be named explicitly.
pub struct NoGlobImports;

impl NoGlobImports {
    pub fn info(&self) -> (i: LintInfo)
        ensures
            i.name@ == "NO_GLOB_IMPORTS"@,
            i.level == Level::Deny,
            i.description@ == "no wildcard imports — name every imported symbol"@,
    {
        LintInfo::new("NO_GLOB_IMPORTS", Level::Deny, "no wildcard imports — name every imported symbol")
    }
}

/// **Warn** — each file exports at most one primary public type.
pub struct OnePublicTypePerFile;

impl OnePublicTypePerFile {
    pub fn info(&self) -> (i: LintInfo)
        ensures
            i.name@ == "ONE_PUBLIC_TYPE_PER_FILE"@,
            i.level == Level::Warn,
            i.description@ == "one primary pub type per file"@,
    {
        LintInfo::new("ONE_PUBLIC_TYPE_PER_FILE", Level::Warn, "one primary pub type per file")
    }
}

/// **Deny** — name format arguments inline in the format string.
pub struct InlineFormatArgs;

impl InlineFormatArgs {
    pub fn info(&self) -> (i: LintInfo)
        ensures
            i.name@ == "INLINE_FORMAT_ARGS"@,
            i.level == Level::Deny,
            i.description@ == "format!(\"{x}\") not format!(\"{}\", x)"@,
    {
        LintInfo::new("INLINE_FORMAT_ARGS", Level::Deny, "format!(\"{x}\") not format!(\"{}\", x)")
    }
}

/// **Deny** — annotate the binding's type instead of using `::<>` at the call.
pub struct NoTurbofish;

impl NoTurbofish {
    pub fn info(&self) -> (i: LintInfo)
        ensures
            i.name@ == "NO_TURBOFISH"@,
            i.level == Level::Deny,
            i.description@ == "annotate the binding, not the call site"@,
    {
        LintInfo::new("NO_TURBOFISH", Level::Deny, "annotate the binding, not the call site")
    }
}

} // verus!
