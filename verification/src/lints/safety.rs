//! Safety lints: no `unwrap`/`expect`, no panicking macros.

use vstd::prelude::*;
use crate::lints::{LintInfo, Level};

verus! {

/// **Deny** — never use `.unwrap()` or `.expect()` in non-test code.
pub struct NoUnwrap;

impl NoUnwrap {
    pub fn info(&self) -> (i: LintInfo)
        ensures
            i.name@ == "NO_UNWRAP"@,
            i.level == Level::Deny,
            i.description@ == "never use .unwrap() or .expect() in non-test code"@,
    {
        LintInfo::new("NO_UNWRAP", Level::Deny, "never use .unwrap() or .expect() in non-test code")
    }
}

/// **Deny** — never use `panic!` / `todo!` / `unimplemented!` / `unreachable!` in non-test code.
pub struct NoPanic;

impl NoPanic {
    pub fn info(&self) -> (i: LintInfo)
        ensures
            i.name@ == "NO_PANIC"@,
            i.level == Level::Deny,
            i.description@ == "never use panic!/todo!/unimplemented!/unreachable! in non-test code"@,
    {
        LintInfo::new("NO_PANIC", Level::Deny, "never use panic!/todo!/unimplemented!/unreachable! in non-test code")
    }
}

} // verus!
