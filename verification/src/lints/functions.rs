//! Function lints: few parameters, no nested functions, constructors named
//! `new`, no builders.

use vstd::prelude::*;
use crate::lints::{LintInfo, Level};

verus! {

/// **Deny** — functions must have at most 2 parameters (self + one input).
pub struct TooManyParams;

impl TooManyParams {
    pub fn info(&self) -> (i: LintInfo)
        ensures
            i.name@ == "TOO_MANY_PARAMS"@,
            i.level == Level::Deny,
            i.description@ == "functions must have at most 2 parameters"@,
    {
        LintInfo::new("TOO_MANY_PARAMS", Level::Deny, "functions must have at most 2 parameters")
    }
}

/// **Warn** — don't define functions inside other functions.
pub struct NoNestedFunctions;

impl NoNestedFunctions {
    pub fn info(&self) -> (i: LintInfo)
        ensures
            i.name@ == "NO_NESTED_FUNCTIONS"@,
            i.level == Level::Warn,
            i.description@ == "don't define functions inside other functions"@,
    {
        LintInfo::new("NO_NESTED_FUNCTIONS", Level::Warn, "don't define functions inside other functions")
    }
}

/// **Deny** — constructors must be named `new`.
pub struct OneConstructorName;

impl OneConstructorName {
    pub fn info(&self) -> (i: LintInfo)
        ensures
            i.name@ == "ONE_CONSTRUCTOR_NAME"@,
            i.level == Level::Deny,
            i.description@ == "constructors must be named `new`"@,
    {
        LintInfo::new("ONE_CONSTRUCTOR_NAME", Level::Deny, "constructors must be named `new`")
    }
}

/// **Warn** — construct values with struct literals, not builders.
pub struct NoBuilderPattern;

impl NoBuilderPattern {
    pub fn info(&self) -> (i: LintInfo)
        ensures
            i.name@ == "NO_BUILDER_PATTERN"@,
            i.level == Level::Warn,
            i.description@ == "use struct literals, not builders"@,
    {
        LintInfo::new("NO_BUILDER_PATTERN", Level::Warn, "use struct literals, not builders")
    }
}

} // verus!
