//! Control-flow lints: no loops, `match` over `if`/`else`, iterator chains,
//! combinators, `match` as the result, and no
//! `return` where the last expression serves.

use vstd::prelude::*;
use crate::lints::{LintInfo, Level};

verus! {

/// **Deny** — don't use `loop`, `while`, or `for`. Use iterators instead.
pub struct NoLoop;

impl NoLoop {
    pub fn info(&self) -> (i: LintInfo)
        ensures
            i.name@ == "NO_LOOP"@,
            i.level == Level::Deny,
            i.description@ == "don't use loop/while/for — use iterators"@,
    {
        LintInfo::new("NO_LOOP", Level::Deny, "don't use loop/while/for — use iterators")
    }
}

/// **Warn** — prefer `match` over `if`/`else` chains.
pub struct NoIfElse;

impl NoIfElse {
    pub fn info(&self) -> (i: LintInfo)
        ensures
            i.name@ == "NO_IF_ELSE"@,
            i.level == Level::Warn,
            i.description@ == "prefer match over if/else chains"@,
    {
        LintInfo::new("NO_IF_ELSE", Level::Warn, "prefer match over if/else chains")
    }
}

/// **Warn** — don't use `return` where the block's last expression serves
/// the same purpose: the last expression is the return value.
pub struct NoExplicitReturn;

impl NoExplicitReturn {
    pub fn info(&self) -> (i: LintInfo)
        ensures
            i.name@ == "NO_EXPLICIT_RETURN"@,
            i.level == Level::Warn,
            i.description@ == "last expression is the return value"@,
    {
        LintInfo::new("NO_EXPLICIT_RETURN", Level::Warn, "last expression is the return value")
    }
}

/// **Warn** — build results with iterator chains, not manual loops.
pub struct PreferFunctionalIteration;

impl PreferFunctionalIteration {
    pub fn info(&self) -> (i: LintInfo)
        ensures
            i.name@ == "PREFER_FUNCTIONAL_ITERATION"@,
            i.level == Level::Warn,
            i.description@ == "use .iter().map().filter() over manual loops"@,
    {
        LintInfo::new("PREFER_FUNCTIONAL_ITERATION", Level::Warn, "use .iter().map().filter() over manual loops")
    }
}

/// **Warn** — let a `match` be the function's result instead of returning from its arms.
pub struct NoEarlyReturnInMatch;

impl NoEarlyReturnInMatch {
    pub fn info(&self) -> (i: LintInfo)
        ensures
            i.name@ == "NO_EARLY_RETURN_IN_MATCH"@,
            i.level == Level::Warn,
            i.description@ == "let match be the return expression"@,
    {
        LintInfo::new("NO_EARLY_RETURN_IN_MATCH", Level::Warn, "let match be the return expression")
    }
}

/// **Warn** — use `Option`/`Result` combinators instead of matching on them.
pub struct PreferCombinators;

impl PreferCombinators {
    pub fn info(&self) -> (i: LintInfo)
        ensures
            i.name@ == "PREFER_COMBINATORS"@,
            i.level == Level::Warn,
            i.description@ == ".map() / .unwrap_or() over match on Option/Result"@,
    {
        LintInfo::new("PREFER_COMBINATORS", Level::Warn, ".map() / .unwrap_or() over match on Option/Result")
    }
}

} // verus!
