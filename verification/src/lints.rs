//! The Oneway rules for ordinary Rust code: each lint's description, and
//! the ordering checks that decide what the sorting lints report.

use vstd::prelude::*;
use crate::text::string_from;

pub mod control_flow;
pub mod functions;
pub mod naming;
pub mod newtypes;
pub mod order;
pub mod safety;
pub mod sorting;
pub mod style;

verus! {

/// How a lint's findings are treated.
#[derive(Debug, Clone, Copy, PartialEq, Eq, Structural)]
pub enum Level {
    Deny,
    Warn,
}

/// A lint's name, default level and one-line description.
#[derive(Debug)]
pub struct LintInfo {
    pub name: String,
    pub level: Level,
    pub description: String,
}

impl LintInfo {
    pub fn new(name: &str, level: Level, description: &str) -> (i: Self)
        ensures
            i.name@ == name@,
            i.level == level,
            i.description@ == description@,
    {
        LintInfo { name: string_from(name), level, description: string_from(description) }
    }
}


/// The abstract name and level of each lint of a list.
pub open spec fn lint_entries(v: Seq<LintInfo>) -> Seq<(Seq<char>, Level)> {
    v.map_values(|i: LintInfo| (i.name@, i.level))
}

/// The documented lint suite, in the order of its summary: sorting,
/// functions, newtypes, safety, control flow, naming, modules and style.
pub open spec fn documented_lints() -> Seq<(Seq<char>, Level)> {
    seq![
        ("UNSORTED_STRUCT_FIELDS"@, Level::Deny),
        ("UNSORTED_ENUM_VARIANTS"@, Level::Deny),
        ("UNSORTED_MATCH_ARMS"@, Level::Deny),
        ("UNSORTED_IMPORTS"@, Level::Deny),
        ("UNSORTED_IMPL_METHODS"@, Level::Deny),
        ("TOO_MANY_PARAMS"@, Level::Deny),
        ("NO_NESTED_FUNCTIONS"@, Level::Warn),
        ("RAW_PRIMITIVE_FIELD"@, Level::Warn),
        ("RAW_PRIMITIVE_PARAM"@, Level::Warn),
        ("NO_UNWRAP"@, Level::Deny),
        ("NO_PANIC"@, Level::Deny),
        ("NO_LOOP"@, Level::Deny),
        ("NO_IF_ELSE"@, Level::Warn),
        ("PREFER_FUNCTIONAL_ITERATION"@, Level::Warn),
        ("NO_EXPLICIT_RETURN"@, Level::Warn),
        ("NO_EARLY_RETURN_IN_MATCH"@, Level::Warn),
        ("NO_BUILDER_PATTERN"@, Level::Warn),
        ("TYPE_DERIVED_NAMING"@, Level::Deny),
        ("INCONSISTENT_NAMING"@, Level::Warn),
        ("ONE_PUBLIC_TYPE_PER_FILE"@, Level::Warn),
        ("NO_GLOB_IMPORTS"@, Level::Deny),
        ("UNSORTED_DERIVES"@, Level::Deny),
        ("INLINE_FORMAT_ARGS"@, Level::Deny),
        ("NO_TURBOFISH"@, Level::Deny),
        ("PREFER_COMBINATORS"@, Level::Warn),
        ("ONE_CONSTRUCTOR_NAME"@, Level::Deny),
    ]
}

/// The lints of the suite, in the documented order.
pub fn register_lints() -> (r: Vec<LintInfo>)
    ensures
        lint_entries(r@) == documented_lints(),
{
    let mut v: Vec<LintInfo> = Vec::new();
    v.push(sorting::UnsortedStructFields.info());
    v.push(sorting::UnsortedEnumVariants.info());
    v.push(sorting::UnsortedMatchArms.info());
    v.push(sorting::UnsortedImports.info());
    v.push(sorting::UnsortedImplMethods.info());
    v.push(functions::TooManyParams.info());
    v.push(functions::NoNestedFunctions.info());
    v.push(newtypes::RawPrimitiveField.info());
    v.push(newtypes::RawPrimitiveParam.info());
    v.push(safety::NoUnwrap.info());
    v.push(safety::NoPanic.info());
    v.push(control_flow::NoLoop.info());
    v.push(control_flow::NoIfElse.info());
    v.push(control_flow::PreferFunctionalIteration.info());
    v.push(control_flow::NoExplicitReturn.info());
    v.push(control_flow::NoEarlyReturnInMatch.info());
    v.push(functions::NoBuilderPattern.info());
    v.push(naming::TypeDerivedNaming.info());
    v.push(naming::InconsistentNaming.info());
    v.push(style::OnePublicTypePerFile.info());
    v.push(style::NoGlobImports.info());
    v.push(sorting::UnsortedDerives.info());
    v.push(style::InlineFormatArgs.info());
    v.push(style::NoTurbofish.info());
    v.push(control_flow::PreferCombinators.info());
    v.push(functions::OneConstructorName.info());
    assert(lint_entries(v@) =~= documented_lints());
    v
}

} // verus!
