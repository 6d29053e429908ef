//! Newtype discipline: struct fields and function parameters use newtypes,
//! not raw primitives.

use vstd::prelude::*;
use crate::lexer::token::str_eq;
use crate::lints::order::names_view;
use crate::lints::{LintInfo, Level};

verus! {

/// A raw primitive type: an integer, a float, `bool`, `char`, `str` or
/// `String`.
pub open spec fn raw_primitive(t: Seq<char>) -> bool {
    ||| t == "i8"@ || t == "i16"@ || t == "i32"@ || t == "i64"@ || t == "i128"@ || t == "isize"@
    ||| t == "u8"@ || t == "u16"@ || t == "u32"@ || t == "u64"@ || t == "u128"@ || t == "usize"@
    ||| t == "f32"@ || t == "f64"@
    ||| t == "bool"@ || t == "char"@ || t == "str"@ || t == "String"@
}

/// Whether a type name is a raw primitive.
pub fn is_raw_primitive(t: &str) -> (r: bool)
    ensures
        r == raw_primitive(t@),
{
    str_eq(t, "i8") || str_eq(t, "i16") || str_eq(t, "i32") || str_eq(t, "i64") || str_eq(t, "i128")
        || str_eq(t, "isize") || str_eq(t, "u8") || str_eq(t, "u16") || str_eq(t, "u32") || str_eq(t, "u64")
        || str_eq(t, "u128") || str_eq(t, "usize") || str_eq(t, "f32") || str_eq(t, "f64") || str_eq(t, "bool")
        || str_eq(t, "char") || str_eq(t, "str") || str_eq(t, "String")
}

/// The positions, in order, of the raw primitives among the type names.
pub open spec fn raw_positions(ts: Seq<Seq<char>>) -> Seq<int>
    decreases ts.len(),
{
    if ts.len() == 0 {
        Seq::empty()
    } else {
        raw_positions(ts.drop_last()) + if raw_primitive(ts.last()) {
            seq![ts.len() - 1]
        } else {
            Seq::<int>::empty()
        }
    }
}

/// The positions of a list of findings as integers.
pub open spec fn positions_view(v: Seq<usize>) -> Seq<int> {
    v.map_values(|i: usize| i as int)
}

/// The positions, in order, of the type names that are raw primitives.
pub fn raw_primitive_positions(types: &Vec<String>) -> (r: Vec<usize>)
    ensures
        positions_view(r@) == raw_positions(names_view(types@)),
{
    let ghost ts = names_view(types@);
    let mut out: Vec<usize> = Vec::new();
    let mut i: usize = 0;
    while i < types.len()
        invariant
            i <= types@.len(),
            ts == names_view(types@),
            positions_view(out@) == raw_positions(ts.take(i as int)),
        decreases types@.len() - i,
    {
        proof {
            assert(ts.take(i + 1).drop_last() =~= ts.take(i as int));
            assert(ts.take(i + 1).last() == types@[i as int]@);
        }
        let ghost before = out@;
        if is_raw_primitive(types[i].as_str()) {
            out.push(i);
            proof {
                assert(positions_view(out@) =~= positions_view(before) + seq![i as int]);
            }
        } else {
            proof {
                assert(positions_view(out@) =~= positions_view(before) + Seq::<int>::empty());
            }
        }
        i = i + 1;
    }
    proof {
        assert(ts.take(i as int) =~= ts);
    }
    out
}

/// **Warn** — struct fields should use newtypes instead of raw primitives.
pub struct RawPrimitiveField;

impl RawPrimitiveField {
    pub fn info(&self) -> (i: LintInfo)
        ensures
            i.name@ == "RAW_PRIMITIVE_FIELD"@,
            i.level == Level::Warn,
            i.description@ == "use newtypes for struct fields"@,
    {
        LintInfo::new("RAW_PRIMITIVE_FIELD", Level::Warn, "use newtypes for struct fields")
    }

    /// The fields of a struct, by the names of their types, that hold a raw
    /// primitive.
    pub fn check_item(&self, field_types: &Vec<String>) -> (r: Vec<usize>)
        ensures
            positions_view(r@) == raw_positions(names_view(field_types@)),
    {
        raw_primitive_positions(field_types)
    }
}

/// **Warn** — function parameters should use newtypes instead of raw
/// primitives.
pub struct RawPrimitiveParam;

impl RawPrimitiveParam {
    pub fn info(&self) -> (i: LintInfo)
        ensures
            i.name@ == "RAW_PRIMITIVE_PARAM"@,
            i.level == Level::Warn,
            i.description@ == "use newtypes for function params"@,
    {
        LintInfo::new("RAW_PRIMITIVE_PARAM", Level::Warn, "use newtypes for function params")
    }

    /// The parameters of a function, by the names of their types, that take
    /// a raw primitive.
    pub fn check_fn(&self, param_types: &Vec<String>) -> (r: Vec<usize>)
        ensures
            positions_view(r@) == raw_positions(names_view(param_types@)),
    {
        raw_primitive_positions(param_types)
    }
}

} // verus!
