use oneway::lints::order::{first_unsorted, str_lt};
use oneway::lints::naming::{is_named_after, InconsistentNaming, TypeDerivedNaming};
use oneway::lints::newtypes::{is_raw_primitive, RawPrimitiveField, RawPrimitiveParam};
use oneway::lints::{register_lints, Level};
use oneway::lints::sorting::{
    check_consecutive_uses, derive_names_checked, derive_snippet_readable, extract_derive_names, use_tree_sort_key, MatchArmKey, UnsortedDerives, UnsortedEnumVariants,
    UnsortedImplMethods, UnsortedImports, UnsortedMatchArms, UnsortedStructFields, UseTree,
};

fn strings(v: &[&str]) -> Vec<String> {
    v.iter().map(|s| s.to_string()).collect()
}

fn tree(path: &[&str]) -> UseTree {
    UseTree { prefix: strings(path), nested: None }
}

#[test]
fn registers_every_lint() {
    let names: Vec<String> = register_lints().into_iter().map(|l| l.name).collect();
    assert_eq!(names.len(), 26);
    assert_eq!(names[0], "UNSORTED_STRUCT_FIELDS");
    assert_eq!(names[7], "RAW_PRIMITIVE_FIELD");
    assert_eq!(names[14], "NO_EXPLICIT_RETURN");
    assert_eq!(names[21], "UNSORTED_DERIVES");
    assert_eq!(names[25], "ONE_CONSTRUCTOR_NAME");
}

#[test]
fn orders_names() {
    assert!(str_lt("alpha", "beta"));
    assert!(!str_lt("beta", "alpha"));
    assert!(str_lt("ab", "abc"));
    assert_eq!(first_unsorted(&strings(&["a", "c", "b"])), Some((2, "c".to_string(), "b".to_string())));
    assert_eq!(first_unsorted(&strings(&["a", "b"])), None);
}

#[test]
fn reports_unsorted_fields_and_variants() {
    let fields = vec![Some("name".to_string()), Some("age".to_string())];
    let r = UnsortedStructFields.check_item(&fields).unwrap();
    assert_eq!(r.index, 1);
    assert_eq!(r.message, "struct field `age` should come before `name` (alphabetical order required)");
    assert!(UnsortedStructFields.check_item(&vec![Some("b".to_string()), None]).is_none());
    let r = UnsortedEnumVariants.check_item(&strings(&["Red", "Blue"])).unwrap();
    assert_eq!(r.message, "enum variant `Blue` should come before `Red` (alphabetical order required)");
}

#[test]
fn reports_match_arm_order() {
    let arm = |s: &str, w: bool| MatchArmKey { snippet: s.to_string(), is_wild: w };
    let r = UnsortedMatchArms.check_expr(&vec![arm("_", true), arm("Some(x)", false)]).unwrap();
    assert_eq!(r.index, 1);
    assert_eq!(r.message, "match arm `Some(x)` appears after wildcard `_`; wildcard must be last");
    assert!(UnsortedMatchArms.check_expr(&vec![arm("None", false), arm("Some(x)", false), arm("_", true)]).is_none());
}

#[test]
fn reports_unsorted_imports() {
    assert_eq!(use_tree_sort_key(&tree(&["std", "io"])), "std::io");
    let items = vec![Some(tree(&["std", "io"])), Some(tree(&["std", "fmt"])), None, Some(tree(&["a"]))];
    let reports = check_consecutive_uses(&items);
    assert_eq!(reports.len(), 1);
    assert_eq!(reports[0].index, 1);
    assert_eq!(reports[0].message, "import `std::fmt` should come before `std::io` (alphabetical order required)");
    let group = UseTree { prefix: strings(&["std"]), nested: Some(vec![tree(&["io"]), tree(&["fmt"])]) };
    let inner = UnsortedImports.check_use_item(&group);
    assert_eq!(inner.len(), 1);
    assert_eq!(inner[0].path, vec![1]);
}

#[test]
fn reports_unsorted_methods_and_derives() {
    let r = UnsortedImplMethods.check_item(&vec![Some("new".to_string()), None, Some("build".to_string())]).unwrap();
    assert_eq!(r.index, 2);
    assert_eq!(extract_derive_names("#[derive( Debug , Clone )]"), strings(&["Debug", "Clone"]));
    let reports = UnsortedDerives.check_item(&vec![Some("#[derive(Debug, Clone)]".to_string())]);
    assert_eq!(reports.len(), 1);
    assert_eq!(reports[0].message, "derive trait `Clone` should come before `Debug` (alphabetical order required)");
}

#[test]
fn checks_derive_snippets_before_reading_them() {
    assert!(derive_snippet_readable("#[derive(Debug)]"));
    assert!(!derive_snippet_readable("#[derive)Debug(]"));
    assert_eq!(derive_names_checked("#[derive)Debug(]"), None);
    assert_eq!(
        derive_names_checked("\u{3000}#[derive(\u{a0}Debug ,\tClone\u{2003})]\n"),
        Some(strings(&["Debug", "Clone"]))
    );
}

#[test]
fn flags_raw_primitive_fields_and_params() {
    assert!(is_raw_primitive("f64"));
    assert!(is_raw_primitive("String"));
    assert!(!is_raw_primitive("Price"));
    assert_eq!(RawPrimitiveField.check_item(&strings(&["f64", "Quantity", "u64"])), vec![0, 2]);
    assert_eq!(RawPrimitiveParam.check_fn(&strings(&["AccountId", "AccountId", "Amount"])), Vec::<usize>::new());
    assert_eq!(RawPrimitiveParam.info().level, Level::Warn);
}

#[test]
fn flags_names_not_derived_from_types() {
    assert!(is_named_after("user_id", "UserId"));
    assert!(is_named_after("sender_account_id", "AccountId"));
    assert!(!is_named_after("id", "UserId"));
    assert!(!is_named_after("xaccount_id", "AccountId"));
    let pairs = |v: &[(&str, &str)]| v.iter().map(|(a, b)| (a.to_string(), b.to_string())).collect::<Vec<_>>();
    assert_eq!(
        TypeDerivedNaming.check_bindings(&pairs(&[("id", "UserId"), ("database", "Database"), ("u", "User")])),
        vec![0, 2]
    );
    assert_eq!(InconsistentNaming.check_fn(&pairs(&[("user_id", "UserId"), ("db", "Database")])), vec![1]);
}
