use oneway::error::Span;
use oneway::loader::{resolve_use, snake_case, split_uses, stdlib_entry, unresolved_use_message, use_file_name, UseStep};
use oneway::syntax::tree::{Ident, Item, Module, TypeDef, TypeExpr, UseDecl};

fn sp() -> Span {
    Span::new(0, 0, 1, 1)
}

#[test]
fn snake_cases_names() {
    assert_eq!(snake_case("HttpClient"), "http_client");
    assert_eq!(snake_case("already_snake"), "already_snake");
    assert_eq!(snake_case("ABC"), "a_b_c");
    assert_eq!(snake_case(&snake_case("DateTime")), "date_time");
    assert_eq!(use_file_name("Geometry"), "geometry.ow");
}

#[test]
fn shipped_bindings() {
    let clock = stdlib_entry("Clock").unwrap();
    assert_eq!(clock.cargo_deps.len(), 1);
    assert_eq!(clock.cargo_deps[0].name, "chrono");
    assert_eq!(clock.cargo_deps[0].version, "0.4");
    assert!(clock.rust_prelude.is_none());
    let http = stdlib_entry("HttpClient").unwrap();
    assert_eq!(http.cargo_deps.len(), 2);
    assert_eq!(http.cargo_deps[1].features, vec!["full".to_string()]);
    assert!(http.rust_prelude.unwrap().contains("oneway_http_get_text"));
    assert!(stdlib_entry("Nope").is_none());
}

#[test]
fn explains_unresolved_use() {
    assert_eq!(
        unresolved_use_message("Geo", "./geo.ow"),
        "`use Geo` cannot find `./geo.ow` (not in current directory and not a shipped binding)"
    );
}

#[test]
fn separates_use_declarations() {
    let u = |n: &str| Item::Use(UseDecl { name: Ident { name: n.to_string(), span: sp() }, span: sp() });
    let t = Item::TypeDef(TypeDef {
        name: Ident { name: "T".to_string(), span: sp() },
        generic_params: Vec::new(),
        body: TypeExpr::Named { name: "Int".to_string(), generics: Vec::new(), span: sp() },
        span: sp(),
    });
    let (uses, rest) = split_uses(Module { items: vec![u("A"), t, u("B")], span: sp() });
    assert_eq!(uses.iter().map(|x| x.name.name.clone()).collect::<Vec<_>>(), vec!["A", "B"]);
    assert_eq!(rest.len(), 1);
}

#[test]
fn resolves_use_declarations() {
    let none: Vec<String> = Vec::new();
    assert!(matches!(resolve_use("Clock", true, &none, "./clock.ow"), UseStep::LoadFile));
    match resolve_use("Clock", false, &none, "./clock.ow") {
        UseStep::Bind(e) => {
            assert_eq!(e.name, "Clock");
            assert_eq!(e.cargo_deps[0].name, "chrono");
        }
        other => panic!("unexpected step {:?}", other),
    }
    let bound = vec!["Clock".to_string()];
    assert!(matches!(resolve_use("Clock", false, &bound, "./clock.ow"), UseStep::AlreadyBound));
    match resolve_use("Nope", false, &bound, "./nope.ow") {
        UseStep::Unresolved(m) => assert_eq!(
            m,
            "`use Nope` cannot find `./nope.ow` (not in current directory and not a shipped binding)"
        ),
        other => panic!("unexpected step {:?}", other),
    }
}
