use oneway::codegen::rust::{
    all_simple_named, can_generate, generate, is_primitive_constructor, is_stdlib_variant, lower_first, render_named_type,
    render_type,
};
use oneway::error::Span;
use oneway::syntax::tree::{Block, Expr, FunctionDef, GenericParam, Ident, Item, MatchArm, Module, Pattern, TypeDef, TypeExpr};

fn sp() -> Span {
    Span::new(0, 0, 1, 1)
}

fn ident(n: &str) -> Ident {
    Ident { name: n.to_string(), span: sp() }
}

fn named(n: &str) -> TypeExpr {
    TypeExpr::Named { name: n.to_string(), generics: Vec::new(), span: sp() }
}

fn function(name: &str, ret: TypeExpr, exprs: Vec<Expr>) -> Item {
    Item::Function(FunctionDef {
        receiver: None,
        name: ident(name),
        generic_params: Vec::new(),
        params: Vec::new(),
        return_ty: ret,
        body: Block { exprs, span: sp() },
        extern_rust: None,
        span: sp(),
    })
}

fn typedef(name: &str, body: TypeExpr) -> Item {
    Item::TypeDef(TypeDef { name: ident(name), generic_params: Vec::new(), body, span: sp() })
}

fn module(items: Vec<Item>) -> Module {
    Module { items, span: sp() }
}

#[test]
fn renders_builtin_and_generic_types() {
    assert_eq!(render_type(&named("Int")), "i64");
    assert_eq!(render_type(&named("Noop")), "()");
    assert_eq!(render_type(&named("Bytes")), "Vec<u8>");
    let list = TypeExpr::Named { name: "Map".to_string(), generics: vec![named("String"), named("Float")], span: sp() };
    assert_eq!(render_type(&list), "Map<String, f64>");
    let arr = TypeExpr::Repeat { ty: Box::new(named("Hex")), count: 4, span: sp() };
    assert_eq!(render_type(&arr), "[u64; 4]");
    let spread = TypeExpr::Spread { ty: Box::new(named("Int")), span: sp() };
    assert_eq!(render_type(&spread), "Vec<i64>");
    let union = TypeExpr::Union { variants: vec![named("A")], span: sp() };
    assert_eq!(render_type(&union), "()");
    assert_eq!(render_named_type("Option", &vec![named("Int")]), "Option<i64>");
}

#[test]
fn names_helpers() {
    assert!(is_primitive_constructor("Int"));
    assert!(!is_primitive_constructor("Person"));
    assert!(is_stdlib_variant("Some"));
    assert!(!is_stdlib_variant("Red"));
    assert_eq!(lower_first("Name"), "name");
    assert_eq!(lower_first(""), "");
    assert!(all_simple_named(&vec![named("A"), named("B")]));
    let generic = TypeExpr::Named { name: "L".to_string(), generics: vec![named("A")], span: sp() };
    assert!(!all_simple_named(&vec![named("A"), generic]));
}

#[test]
fn generates_hello_main() {
    let print = Expr::MethodCall {
        receiver: Box::new(Expr::StringLit { value: "hi \"you\"".to_string(), span: sp() }),
        method: ident("print"),
        type_args: Vec::new(),
        args: vec![Expr::Ident(ident("Noop"))],
        span: sp(),
    };
    let m = module(vec![function("main", named("Noop"), vec![print])]);
    assert!(can_generate(&m));
    assert_eq!(generate(&m), "fn main() {\n    println!(\"{}\", \"hi \\\"you\\\"\");\n}\n\n");
}

#[test]
fn generates_enum_and_variant_values() {
    let color = typedef("Color", TypeExpr::Union { variants: vec![named("Red"), named("Green")], span: sp() });
    let m = module(vec![
        color,
        function("pick", named("Color"), vec![Expr::IntLit { value: -3, span: sp() }, Expr::Ident(ident("Green"))]),
    ]);
    assert_eq!(
        generate(&m),
        "#[allow(non_camel_case_types, dead_code)]\npub enum Color {\n    Red,\n    Green,\n}\n\n\
         fn pick() -> Color {\n    -3i64;\n    Color::Green\n}\n\n"
    );
}

#[test]
fn generates_struct_and_aliases() {
    let person = typedef("Person", TypeExpr::Product { fields: vec![named("Name"), named("Age")], span: sp() });
    let ids = typedef("Ids", TypeExpr::Spread { ty: Box::new(named("Int")), span: sp() });
    let grid = typedef("Grid", TypeExpr::Repeat { ty: Box::new(named("Hex")), count: 9, span: sp() });
    let alias = typedef("Count", named("Int"));
    let m = module(vec![person, ids, grid, alias]);
    assert_eq!(
        generate(&m),
        "#[allow(non_snake_case, dead_code)]\npub struct Person {\n    pub name: Name,\n    pub age: Age,\n}\n\n\
         pub type Ids = Vec<i64>;\n\npub type Grid = [u64; 9];\n\npub type Count = i64;\n\n"
    );
}

#[test]
fn generates_skip_comments() {
    let generic = Item::TypeDef(TypeDef {
        name: ident("Box"),
        generic_params: vec![GenericParam { name: ident("T"), bound: None, span: sp() }],
        body: named("T"),
        span: sp(),
    });
    let mixed = typedef(
        "Mixed",
        TypeExpr::Union {
            variants: vec![named("A"), TypeExpr::Named { name: "L".to_string(), generics: vec![named("A")], span: sp() }],
            span: sp(),
        },
    );
    let m = module(vec![generic, mixed]);
    assert_eq!(
        generate(&m),
        "// Skipping generic type `Box` for now (TODO).\n\n// Skipping complex type `Mixed` for now (TODO).\n\n"
    );
}

#[test]
fn generates_match_constructors_and_literals() {
    let scrutinee = Expr::Constructor {
        name: ident("Some"),
        args: vec![Expr::Constructor { name: ident("Int"), args: vec![Expr::HexLit { value: 255, span: sp() }], span: sp() }],
        span: sp(),
    };
    let arms = vec![
        MatchArm {
            pattern: Pattern::Variant { name: "Some".to_string(), args: vec![Pattern::Wildcard { span: sp() }], span: sp() },
            body: Expr::FloatLit { value: "1.5".to_string(), span: sp() },
            span: sp(),
        },
        MatchArm {
            pattern: Pattern::Variant { name: "None".to_string(), args: Vec::new(), span: sp() },
            body: Expr::Try {
                inner: Box::new(Expr::Constructor { name: ident("Make"), args: Vec::new(), span: sp() }),
                span: sp(),
            },
            span: sp(),
        },
    ];
    let body = Expr::Match { scrutinee: Box::new(scrutinee), arms, span: sp() };
    let m = module(vec![function("main", named("Int"), vec![body])]);
    assert_eq!(
        generate(&m),
        "fn main() -> i64 {\n    match Some(0xFFu64) {\n        Some(_) => 1.5f64,\n        None => Make()?,\n    }\n}\n\n"
    );
}

#[test]
fn refuses_lambdas() {
    let lambda = Expr::Lambda {
        params: Vec::new(),
        return_ty: named("Int"),
        body: Block { exprs: Vec::new(), span: sp() },
        span: sp(),
    };
    let m = module(vec![function("main", named("Noop"), vec![lambda])]);
    assert!(!can_generate(&m));
}
