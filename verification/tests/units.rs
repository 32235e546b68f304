use repo_map::model::{Class, Enum, Func, Union, Variable};
use repo_map::scripts::script_for;
use repo_map::serialize::{
    stringify_class, stringify_enum, stringify_function, stringify_union, stringify_variable,
};
use repo_map::lang::Lang;

fn func(name: &str, params: &str, ret: &str, acc: Option<&str>) -> Func {
    Func {
        name: String::from(name),
        params: String::from(params),
        return_type: String::from(ret),
        accessibility_modifier: acc.map(String::from),
    }
}

fn var(name: &str, ty: &str) -> Variable {
    Variable { name: String::from(name), value_type: String::from(ty) }
}

#[test]
fn function_rendering() {
    assert_eq!(stringify_function(&func("f", "(a, b)", "int", None)), "func f(a, b) -> int;");
    assert_eq!(stringify_function(&func("f", "", "int", None)), "func f() -> int;");
    assert_eq!(stringify_function(&func("f", "(x)", "", None)), "func f(x);");
    assert_eq!(
        stringify_function(&func("f", "(x)", "void", Some("private"))),
        "private func f(x) -> void;"
    );
}

#[test]
fn variable_rendering() {
    assert_eq!(stringify_variable(&var("x", "u32")), "var x:u32;");
    assert_eq!(stringify_variable(&var("x", "")), "var x;");
}

#[test]
fn class_rendering() {
    let c = Class {
        kind_label: String::from("class"),
        name: String::from("K"),
        methods: vec![func("m", "()", "void", None)],
        properties: vec![var("p", "T")],
        visibility_modifier: None,
    };
    assert_eq!(stringify_class(&c), "class K{func m() -> void;var p:T;};");
    let m = Class {
        kind_label: String::from("module"),
        name: String::from("M"),
        methods: vec![],
        properties: vec![],
        visibility_modifier: None,
    };
    assert_eq!(stringify_class(&m), "module M{};");
}

#[test]
fn enum_and_union_rendering() {
    let e = Enum { name: String::from("E"), items: vec![var("A", ""), var("B", "u32")] };
    assert_eq!(stringify_enum(&e), "enum E{A;B:u32;};");
    let u = Union { name: String::from("U"), items: vec![var("X", "")] };
    assert_eq!(stringify_union(&u), "union U{X;};");
}

#[test]
fn every_language_has_a_pattern_script() {
    let langs = [
        Lang::Rust,
        Lang::Python,
        Lang::Php,
        Lang::Java,
        Lang::Javascript,
        Lang::Typescript,
        Lang::Go,
        Lang::C,
        Lang::Cpp,
        Lang::Lua,
        Lang::Ruby,
        Lang::Zig,
        Lang::Scala,
        Lang::Swift,
        Lang::Elixir,
        Lang::Csharp,
    ];
    for l in langs {
        let script = script_for(l);
        assert!(!script.is_empty());
        assert!(script.contains('@'));
    }
}
