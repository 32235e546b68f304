use repo_map::get_definitions_string;
use repo_map::tree::{SyntaxNode, SyntaxTree};

fn node(kind: &str, text: &str, parent: Option<usize>, field: &str) -> SyntaxNode {
    SyntaxNode {
        kind: String::from(kind),
        text: String::from(text),
        parent,
        field: String::from(field),
    }
}

fn cap(name: &str, node_index: usize) -> (String, usize) {
    (String::from(name), node_index)
}

/// C++ name scoping: an out-of-class definition carries its scope, a
/// constructor answers with the class name, and a destructor is
/// dropped.
#[test]
fn cpp_scoped_names() {
    let nodes = vec![
        node("translation_unit", "", None, ""),
        // bool K::eq(int a) { ... }  (out of class)
        node("function_definition", "bool K::eq(int a) { return true; }", Some(0), ""),
        node("primitive_type", "bool", Some(1), "type"),
        node("function_declarator", "K::eq(int a)", Some(1), "declarator"),
        node("qualified_identifier", "K::eq", Some(3), "declarator"),
        node("namespace_identifier", "K", Some(4), "scope"),
        node("identifier", "eq", Some(4), "name"),
        node("parameter_list", "(int a)", Some(3), "parameters"),
        // class K { K(); ~K(); };
        node("class_specifier", "class K { K(); ~K(); }", Some(0), ""),
        node("type_identifier", "K", Some(8), "name"),
        node("field_declaration_list", "{ K(); ~K(); }", Some(8), "body"),
        node("declaration", "K();", Some(10), ""),
        node("function_declarator", "K()", Some(11), "declarator"),
        node("identifier", "K", Some(12), "declarator"),
        node("parameter_list", "()", Some(12), "parameters"),
        node("declaration", "~K();", Some(10), ""),
        node("function_declarator", "~K()", Some(15), "declarator"),
        node("destructor_name", "~K", Some(16), "declarator"),
        node("parameter_list", "()", Some(16), "parameters"),
    ];
    let tree = SyntaxTree { nodes };
    let caps = vec![
        cap("function", 1),
        cap("class", 8),
        cap("method", 11),
        cap("method", 15),
    ];
    let s = get_definitions_string("cpp", &tree, &caps);
    assert_eq!(s, "func K::eq(int a) -> bool;class K{func K() -> K;};");
}

/// Java drops members whose modifiers mention `private`.
#[test]
fn java_private_modifiers() {
    let nodes = vec![
        node("program", "", None, ""),
        node("class_declaration", "public class J { ... }", Some(0), ""),
        node("identifier", "J", Some(1), "name"),
        node("class_body", "{ ... }", Some(1), "body"),
        node("method_declaration", "public void a() {}", Some(3), ""),
        node("modifiers", "public", Some(4), ""),
        node("identifier", "a", Some(4), "name"),
        node("formal_parameters", "()", Some(4), "parameters"),
        node("method_declaration", "private void b() {}", Some(3), ""),
        node("modifiers", "private", Some(8), ""),
        node("identifier", "b", Some(8), "name"),
        node("formal_parameters", "()", Some(8), "parameters"),
        node("method_declaration", "void c() {}", Some(3), ""),
        node("identifier", "c", Some(12), "name"),
        node("formal_parameters", "()", Some(12), "parameters"),
    ];
    let tree = SyntaxTree { nodes };
    let caps = vec![cap("class", 1), cap("method", 4), cap("method", 8), cap("method", 12)];
    let s = get_definitions_string("java", &tree, &caps);
    assert_eq!(s, "class J{func a() -> void;func c() -> void;};");
}

/// Swift drops anything whose visibility modifier mentions `private`.
#[test]
fn swift_private_visibility() {
    let nodes = vec![
        node("source_file", "", None, ""),
        node("property_declaration", "private var hidden = 0", Some(0), ""),
        node("visibility_modifier", "private", Some(1), ""),
        node("pattern", "hidden", Some(1), "name"),
        node("property_declaration", "public var shown = 0", Some(0), ""),
        node("visibility_modifier", "public", Some(4), ""),
        node("pattern", "shown", Some(4), "name"),
    ];
    let tree = SyntaxTree { nodes };
    let caps = vec![cap("variable", 1), cap("variable", 4)];
    let s = get_definitions_string("swift", &tree, &caps);
    assert_eq!(s, "var shown;");
}

/// Scala falls back from the `name` field to the `pattern` field, and
/// enum items land under the enclosing enum definition's name.
#[test]
fn scala_pattern_and_enum() {
    let nodes = vec![
        node("compilation_unit", "", None, ""),
        node("val_definition", "val foo: T = x", Some(0), ""),
        node("identifier", "foo", Some(1), "pattern"),
        node("type_identifier", "T", Some(1), "type"),
        node("enum_definition", "enum E { case A }", Some(0), ""),
        node("identifier", "E", Some(4), "name"),
        node("enum_body", "{ case A }", Some(4), "body"),
        node("simple_enum_case", "A", Some(6), ""),
        node("identifier", "A", Some(7), "name"),
    ];
    let tree = SyntaxTree { nodes };
    let caps = vec![cap("variable", 1), cap("enum_item", 7)];
    let s = get_definitions_string("scala", &tree, &caps);
    assert_eq!(s, "var foo:T;enum E{A;};");
}

/// A TypeScript arrow value with an annotated return type keeps the
/// type; the annotation's predefined type is preferred.
#[test]
fn typescript_arrow_with_return_type() {
    let nodes = vec![
        node("program", "", None, ""),
        node("variable_declarator", "f = (a): number => a", Some(0), ""),
        node("identifier", "f", Some(1), "name"),
        node("arrow_function", "(a): number => a", Some(1), "value"),
        node("formal_parameters", "(a)", Some(3), "parameters"),
        node("type_annotation", ": number", Some(3), "return_type"),
        node("predefined_type", "number", Some(5), ""),
    ];
    let tree = SyntaxTree { nodes };
    let caps = vec![cap("variable", 1)];
    let s = get_definitions_string("typescript", &tree, &caps);
    assert_eq!(s, "func f(a) -> number;");
}

/// PHP keeps private members; properties render by their variable
/// name.
#[test]
fn php_methods_and_properties() {
    let nodes = vec![
        node("program", "", None, ""),
        node("class_declaration", "class P { ... }", Some(0), ""),
        node("name", "P", Some(1), "name"),
        node("declaration_list", "{ ... }", Some(1), "body"),
        node("method_declaration", "private function m($x) {}", Some(3), ""),
        node("name", "m", Some(4), "name"),
        node("formal_parameters", "($x)", Some(4), "parameters"),
        node("property_declaration", "public $p = 0;", Some(3), ""),
        node("property_element", "$p = 0", Some(7), ""),
        node("variable_name", "$p", Some(8), ""),
    ];
    let tree = SyntaxTree { nodes };
    let caps = vec![cap("class", 1), cap("method", 4), cap("class_variable", 9)];
    let s = get_definitions_string("php", &tree, &caps);
    assert_eq!(s, "class P{func m($x) -> void;var $p;};");
}

/// Rust enum variants carry no `pub` of their own, so a Rust outline
/// never shows an enum.
#[test]
fn rust_enum_variants_stay_private() {
    let nodes = vec![
        node("source_file", "", None, ""),
        node("enum_item", "pub enum E { A, B }", Some(0), ""),
        node("visibility_modifier", "pub", Some(1), ""),
        node("type_identifier", "E", Some(1), "name"),
        node("enum_variant_list", "{ A, B }", Some(1), "body"),
        node("enum_variant", "A", Some(4), ""),
        node("identifier", "A", Some(5), "name"),
        node("enum_variant", "B", Some(4), ""),
        node("identifier", "B", Some(7), "name"),
    ];
    let tree = SyntaxTree { nodes };
    let caps = vec![cap("enum_item", 5), cap("enum_item", 7)];
    let s = get_definitions_string("rust", &tree, &caps);
    assert_eq!(s, "");
}

/// A Zig method needs both its function and its enclosing declaration
/// to be public.
#[test]
fn zig_method_needs_both_pub() {
    let nodes = vec![
        node("source_file", "", None, ""),
        node("variable_declaration", "const S = struct { pub fn m() void {} };", Some(0), ""),
        node("identifier", "S", Some(1), ""),
        node("struct_declaration", "struct { pub fn m() void {} }", Some(1), ""),
        node("function_declaration", "pub fn m() void {}", Some(3), ""),
        node("identifier", "m", Some(4), "name"),
        node("parameters", "()", Some(4), ""),
    ];
    let tree = SyntaxTree { nodes };
    let caps = vec![cap("method", 5)];
    // The function is `pub` but the declaration `const S = ...` is not.
    assert_eq!(get_definitions_string("zig", &tree, &caps), "");
}

/// Lua's flat case: a local variable and a top-level function.
#[test]
fn lua_basics() {
    let nodes = vec![
        node("chunk", "", None, ""),
        node("variable_declaration", "local v = 1", Some(0), ""),
        node("assignment_statement", "v = 1", Some(1), ""),
        node("variable_list", "v", Some(2), ""),
        node("identifier", "v", Some(3), ""),
        node("function_declaration", "function f(a, b) end", Some(0), ""),
        node("identifier", "f", Some(5), "name"),
        node("parameters", "(a, b)", Some(5), "parameters"),
    ];
    let tree = SyntaxTree { nodes };
    let caps = vec![cap("variable", 4), cap("function", 5)];
    let s = get_definitions_string("lua", &tree, &caps);
    assert_eq!(s, "var v;func f(a, b) -> void;");
}
