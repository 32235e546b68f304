use repo_map::model::Definition;
use repo_map::tree::{SyntaxNode, SyntaxTree};
use repo_map::{check_tree, extract_definitions, get_definitions_string, outline};

fn node(kind: &str, text: &str, parent: Option<usize>, field: &str) -> SyntaxNode {
    SyntaxNode {
        kind: String::from(kind),
        text: String::from(text),
        parent,
        field: String::from(field),
    }
}

fn cap(name: &str, node_index: usize) -> (String, usize) {
    (String::from(name), node_index)
}

/// A small Rust-like parse: two consts, a struct with one public field,
/// an impl with one public method, and a top-level public function.
fn rust_arena() -> (SyntaxTree, Vec<(String, usize)>) {
    let nodes = vec![
        node("source_file", "", None, ""),
        node("const_item", "pub const A: u32 = 1;", Some(0), ""),
        node("visibility_modifier", "pub", Some(1), ""),
        node("identifier", "A", Some(1), "name"),
        node("primitive_type", "u32", Some(1), "type"),
        node("const_item", "const B: u32 = 2;", Some(0), ""),
        node("identifier", "B", Some(5), "name"),
        node("primitive_type", "u32", Some(5), "type"),
        node("struct_item", "pub(crate) struct S { pub f: String }", Some(0), ""),
        node("visibility_modifier", "pub(crate)", Some(8), ""),
        node("type_identifier", "S", Some(8), "name"),
        node("field_declaration_list", "{ pub f: String }", Some(8), "body"),
        node("field_declaration", "pub f: String", Some(11), ""),
        node("visibility_modifier", "pub", Some(12), ""),
        node("field_identifier", "f", Some(12), "name"),
        node("type_identifier", "String", Some(12), "type"),
        node("impl_item", "impl S { pub fn m(&self, x: u32) -> u32 { x } }", Some(0), ""),
        node("type_identifier", "S", Some(16), "type"),
        node("declaration_list", "{ ... }", Some(16), "body"),
        node("function_item", "pub fn m(&self, x: u32) -> u32 { x }", Some(18), ""),
        node("visibility_modifier", "pub", Some(19), ""),
        node("identifier", "m", Some(19), "name"),
        node("parameters", "(&self, x: u32)", Some(19), "parameters"),
        node("primitive_type", "u32", Some(19), "return_type"),
        node("function_item", "pub fn tf(a: u32) -> u32 { a }", Some(0), ""),
        node("visibility_modifier", "pub", Some(24), ""),
        node("identifier", "tf", Some(24), "name"),
        node("parameters", "(a: u32)", Some(24), "parameters"),
        node("primitive_type", "u32", Some(24), "return_type"),
    ];
    let caps = vec![
        cap("variable", 1),
        cap("variable", 5),
        cap("class", 8),
        cap("class_variable", 12),
        cap("method", 19),
        cap("function", 19),
        cap("function", 24),
    ];
    (SyntaxTree { nodes }, caps)
}

#[test]
fn rust_rules_end_to_end() {
    let (tree, caps) = rust_arena();
    assert!(check_tree(&tree));
    let s = get_definitions_string("rust", &tree, &caps);
    assert_eq!(
        s,
        "var A:u32;func tf(a: u32) -> u32;class S{func m(&self, x: u32) -> u32;var f:String;};"
    );
}

#[test]
fn rust_private_struct_suppressed() {
    let (mut tree, caps) = rust_arena();
    // Remove the `pub` keywords from the struct and its members: the
    // whole class record must vanish, and nothing else may appear.
    tree.nodes[9].text = String::from("");
    tree.nodes[13].text = String::from("");
    let s = get_definitions_string("rust", &tree, &caps);
    assert_eq!(s, "var A:u32;func tf(a: u32) -> u32;");
}

#[test]
fn visibility_monotonic_on_const() {
    let (tree, caps) = rust_arena();
    let with_pub = get_definitions_string("rust", &tree, &caps);
    let (mut stripped, _) = rust_arena();
    stripped.nodes[2].text = String::from("");
    let without_pub = get_definitions_string("rust", &stripped, &caps);
    assert!(with_pub.contains("var A:u32;"));
    assert!(!without_pub.contains("var A:u32;"));
    // Nothing new appears when a `pub` is removed.
    assert_eq!(
        without_pub,
        "func tf(a: u32) -> u32;class S{func m(&self, x: u32) -> u32;var f:String;};"
    );
}

#[test]
fn deterministic_across_calls() {
    let (tree, caps) = rust_arena();
    let a = get_definitions_string("rust", &tree, &caps);
    let b = get_definitions_string("rust", &tree, &caps);
    assert_eq!(a, b);
}

#[test]
fn test_unsupported_language() {
    let tree = SyntaxTree { nodes: vec![node("module", "print('Hello, world!')", None, "")] };
    let caps = vec![cap("variable", 0)];
    let stringified = get_definitions_string("unknown", &tree, &caps);
    let expected = "";
    assert_eq!(stringified, expected);
}

#[test]
fn outline_checks_tree_shape() {
    // A node claiming itself as parent is refused.
    let bad = SyntaxTree { nodes: vec![node("source_file", "", Some(0), "")] };
    assert!(!check_tree(&bad));
    assert_eq!(outline("rust", &bad, &vec![]), None);
    let good = SyntaxTree { nodes: vec![node("source_file", "", None, "")] };
    assert_eq!(outline("rust", &good, &vec![]), Some(String::new()));
}

#[test]
fn duplicate_captures_processed_once() {
    let (tree, mut caps) = rust_arena();
    // The same node captured twice under the same kind accretes once.
    caps.push(cap("method", 19));
    caps.push(cap("class", 8));
    let s = get_definitions_string("rust", &tree, &caps);
    assert_eq!(
        s,
        "var A:u32;func tf(a: u32) -> u32;class S{func m(&self, x: u32) -> u32;var f:String;};"
    );
}

#[test]
fn containers_merge_and_sort() {
    // Two classes captured out of order, methods accreting into each:
    // records merge by name and are emitted in sorted order.
    let nodes = vec![
        node("source_file", "", None, ""),
        node("class_definition", "class Zeta: ...", Some(0), ""),
        node("identifier", "Zeta", Some(1), "name"),
        node("block", "...", Some(1), "body"),
        node("function_definition", "def z1(self): ...", Some(3), ""),
        node("identifier", "z1", Some(4), "name"),
        node("parameters", "(self)", Some(4), "parameters"),
        node("class_definition", "class Alpha: ...", Some(0), ""),
        node("identifier", "Alpha", Some(7), "name"),
        node("block", "...", Some(7), "body"),
        node("function_definition", "def a1(self): ...", Some(9), ""),
        node("identifier", "a1", Some(10), "name"),
        node("parameters", "(self)", Some(10), "parameters"),
        node("function_definition", "def z2(self): ...", Some(3), ""),
        node("identifier", "z2", Some(13), "name"),
        node("parameters", "(self)", Some(13), "parameters"),
    ];
    let tree = SyntaxTree { nodes };
    let caps = vec![
        cap("class", 1),
        cap("method", 4),
        cap("class", 7),
        cap("method", 10),
        cap("method", 13),
        cap("class", 1),
    ];
    let s = get_definitions_string("python", &tree, &caps);
    assert_eq!(
        s,
        "class Alpha{func a1(self) -> void;};class Zeta{func z1(self) -> void;func z2(self) -> void;};"
    );
    // A class name appears exactly once.
    assert_eq!(s.matches("class Zeta{").count(), 1);
}

#[test]
fn methods_keep_first_capture_order() {
    let nodes = vec![
        node("source_file", "", None, ""),
        node("class_definition", "class C: ...", Some(0), ""),
        node("identifier", "C", Some(1), "name"),
        node("block", "...", Some(1), "body"),
        node("function_definition", "def b(self): ...", Some(3), ""),
        node("identifier", "b", Some(4), "name"),
        node("parameters", "(self)", Some(4), "parameters"),
        node("function_definition", "def a(self): ...", Some(3), ""),
        node("identifier", "a", Some(7), "name"),
        node("parameters", "(self)", Some(7), "parameters"),
    ];
    let tree = SyntaxTree { nodes };
    let caps = vec![cap("method", 4), cap("method", 7)];
    let s = get_definitions_string("python", &tree, &caps);
    // `b` was captured first and stays first, though `a` sorts lower.
    assert_eq!(s, "class C{func b(self) -> void;func a(self) -> void;};");
}

#[test]
fn go_case_filter() {
    let nodes = vec![
        node("source_file", "", None, ""),
        node("const_spec", "const Kept string = \"x\"", Some(0), ""),
        node("identifier", "Kept", Some(1), "name"),
        node("type_identifier", "string", Some(1), "type"),
        node("const_spec", "const dropped string = \"x\"", Some(0), ""),
        node("identifier", "dropped", Some(4), "name"),
        node("type_identifier", "string", Some(4), "type"),
        node("function_declaration", "func lower() {}", Some(0), ""),
        node("identifier", "lower", Some(7), "name"),
        node("parameter_list", "()", Some(7), "parameters"),
    ];
    let tree = SyntaxTree { nodes };
    let caps = vec![cap("variable", 1), cap("variable", 4), cap("function", 7)];
    let s = get_definitions_string("go", &tree, &caps);
    assert_eq!(s, "var Kept:string;");
}

#[test]
fn go_method_receiver_resolution() {
    let nodes = vec![
        node("source_file", "", None, ""),
        node("method_declaration", "func (t *T) Get(a int) int { ... }", Some(0), ""),
        node("parameter_list", "(t *T)", Some(1), "receiver"),
        node("type_identifier", "T", Some(2), ""),
        node("field_identifier", "Get", Some(1), "name"),
        node("parameter_list", "(a int)", Some(1), "parameters"),
        node("type_identifier", "int", Some(1), "result"),
    ];
    let tree = SyntaxTree { nodes };
    let caps = vec![cap("method", 1)];
    let s = get_definitions_string("go", &tree, &caps);
    assert_eq!(s, "class T{func Get(a int) -> int;};");
}

#[test]
fn ruby_nested_path_and_private_marker() {
    let nodes = vec![
        node("program", "", None, ""),
        node("module", "module A ... end", Some(0), ""),
        node("constant", "A", Some(1), "name"),
        node("body_statement", "...", Some(1), ""),
        node("class", "class C < Base ... end", Some(3), ""),
        node("constant", "C", Some(4), "name"),
        node("body_statement", "...", Some(4), ""),
        node("method", "def pub_m; end", Some(6), ""),
        node("identifier", "pub_m", Some(7), "name"),
        node("identifier", "private", Some(6), ""),
        node("method", "def hidden(req); end", Some(6), ""),
        node("identifier", "hidden", Some(10), "name"),
        node("method_parameters", "(req)", Some(10), "parameters"),
    ];
    let tree = SyntaxTree { nodes };
    let caps = vec![
        cap("module", 1),
        cap("class", 4),
        cap("method", 7),
        cap("method", 10),
    ];
    let s = get_definitions_string("ruby", &tree, &caps);
    assert_eq!(
        s,
        "module A{};class A::C{func pub_m() -> void;private func hidden(req) -> void;};"
    );
}

#[test]
fn zig_variable_needs_type_in_parent() {
    let nodes = vec![
        node("source_file", "", None, ""),
        node("variable_declaration", "pub const N: u32 = 1;", Some(0), ""),
        node("identifier", "N", Some(1), ""),
        node("builtin_type", "u32", Some(1), "type"),
        node("variable_declaration", "pub const S = struct {};", Some(0), ""),
        node("identifier", "S", Some(4), ""),
    ];
    let tree = SyntaxTree { nodes };
    // Both identifiers are captured; only the one whose declaration
    // carries a type survives.
    let caps = vec![cap("variable", 2), cap("variable", 5)];
    let s = get_definitions_string("zig", &tree, &caps);
    assert_eq!(s, "var N:u32;");
}

#[test]
fn zig_enum_and_union_items() {
    let nodes = vec![
        node("source_file", "", None, ""),
        node("variable_declaration", "pub const E = enum { A, B };", Some(0), ""),
        node("identifier", "E", Some(1), ""),
        node("container_field", "A", Some(1), ""),
        node("identifier", "A", Some(3), "name"),
        node("container_field", "B", Some(1), ""),
        node("identifier", "B", Some(5), "name"),
        node("variable_declaration", "const Hidden = union { X: u32 };", Some(0), ""),
        node("identifier", "Hidden", Some(7), ""),
        node("container_field", "X: u32", Some(7), ""),
        node("identifier", "X", Some(9), "name"),
    ];
    let tree = SyntaxTree { nodes };
    let caps = vec![cap("enum_item", 3), cap("enum_item", 5), cap("union_item", 9)];
    let s = get_definitions_string("zig", &tree, &caps);
    // The public enum keeps its items; the private union is dropped.
    assert_eq!(s, "enum E{A;B;};");
}

#[test]
fn elixir_module_resolution() {
    let nodes = vec![
        node("source_file", "", None, ""),
        node("call", "defmodule M do ... end", Some(0), ""),
        node("identifier", "defmodule", Some(1), "target"),
        node("arguments", "M", Some(1), ""),
        node("do_block", "do ... end", Some(1), ""),
        node("call", "def f(a) do ... end", Some(4), ""),
        node("identifier", "def", Some(5), "target"),
        node("arguments", "f(a)", Some(5), ""),
        node("call", "f(a)", Some(7), ""),
        node("identifier", "f", Some(8), "target"),
        node("arguments", "(a)", Some(8), ""),
    ];
    let tree = SyntaxTree { nodes };
    let caps = vec![cap("method", 9)];
    let s = get_definitions_string("elixir", &tree, &caps);
    assert_eq!(s, "module M{func f(a);};");
}

#[test]
fn csharp_primary_constructor() {
    let nodes = vec![
        node("compilation_unit", "", None, ""),
        node("class_declaration", "public class P(Dep d) { }", Some(0), ""),
        node("identifier", "P", Some(1), "name"),
        node("parameter_list", "(Dep d)", Some(1), ""),
        node("declaration_list", "{ }", Some(1), "body"),
    ];
    let tree = SyntaxTree { nodes };
    let caps = vec![cap("class", 1), cap("method", 3)];
    let s = get_definitions_string("csharp", &tree, &caps);
    assert_eq!(s, "class P{func P(Dep d) -> P;};");
}

#[test]
fn arrow_function_reshapes_variable() {
    let nodes = vec![
        node("program", "", None, ""),
        node("variable_declarator", "f = (a, b) => a + b", Some(0), ""),
        node("identifier", "f", Some(1), "name"),
        node("arrow_function", "(a, b) => a + b", Some(1), "value"),
        node("formal_parameters", "(a, b)", Some(3), "parameters"),
    ];
    let tree = SyntaxTree { nodes };
    let caps = vec![cap("variable", 1)];
    let s = get_definitions_string("javascript", &tree, &caps);
    assert_eq!(s, "func f(a, b) -> void;");
}

#[test]
fn unknown_capture_names_are_ignored() {
    let (tree, mut caps) = rust_arena();
    caps.push(cap("comment", 0));
    caps.push(cap("_keyword", 3));
    let s = get_definitions_string("rust", &tree, &caps);
    assert_eq!(
        s,
        "var A:u32;func tf(a: u32) -> u32;class S{func m(&self, x: u32) -> u32;var f:String;};"
    );
}

#[test]
fn out_of_range_captures_are_ignored() {
    let (tree, mut caps) = rust_arena();
    caps.push(cap("class", 999));
    let s = get_definitions_string("rust", &tree, &caps);
    assert_eq!(
        s,
        "var A:u32;func tf(a: u32) -> u32;class S{func m(&self, x: u32) -> u32;var f:String;};"
    );
}

#[test]
fn outline_has_no_newlines_and_ends_with_semicolon() {
    let (tree, caps) = rust_arena();
    let s = get_definitions_string("rust", &tree, &caps);
    assert!(!s.contains('\n'));
    assert!(s.ends_with(';'));
}

#[test]
fn extract_gives_structured_records() {
    let (tree, caps) = rust_arena();
    let defs = extract_definitions("rust", &tree, &caps);
    assert_eq!(defs.len(), 3);
    match &defs[0] {
        Definition::Variable(v) => {
            assert_eq!(v.name, "A");
            assert_eq!(v.value_type, "u32");
        },
        _ => panic!("expected a variable first"),
    }
    match &defs[2] {
        Definition::Class(c) => {
            assert_eq!(c.kind_label, "class");
            assert_eq!(c.name, "S");
            assert_eq!(c.methods.len(), 1);
            assert_eq!(c.methods[0].name, "m");
            assert_eq!(c.properties.len(), 1);
            assert_eq!(c.properties[0].name, "f");
        },
        _ => panic!("expected the class last"),
    }
}
