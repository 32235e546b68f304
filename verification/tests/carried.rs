use repo_map::get_definitions_string;
use repo_map::model::{Class, Variable};
use repo_map::serialize::{stringify_class, stringify_variable};
use repo_map::tree::{SyntaxNode, SyntaxTree};
use repo_map::{check_tree, outline};

fn node(kind: &str, text: &str, parent: Option<usize>, field: &str) -> SyntaxNode {
    SyntaxNode {
        kind: String::from(kind),
        text: String::from(text),
        parent,
        field: String::from(field),
    }
}

fn cap(name: &str, node_index: usize) -> (String, usize) {
    (String::from(name), node_index)
}

/// A large flat input: many classes with a method each. The run must
/// stay correct and complete in reasonable time.
#[test]
fn test_large_repository_handling() {
    let mut nodes = vec![node("module", "", None, "")];
    let mut caps = Vec::new();
    for k in 0..300 {
        let base = nodes.len();
        nodes.push(node("class_definition", "class ...", Some(0), ""));
        nodes.push(node("identifier", &format!("C{:03}", k), Some(base), "name"));
        nodes.push(node("block", "...", Some(base), "body"));
        nodes.push(node("function_definition", "def m(self): ...", Some(base + 2), ""));
        nodes.push(node("identifier", "m", Some(base + 3), "name"));
        nodes.push(node("parameters", "(self)", Some(base + 3), "parameters"));
        caps.push(cap("class", base));
        caps.push(cap("method", base + 3));
    }
    let tree = SyntaxTree { nodes };
    let s = get_definitions_string("python", &tree, &caps);
    assert_eq!(s.matches("class C").count(), 300);
    assert!(s.starts_with("class C000{func m(self) -> void;};"));
    assert!(s.ends_with("class C299{func m(self) -> void;};"));
}

/// Very large node texts flow through the pipeline unharmed.
#[test]
fn test_large_text_handling() {
    let large_text = "word ".repeat(10000);
    let nodes = vec![
        node("module", "", None, ""),
        node("assignment", "big = ...", Some(0), ""),
        node("identifier", "big", Some(1), "left"),
        node("string", &large_text, Some(1), "type"),
    ];
    let tree = SyntaxTree { nodes };
    let caps = vec![cap("assignment", 1)];
    let s = get_definitions_string("python", &tree, &caps);
    assert_eq!(s.len(), "var big:;".len() + large_text.len());
    assert!(s.ends_with(';'));
}

/// Edge cases: an empty tree, whitespace-only and non-ASCII texts.
#[test]
fn test_empty_and_edge_cases() {
    let empty = SyntaxTree { nodes: vec![] };
    assert_eq!(get_definitions_string("python", &empty, &vec![]), "");

    let nodes = vec![
        node("module", "", None, ""),
        node("assignment", "x = 1", Some(0), ""),
        node("identifier", "\n\t\r", Some(1), "left"),
        node("assignment", "y = 2", Some(0), ""),
        node("identifier", "\u{1F680}\u{1F31F}", Some(3), "left"),
    ];
    let tree = SyntaxTree { nodes };
    let caps = vec![cap("assignment", 1), cap("assignment", 3)];
    let s = get_definitions_string("python", &tree, &caps);
    assert_eq!(s, "var \n\t\r;var \u{1F680}\u{1F31F};");
}

/// Faults surface as refusals, never as a wrong outline: a malformed
/// tree is rejected, an unknown language yields the empty outline.
#[test]
fn test_error_propagation() {
    let cyclic = SyntaxTree {
        nodes: vec![node("module", "", Some(1), ""), node("module", "", Some(0), "")],
    };
    assert!(!check_tree(&cyclic));
    assert_eq!(outline("python", &cyclic, &vec![]), None);

    let fine = SyntaxTree { nodes: vec![node("module", "", None, "")] };
    assert_eq!(outline("nosuchlang", &fine, &vec![cap("class", 0)]), Some(String::new()));
}

/// The same tree under different language tags goes through each
/// language's own rule set.
#[test]
fn test_multiple_model_support() {
    let nodes = vec![
        node("source_file", "", None, ""),
        node("const_spec", "const lower = 1", Some(0), ""),
        node("identifier", "lower", Some(1), "name"),
    ];
    let tree = SyntaxTree { nodes };
    let caps = vec![cap("variable", 1)];
    // Go drops the lowercase name; Python keeps it; an unknown tag
    // yields nothing.
    assert_eq!(get_definitions_string("go", &tree, &caps), "");
    assert_eq!(get_definitions_string("python", &tree, &caps), "var lower;");
    assert_eq!(get_definitions_string("klingon", &tree, &caps), "");
}

/// No state survives between calls: many runs over the same input give
/// byte-identical outlines.
#[test]
fn test_tokenizer_memory_usage() {
    let nodes = vec![
        node("module", "", None, ""),
        node("class_definition", "class K: ...", Some(0), ""),
        node("identifier", "K", Some(1), "name"),
    ];
    let tree = SyntaxTree { nodes };
    let caps = vec![cap("class", 1)];
    let first = get_definitions_string("python", &tree, &caps);
    for _ in 0..50 {
        assert_eq!(get_definitions_string("python", &tree, &caps), first);
    }
}

/// A fresh run starts from nothing: with no captures the outline is
/// empty for every known language.
#[test]
fn test_template_engine_initialization() {
    let tree = SyntaxTree { nodes: vec![node("module", "", None, "")] };
    for tag in ["rust", "python", "go", "ruby", "zig", "elixir", "csharp"] {
        assert_eq!(get_definitions_string(tag, &tree, &vec![]), "");
    }
}

/// Basic rendering of one record of each shape.
#[test]
fn test_basic_template_rendering() {
    let c = Class {
        kind_label: String::from("class"),
        name: String::from("R"),
        methods: vec![],
        properties: vec![Variable { name: String::from("p"), value_type: String::from("T") }],
        visibility_modifier: None,
    };
    assert_eq!(stringify_class(&c), "class R{var p:T;};");
}

/// The `:type` suffix appears exactly when a type is present.
#[test]
fn test_template_variable_substitution() {
    let with_type = Variable { name: String::from("v"), value_type: String::from("i64") };
    let without = Variable { name: String::from("v"), value_type: String::new() };
    assert_eq!(stringify_variable(&with_type), "var v:i64;");
    assert_eq!(stringify_variable(&without), "var v;");
}

/// Refusals keep their shape: the checked entry point answers `None`
/// exactly on ill-formed trees.
#[test]
fn test_template_error_handling() {
    let bad = SyntaxTree { nodes: vec![node("module", "", Some(5), "")] };
    assert_eq!(outline("python", &bad, &vec![]), None);
    let good = SyntaxTree { nodes: vec![node("module", "", None, "")] };
    assert!(outline("python", &good, &vec![]).is_some());
}
