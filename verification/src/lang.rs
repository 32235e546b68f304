//! The language registry: the sixteen supported language tags, and the
//! eleven capture kinds a pattern script may attach to a node.

use vstd::prelude::*;
use crate::strutil::str_eq;

verus! {

/// A supported language.
#[derive(Clone, Copy, PartialEq, Eq, Structural)]
pub enum Lang {
    Rust,
    Python,
    Php,
    Java,
    Javascript,
    Typescript,
    Go,
    C,
    Cpp,
    Lua,
    Ruby,
    Zig,
    Scala,
    Swift,
    Elixir,
    Csharp,
}

/// A numeric key for each language, used by the ghost model of the
/// parser front end.
pub open spec fn lang_key(l: Lang) -> int {
    match l {
        Lang::Rust => 0,
        Lang::Python => 1,
        Lang::Php => 2,
        Lang::Java => 3,
        Lang::Javascript => 4,
        Lang::Typescript => 5,
        Lang::Go => 6,
        Lang::C => 7,
        Lang::Cpp => 8,
        Lang::Lua => 9,
        Lang::Ruby => 10,
        Lang::Zig => 11,
        Lang::Scala => 12,
        Lang::Swift => 13,
        Lang::Elixir => 14,
        Lang::Csharp => 15,
    }
}

/// The language a tag names, if any.
pub open spec fn lang_of(tag: Seq<char>) -> Option<Lang> {
    if tag == "rust"@ {
        Some(Lang::Rust)
    } else if tag == "python"@ {
        Some(Lang::Python)
    } else if tag == "php"@ {
        Some(Lang::Php)
    } else if tag == "java"@ {
        Some(Lang::Java)
    } else if tag == "javascript"@ {
        Some(Lang::Javascript)
    } else if tag == "typescript"@ {
        Some(Lang::Typescript)
    } else if tag == "go"@ {
        Some(Lang::Go)
    } else if tag == "c"@ {
        Some(Lang::C)
    } else if tag == "cpp"@ {
        Some(Lang::Cpp)
    } else if tag == "lua"@ {
        Some(Lang::Lua)
    } else if tag == "ruby"@ {
        Some(Lang::Ruby)
    } else if tag == "zig"@ {
        Some(Lang::Zig)
    } else if tag == "scala"@ {
        Some(Lang::Scala)
    } else if tag == "swift"@ {
        Some(Lang::Swift)
    } else if tag == "elixir"@ {
        Some(Lang::Elixir)
    } else if tag == "csharp"@ {
        Some(Lang::Csharp)
    } else {
        None
    }
}

/// Parse a language tag.
pub fn parse_lang(tag: &str) -> (r: Option<Lang>)
    ensures
        r == lang_of(tag@),
{
    if str_eq(tag, "rust") {
        Some(Lang::Rust)
    } else if str_eq(tag, "python") {
        Some(Lang::Python)
    } else if str_eq(tag, "php") {
        Some(Lang::Php)
    } else if str_eq(tag, "java") {
        Some(Lang::Java)
    } else if str_eq(tag, "javascript") {
        Some(Lang::Javascript)
    } else if str_eq(tag, "typescript") {
        Some(Lang::Typescript)
    } else if str_eq(tag, "go") {
        Some(Lang::Go)
    } else if str_eq(tag, "c") {
        Some(Lang::C)
    } else if str_eq(tag, "cpp") {
        Some(Lang::Cpp)
    } else if str_eq(tag, "lua") {
        Some(Lang::Lua)
    } else if str_eq(tag, "ruby") {
        Some(Lang::Ruby)
    } else if str_eq(tag, "zig") {
        Some(Lang::Zig)
    } else if str_eq(tag, "scala") {
        Some(Lang::Scala)
    } else if str_eq(tag, "swift") {
        Some(Lang::Swift)
    } else if str_eq(tag, "elixir") {
        Some(Lang::Elixir)
    } else if str_eq(tag, "csharp") {
        Some(Lang::Csharp)
    } else {
        None
    }
}

/// A capture kind: the label a pattern script attaches to a node.
#[derive(Clone, Copy, PartialEq, Eq, Structural)]
pub enum CaptureKind {
    Class,
    Module,
    Method,
    ClassVariable,
    ClassAssignment,
    Function,
    ArrowFunction,
    Variable,
    Assignment,
    EnumItem,
    UnionItem,
}

/// A numeric key for each capture kind, used for the per-kind
/// deduplication set.
pub open spec fn cap_key(k: CaptureKind) -> int {
    match k {
        CaptureKind::Class => 0,
        CaptureKind::Module => 1,
        CaptureKind::Method => 2,
        CaptureKind::ClassVariable => 3,
        CaptureKind::ClassAssignment => 4,
        CaptureKind::Function => 5,
        CaptureKind::ArrowFunction => 6,
        CaptureKind::Variable => 7,
        CaptureKind::Assignment => 8,
        CaptureKind::EnumItem => 9,
        CaptureKind::UnionItem => 10,
    }
}

/// The capture kind a capture name denotes, if any.
pub open spec fn capture_kind_of(name: Seq<char>) -> Option<CaptureKind> {
    if name == "class"@ {
        Some(CaptureKind::Class)
    } else if name == "module"@ {
        Some(CaptureKind::Module)
    } else if name == "method"@ {
        Some(CaptureKind::Method)
    } else if name == "class_variable"@ {
        Some(CaptureKind::ClassVariable)
    } else if name == "class_assignment"@ {
        Some(CaptureKind::ClassAssignment)
    } else if name == "function"@ {
        Some(CaptureKind::Function)
    } else if name == "arrow_function"@ {
        Some(CaptureKind::ArrowFunction)
    } else if name == "variable"@ {
        Some(CaptureKind::Variable)
    } else if name == "assignment"@ {
        Some(CaptureKind::Assignment)
    } else if name == "enum_item"@ {
        Some(CaptureKind::EnumItem)
    } else if name == "union_item"@ {
        Some(CaptureKind::UnionItem)
    } else {
        None
    }
}

/// Parse a capture name.
pub fn parse_capture_kind(name: &str) -> (r: Option<CaptureKind>)
    ensures
        r == capture_kind_of(name@),
{
    if str_eq(name, "class") {
        Some(CaptureKind::Class)
    } else if str_eq(name, "module") {
        Some(CaptureKind::Module)
    } else if str_eq(name, "method") {
        Some(CaptureKind::Method)
    } else if str_eq(name, "class_variable") {
        Some(CaptureKind::ClassVariable)
    } else if str_eq(name, "class_assignment") {
        Some(CaptureKind::ClassAssignment)
    } else if str_eq(name, "function") {
        Some(CaptureKind::Function)
    } else if str_eq(name, "arrow_function") {
        Some(CaptureKind::ArrowFunction)
    } else if str_eq(name, "variable") {
        Some(CaptureKind::Variable)
    } else if str_eq(name, "assignment") {
        Some(CaptureKind::Assignment)
    } else if str_eq(name, "enum_item") {
        Some(CaptureKind::EnumItem)
    } else if str_eq(name, "union_item") {
        Some(CaptureKind::UnionItem)
    } else {
        None
    }
}

} // verus!
