//! The pattern scripts: for each language, the set of tree queries
//! that label the nodes of interest with the eleven capture kinds the
//! symbol builder understands.

use vstd::prelude::*;
use crate::lang::Lang;

verus! {

pub const RUST_SCRIPT: &'static str = r#"(source_file (const_item) @variable)
(source_file (static_item) @variable)
(source_file (function_item) @function)
(impl_item body: (declaration_list (function_item) @method))
(struct_item) @class
(field_declaration) @class_variable
(enum_variant) @enum_item
"#;

pub const PYTHON_SCRIPT: &'static str = r#"(module (expression_statement (assignment) @assignment))
(module (function_definition) @function)
(module (class_definition) @class)
(module (class_definition body: (block (function_definition) @method)))
"#;

pub const PHP_SCRIPT: &'static str = r#"(class_declaration) @class
(class_declaration body: (declaration_list (method_declaration) @method))
(class_declaration body: (declaration_list (property_declaration (property_element (variable_name) @class_variable))))
(program (function_definition) @function)
"#;

pub const JAVA_SCRIPT: &'static str = r#"(program (class_declaration) @class)
(class_declaration body: (class_body (method_declaration) @method))
(class_declaration body: (class_body (field_declaration) @class_variable))
"#;

pub const JAVASCRIPT_SCRIPT: &'static str = r#"(program (export_statement (lexical_declaration (variable_declarator) @variable)))
(program (export_statement (function_declaration) @function))
(program (export_statement (class_declaration) @class))
(program (export_statement (class_declaration body: (class_body (method_definition) @method))))
"#;

pub const TYPESCRIPT_SCRIPT: &'static str = r#"(program (export_statement (lexical_declaration (variable_declarator) @variable)))
(program (export_statement (function_declaration) @function))
(program (export_statement (class_declaration) @class))
(program (export_statement (class_declaration body: (class_body (method_definition) @method))))
(program (export_statement (class_declaration body: (class_body (public_field_definition) @class_variable))))
"#;

pub const GO_SCRIPT: &'static str = r#"(source_file (const_declaration (const_spec) @variable))
(source_file (var_declaration (var_spec) @variable))
(source_file (function_declaration) @function)
(source_file (method_declaration) @method)
(source_file (type_declaration (type_spec) @class))
(source_file (type_declaration (type_spec (struct_type (field_declaration_list (field_declaration) @class_variable)))))
"#;

pub const C_SCRIPT: &'static str = r#"(translation_unit (declaration (init_declarator declarator: (identifier) @variable)))
(translation_unit (declaration declarator: (identifier) @variable))
(function_definition declarator: (function_declarator declarator: (identifier) @function))
(struct_specifier) @class
(enum_specifier body: (enumerator_list (enumerator) @enum_item))
"#;

pub const CPP_SCRIPT: &'static str = r#"(translation_unit (declaration) @variable)
(translation_unit (namespace_definition body: (declaration_list (declaration) @variable)))
(function_definition) @function
(class_specifier) @class
(struct_specifier) @class
(class_specifier body: (field_declaration_list (field_declaration declarator: (function_declarator)) @method))
(class_specifier body: (field_declaration_list (declaration declarator: (function_declarator)) @method))
(class_specifier body: (field_declaration_list (function_definition) @method))
(struct_specifier body: (field_declaration_list (field_declaration declarator: (function_declarator)) @method))
(struct_specifier body: (field_declaration_list (declaration declarator: (function_declarator)) @method))
(struct_specifier body: (field_declaration_list (function_definition) @method))
(class_specifier body: (field_declaration_list (field_declaration declarator: (field_identifier)) @class_variable))
(struct_specifier body: (field_declaration_list (field_declaration declarator: (field_identifier)) @class_variable))
(enum_specifier body: (enumerator_list (enumerator) @enum_item))
"#;

pub const LUA_SCRIPT: &'static str = r#"(chunk (variable_declaration (assignment_statement (variable_list (identifier) @variable))))
(chunk (function_declaration) @function)
"#;

pub const RUBY_SCRIPT: &'static str = r#"(program (assignment) @assignment)
(program (method) @function)
(class) @class
(module) @module
(class (body_statement (method) @method))
(module (body_statement (method) @method))
(class (body_statement (assignment) @class_assignment))
(module (body_statement (assignment) @class_assignment))
"#;

pub const ZIG_SCRIPT: &'static str = r#"(source_file (function_declaration) @function)
(variable_declaration (identifier) @variable)
(function_declaration (identifier) @method)
"#;

pub const SCALA_SCRIPT: &'static str = r#"(compilation_unit (val_definition) @variable)
(compilation_unit (var_definition) @variable)
(object_definition) @class
(class_definition) @class
(trait_definition) @class
(object_definition body: (template_body (function_definition) @method))
(class_definition body: (template_body (function_definition) @method))
(trait_definition body: (template_body (function_definition) @method))
(trait_definition body: (template_body (function_declaration) @method))
(class_definition body: (template_body (val_definition) @class_variable))
(class_definition body: (template_body (var_definition) @class_variable))
(enum_definition body: (enum_body (enum_case_definitions (simple_enum_case) @enum_item)))
"#;

pub const SWIFT_SCRIPT: &'static str = r#"(source_file (property_declaration) @variable)
(class_declaration) @class
(class_declaration body: (class_body (function_declaration) @method))
(class_declaration body: (class_body (property_declaration) @class_variable))
"#;

pub const ELIXIR_SCRIPT: &'static str = r#"(call target: (identifier) @_keyword (arguments (call target: (identifier) @method)) (#eq? @_keyword "def"))
"#;

pub const CSHARP_SCRIPT: &'static str = r#"(class_declaration) @class
(record_declaration) @class
(class_declaration (parameter_list) @method)
(record_declaration (parameter_list) @method)
(class_declaration body: (declaration_list (constructor_declaration) @method))
(class_declaration body: (declaration_list (method_declaration) @method))
(class_declaration body: (declaration_list (property_declaration) @class_variable))
(class_declaration body: (declaration_list (field_declaration) @class_variable))
(enum_declaration body: (enum_member_declaration_list (enum_member_declaration) @enum_item))
"#;

/// The pattern script bundled for a language.
pub open spec fn script_spec(l: Lang) -> Seq<char> {
    match l {
        Lang::Rust => RUST_SCRIPT@,
        Lang::Python => PYTHON_SCRIPT@,
        Lang::Php => PHP_SCRIPT@,
        Lang::Java => JAVA_SCRIPT@,
        Lang::Javascript => JAVASCRIPT_SCRIPT@,
        Lang::Typescript => TYPESCRIPT_SCRIPT@,
        Lang::Go => GO_SCRIPT@,
        Lang::C => C_SCRIPT@,
        Lang::Cpp => CPP_SCRIPT@,
        Lang::Lua => LUA_SCRIPT@,
        Lang::Ruby => RUBY_SCRIPT@,
        Lang::Zig => ZIG_SCRIPT@,
        Lang::Scala => SCALA_SCRIPT@,
        Lang::Swift => SWIFT_SCRIPT@,
        Lang::Elixir => ELIXIR_SCRIPT@,
        Lang::Csharp => CSHARP_SCRIPT@,
    }
}

/// Hand out the bundled pattern script.
pub fn script_for(l: Lang) -> (r: &'static str)
    ensures
        r@ == script_spec(l),
{
    match l {
        Lang::Rust => RUST_SCRIPT,
        Lang::Python => PYTHON_SCRIPT,
        Lang::Php => PHP_SCRIPT,
        Lang::Java => JAVA_SCRIPT,
        Lang::Javascript => JAVASCRIPT_SCRIPT,
        Lang::Typescript => TYPESCRIPT_SCRIPT,
        Lang::Go => GO_SCRIPT,
        Lang::C => C_SCRIPT,
        Lang::Cpp => CPP_SCRIPT,
        Lang::Lua => LUA_SCRIPT,
        Lang::Ruby => RUBY_SCRIPT,
        Lang::Zig => ZIG_SCRIPT,
        Lang::Scala => SCALA_SCRIPT,
        Lang::Swift => SWIFT_SCRIPT,
        Lang::Elixir => ELIXIR_SCRIPT,
        Lang::Csharp => CSHARP_SCRIPT,
    }
}

} // verus!
