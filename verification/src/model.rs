//! The symbol model: the records an outline is made of.
//!
//! All records are plain values; a record never changes once it has been
//! placed in a `Definition`. Each executable type has a ghost counterpart
//! (its view) over `Seq<char>`, which the contracts speak of.

use vstd::prelude::*;

verus! {

/// A function symbol: a top-level function or a method of a class.
pub struct Func {
    pub name: String,
    pub params: String,
    pub return_type: String,
    pub accessibility_modifier: Option<String>,
}

/// A variable symbol: a top-level variable, a class property, or an
/// enum/union item.
pub struct Variable {
    pub name: String,
    pub value_type: String,
}

/// A class-like container: a class, struct, trait or module, with its
/// methods and properties in insertion order.
pub struct Class {
    pub kind_label: String,
    pub name: String,
    pub methods: Vec<Func>,
    pub properties: Vec<Variable>,
    pub visibility_modifier: Option<String>,
}

/// An enum container with its items in insertion order.
pub struct Enum {
    pub name: String,
    pub items: Vec<Variable>,
}

/// A union container with its items in insertion order.
pub struct Union {
    pub name: String,
    pub items: Vec<Variable>,
}

/// One element of the outline stream.
pub enum Definition {
    Func(Func),
    Class(Class),
    Module(Class),
    Enum(Enum),
    Variable(Variable),
    Union(Union),
}

/// Ghost counterpart of `Func`.
#[verifier::ext_equal]
pub struct FuncV {
    pub name: Seq<char>,
    pub params: Seq<char>,
    pub return_type: Seq<char>,
    pub accessibility_modifier: Option<Seq<char>>,
}

/// Ghost counterpart of `Variable`.
#[verifier::ext_equal]
pub struct VariableV {
    pub name: Seq<char>,
    pub value_type: Seq<char>,
}

/// Ghost counterpart of `Class`.
#[verifier::ext_equal]
pub struct ClassV {
    pub kind_label: Seq<char>,
    pub name: Seq<char>,
    pub methods: Seq<FuncV>,
    pub properties: Seq<VariableV>,
    pub visibility_modifier: Option<Seq<char>>,
}

/// Ghost counterpart of `Enum`.
#[verifier::ext_equal]
pub struct EnumV {
    pub name: Seq<char>,
    pub items: Seq<VariableV>,
}

/// Ghost counterpart of `Union`.
#[verifier::ext_equal]
pub struct UnionV {
    pub name: Seq<char>,
    pub items: Seq<VariableV>,
}

/// Ghost counterpart of `Definition`.
#[verifier::ext_equal]
pub enum DefinitionV {
    Func(FuncV),
    Class(ClassV),
    Module(ClassV),
    Enum(EnumV),
    Variable(VariableV),
    Union(UnionV),
}

pub open spec fn opt_view(o: Option<String>) -> Option<Seq<char>> {
    match o {
        Some(s) => Some(s@),
        None => None,
    }
}

impl View for Func {
    type V = FuncV;

    open spec fn view(&self) -> FuncV {
        FuncV {
            name: self.name@,
            params: self.params@,
            return_type: self.return_type@,
            accessibility_modifier: opt_view(self.accessibility_modifier),
        }
    }
}

impl View for Variable {
    type V = VariableV;

    open spec fn view(&self) -> VariableV {
        VariableV { name: self.name@, value_type: self.value_type@ }
    }
}

impl View for Class {
    type V = ClassV;

    open spec fn view(&self) -> ClassV {
        ClassV {
            kind_label: self.kind_label@,
            name: self.name@,
            methods: self.methods@.map_values(|f: Func| f@),
            properties: self.properties@.map_values(|v: Variable| v@),
            visibility_modifier: opt_view(self.visibility_modifier),
        }
    }
}

impl View for Enum {
    type V = EnumV;

    open spec fn view(&self) -> EnumV {
        EnumV { name: self.name@, items: self.items@.map_values(|v: Variable| v@) }
    }
}

impl View for Union {
    type V = UnionV;

    open spec fn view(&self) -> UnionV {
        UnionV { name: self.name@, items: self.items@.map_values(|v: Variable| v@) }
    }
}

impl View for Definition {
    type V = DefinitionV;

    open spec fn view(&self) -> DefinitionV {
        match self {
            Definition::Func(f) => DefinitionV::Func(f@),
            Definition::Class(c) => DefinitionV::Class(c@),
            Definition::Module(c) => DefinitionV::Module(c@),
            Definition::Enum(e) => DefinitionV::Enum(e@),
            Definition::Variable(v) => DefinitionV::Variable(v@),
            Definition::Union(u) => DefinitionV::Union(u@),
        }
    }
}

} // verus!
