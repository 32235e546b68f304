//! The serializer: a pure rendering of the symbol model into the flat
//! outline string. Each executable renderer is proved equal to its
//! ghost counterpart, so the outline is pinned down exactly.

use vstd::prelude::*;
use vstd::string::StringExecFns;
use crate::model::{Func, Variable, Class, Enum, Union, Definition, FuncV, VariableV, ClassV, EnumV, UnionV, DefinitionV};

verus! {

/// Rendering of one function symbol.
pub open spec fn func_str(f: FuncV) -> Seq<char> {
    let base = "func "@ + f.name;
    let with_params = if f.params.len() == 0 {
        base + "()"@
    } else {
        base + f.params
    };
    let with_ret = if f.return_type.len() == 0 {
        with_params
    } else {
        with_params + " -> "@ + f.return_type
    };
    let with_mod = match f.accessibility_modifier {
        Some(m) => m + " "@ + with_ret,
        None => with_ret,
    };
    with_mod + ";"@
}

/// Rendering of one variable symbol.
pub open spec fn variable_str(v: VariableV) -> Seq<char> {
    let base = "var "@ + v.name;
    let with_ty = if v.value_type.len() == 0 {
        base
    } else {
        base + ":"@ + v.value_type
    };
    with_ty + ";"@
}

/// Rendering of one enum or union item.
pub open spec fn item_str(v: VariableV) -> Seq<char> {
    let with_ty = if v.value_type.len() == 0 {
        v.name
    } else {
        v.name + ":"@ + v.value_type
    };
    with_ty + ";"@
}

/// Rendering of a method sequence, in order.
pub open spec fn methods_str(ms: Seq<FuncV>) -> Seq<char>
    decreases ms.len(),
{
    if ms.len() == 0 {
        Seq::empty()
    } else {
        func_str(ms.first()) + methods_str(ms.drop_first())
    }
}

/// Rendering of a property sequence, in order.
pub open spec fn properties_str(ps: Seq<VariableV>) -> Seq<char>
    decreases ps.len(),
{
    if ps.len() == 0 {
        Seq::empty()
    } else {
        variable_str(ps.first()) + properties_str(ps.drop_first())
    }
}

/// Rendering of an enum/union item sequence, in order.
pub open spec fn items_str(is: Seq<VariableV>) -> Seq<char>
    decreases is.len(),
{
    if is.len() == 0 {
        Seq::empty()
    } else {
        item_str(is.first()) + items_str(is.drop_first())
    }
}

/// Rendering of one class-like container.
pub open spec fn class_str(c: ClassV) -> Seq<char> {
    c.kind_label + " "@ + c.name + "{"@ + methods_str(c.methods) + properties_str(c.properties)
        + "};"@
}

/// Rendering of one enum container.
pub open spec fn enum_str(e: EnumV) -> Seq<char> {
    "enum "@ + e.name + "{"@ + items_str(e.items) + "};"@
}

/// Rendering of one union container.
pub open spec fn union_str(u: UnionV) -> Seq<char> {
    "union "@ + u.name + "{"@ + items_str(u.items) + "};"@
}

/// Rendering of one outline element.
pub open spec fn def_str(d: DefinitionV) -> Seq<char> {
    match d {
        DefinitionV::Func(f) => func_str(f),
        DefinitionV::Class(c) => class_str(c),
        DefinitionV::Module(c) => class_str(c),
        DefinitionV::Enum(e) => enum_str(e),
        DefinitionV::Variable(v) => variable_str(v),
        DefinitionV::Union(u) => union_str(u),
    }
}

/// Rendering of the whole outline stream, in order.
pub open spec fn defs_str(ds: Seq<DefinitionV>) -> Seq<char>
    decreases ds.len(),
{
    if ds.len() == 0 {
        Seq::empty()
    } else {
        def_str(ds.first()) + defs_str(ds.drop_first())
    }
}

pub proof fn lemma_methods_str_push(ms: Seq<FuncV>, f: FuncV)
    ensures
        methods_str(ms.push(f)) == methods_str(ms) + func_str(f),
    decreases ms.len(),
{
    if ms.len() == 0 {
        assert(ms.push(f).drop_first() =~= Seq::<FuncV>::empty());
        assert(methods_str(Seq::<FuncV>::empty()) == Seq::<char>::empty());
        assert(methods_str(ms.push(f)) =~= func_str(f));
        assert(methods_str(ms) + func_str(f) =~= func_str(f));
    } else {
        assert(ms.push(f).drop_first() =~= ms.drop_first().push(f));
        assert(ms.push(f).first() == ms.first());
        lemma_methods_str_push(ms.drop_first(), f);
        assert(methods_str(ms.push(f)) =~= methods_str(ms) + func_str(f));
    }
}

pub proof fn lemma_properties_str_push(ps: Seq<VariableV>, v: VariableV)
    ensures
        properties_str(ps.push(v)) == properties_str(ps) + variable_str(v),
    decreases ps.len(),
{
    if ps.len() == 0 {
        assert(ps.push(v).drop_first() =~= Seq::<VariableV>::empty());
        assert(properties_str(Seq::<VariableV>::empty()) == Seq::<char>::empty());
        assert(properties_str(ps.push(v)) =~= variable_str(v));
        assert(properties_str(ps) + variable_str(v) =~= variable_str(v));
    } else {
        assert(ps.push(v).drop_first() =~= ps.drop_first().push(v));
        assert(ps.push(v).first() == ps.first());
        lemma_properties_str_push(ps.drop_first(), v);
        assert(properties_str(ps.push(v)) =~= properties_str(ps) + variable_str(v));
    }
}

pub proof fn lemma_items_str_push(is: Seq<VariableV>, v: VariableV)
    ensures
        items_str(is.push(v)) == items_str(is) + item_str(v),
    decreases is.len(),
{
    if is.len() == 0 {
        assert(is.push(v).drop_first() =~= Seq::<VariableV>::empty());
        assert(items_str(Seq::<VariableV>::empty()) == Seq::<char>::empty());
        assert(items_str(is.push(v)) =~= item_str(v));
        assert(items_str(is) + item_str(v) =~= item_str(v));
    } else {
        assert(is.push(v).drop_first() =~= is.drop_first().push(v));
        assert(is.push(v).first() == is.first());
        lemma_items_str_push(is.drop_first(), v);
        assert(items_str(is.push(v)) =~= items_str(is) + item_str(v));
    }
}

pub proof fn lemma_defs_str_push(ds: Seq<DefinitionV>, d: DefinitionV)
    ensures
        defs_str(ds.push(d)) == defs_str(ds) + def_str(d),
    decreases ds.len(),
{
    if ds.len() == 0 {
        assert(ds.push(d).drop_first() =~= Seq::<DefinitionV>::empty());
        assert(defs_str(Seq::<DefinitionV>::empty()) == Seq::<char>::empty());
        assert(defs_str(ds.push(d)) =~= def_str(d));
        assert(defs_str(ds) + def_str(d) =~= def_str(d));
    } else {
        assert(ds.push(d).drop_first() =~= ds.drop_first().push(d));
        assert(ds.push(d).first() == ds.first());
        lemma_defs_str_push(ds.drop_first(), d);
        assert(defs_str(ds.push(d)) =~= defs_str(ds) + def_str(d));
    }
}

/// Render one function symbol.
pub fn stringify_function(func: &Func) -> (r: String)
    ensures
        r@ == func_str(func@),
{
    let mut res = String::from_str("func ");
    res.append(func.name.as_str());
    if func.params.as_str().is_empty() {
        res.append("()");
    } else {
        res.append(func.params.as_str());
    }
    if !func.return_type.as_str().is_empty() {
        res.append(" -> ");
        res.append(func.return_type.as_str());
    }
    let mut out: String = match &func.accessibility_modifier {
        Some(m) => {
            let mut o = m.clone();
            o.append(" ");
            o.append(res.as_str());
            o
        },
        None => res,
    };
    out.append(";");
    proof {
        assert(out@ =~= func_str(func@));
    }
    out
}

/// Render one variable symbol.
pub fn stringify_variable(variable: &Variable) -> (r: String)
    ensures
        r@ == variable_str(variable@),
{
    let mut res = String::from_str("var ");
    res.append(variable.name.as_str());
    if !variable.value_type.as_str().is_empty() {
        res.append(":");
        res.append(variable.value_type.as_str());
    }
    res.append(";");
    proof {
        assert(res@ =~= variable_str(variable@));
    }
    res
}

/// Render one enum item.
pub fn stringify_enum_item(item: &Variable) -> (r: String)
    ensures
        r@ == item_str(item@),
{
    let mut res = item.name.clone();
    if !item.value_type.as_str().is_empty() {
        res.append(":");
        res.append(item.value_type.as_str());
    }
    res.append(";");
    proof {
        assert(res@ =~= item_str(item@));
    }
    res
}

/// Render one union item.
pub fn stringify_union_item(item: &Variable) -> (r: String)
    ensures
        r@ == item_str(item@),
{
    stringify_enum_item(item)
}

/// Render one class-like container with its methods and properties.
pub fn stringify_class(class: &Class) -> (r: String)
    ensures
        r@ == class_str(class@),
{
    let mut res = class.kind_label.clone();
    res.append(" ");
    res.append(class.name.as_str());
    res.append("{");
    let ghost header = class.kind_label@ + " "@ + class.name@ + "{"@;
    assert(res@ == header);
    let mut i: usize = 0;
    while i < class.methods.len()
        invariant
            0 <= i <= class.methods.len(),
            res@ == header + methods_str(class@.methods.take(i as int)),
        decreases class.methods.len() - i,
    {
        let m = stringify_function(&class.methods[i]);
        res.append(m.as_str());
        proof {
            assert(class@.methods.take(i + 1).drop_last() =~= class@.methods.take(i as int));
            assert(class@.methods.take(i + 1) =~= class@.methods.take(i as int).push(
                class@.methods[i as int],
            ));
            lemma_methods_str_push(class@.methods.take(i as int), class@.methods[i as int]);
            assert(class@.methods[i as int] == class.methods[i as int]@);
        }
        i += 1;
    }
    proof {
        assert(class@.methods.take(class.methods.len() as int) =~= class@.methods);
    }
    let mut j: usize = 0;
    while j < class.properties.len()
        invariant
            0 <= j <= class.properties.len(),
            res@ == header + methods_str(class@.methods) + properties_str(
                class@.properties.take(j as int),
            ),
        decreases class.properties.len() - j,
    {
        let p = stringify_variable(&class.properties[j]);
        res.append(p.as_str());
        proof {
            assert(class@.properties.take(j + 1) =~= class@.properties.take(j as int).push(
                class@.properties[j as int],
            ));
            lemma_properties_str_push(class@.properties.take(j as int), class@.properties[j as int]);
            assert(class@.properties[j as int] == class.properties[j as int]@);
        }
        j += 1;
    }
    proof {
        assert(class@.properties.take(class.properties.len() as int) =~= class@.properties);
    }
    res.append("};");
    proof {
        assert(res@ =~= class_str(class@));
    }
    res
}

/// Render one enum container.
pub fn stringify_enum(enum_def: &Enum) -> (r: String)
    ensures
        r@ == enum_str(enum_def@),
{
    let mut res = String::from_str("enum ");
    res.append(enum_def.name.as_str());
    res.append("{");
    let ghost header = "enum "@ + enum_def.name@ + "{"@;
    assert(res@ == header);
    let mut i: usize = 0;
    while i < enum_def.items.len()
        invariant
            0 <= i <= enum_def.items.len(),
            res@ == header + items_str(enum_def@.items.take(i as int)),
        decreases enum_def.items.len() - i,
    {
        let s = stringify_enum_item(&enum_def.items[i]);
        res.append(s.as_str());
        proof {
            assert(enum_def@.items.take(i + 1) =~= enum_def@.items.take(i as int).push(
                enum_def@.items[i as int],
            ));
            lemma_items_str_push(enum_def@.items.take(i as int), enum_def@.items[i as int]);
            assert(enum_def@.items[i as int] == enum_def.items[i as int]@);
        }
        i += 1;
    }
    proof {
        assert(enum_def@.items.take(enum_def.items.len() as int) =~= enum_def@.items);
    }
    res.append("};");
    proof {
        assert(res@ =~= enum_str(enum_def@));
    }
    res
}

/// Render one union container.
pub fn stringify_union(union_def: &Union) -> (r: String)
    ensures
        r@ == union_str(union_def@),
{
    let mut res = String::from_str("union ");
    res.append(union_def.name.as_str());
    res.append("{");
    let ghost header = "union "@ + union_def.name@ + "{"@;
    assert(res@ == header);
    let mut i: usize = 0;
    while i < union_def.items.len()
        invariant
            0 <= i <= union_def.items.len(),
            res@ == header + items_str(union_def@.items.take(i as int)),
        decreases union_def.items.len() - i,
    {
        let s = stringify_union_item(&union_def.items[i]);
        res.append(s.as_str());
        proof {
            assert(union_def@.items.take(i + 1) =~= union_def@.items.take(i as int).push(
                union_def@.items[i as int],
            ));
            lemma_items_str_push(union_def@.items.take(i as int), union_def@.items[i as int]);
            assert(union_def@.items[i as int] == union_def.items[i as int]@);
        }
        i += 1;
    }
    proof {
        assert(union_def@.items.take(union_def.items.len() as int) =~= union_def@.items);
    }
    res.append("};");
    proof {
        assert(res@ =~= union_str(union_def@));
    }
    res
}

/// Render the whole outline stream.
pub fn stringify_definitions(definitions: &Vec<Definition>) -> (r: String)
    ensures
        r@ == defs_str(definitions@.map_values(|d: Definition| d@)),
{
    let ghost dv = definitions@.map_values(|d: Definition| d@);
    let mut res = String::new();
    let mut i: usize = 0;
    while i < definitions.len()
        invariant
            0 <= i <= definitions.len(),
            dv == definitions@.map_values(|d: Definition| d@),
            dv.len() == definitions@.len(),
            res@ == defs_str(dv.take(i as int)),
        decreases definitions.len() - i,
    {
        let piece: String = match &definitions[i] {
            Definition::Func(f) => stringify_function(f),
            Definition::Class(c) => stringify_class(c),
            Definition::Module(c) => stringify_class(c),
            Definition::Enum(e) => stringify_enum(e),
            Definition::Variable(v) => stringify_variable(v),
            Definition::Union(u) => stringify_union(u),
        };
        res.append(piece.as_str());
        proof {
            assert(dv.take(i + 1) =~= dv.take(i as int).push(dv[i as int]));
            lemma_defs_str_push(dv.take(i as int), dv[i as int]);
            assert(dv[i as int] == definitions@[i as int]@);
            assert(piece@ == def_str(dv[i as int]));
        }
        i += 1;
    }
    proof {
        assert(dv.take(definitions.len() as int) =~= dv);
    }
    res
}

} // verus!
