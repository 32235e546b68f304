//! Laws of the serializer, stated and proved once over the ghost
//! model: an outline over newline-free records holds no newline, and a
//! non-empty outline always ends with a semicolon.

use vstd::prelude::*;
use crate::model::{FuncV, VariableV, ClassV, EnumV, UnionV, DefinitionV};
use crate::serialize::{func_str, variable_str, item_str, methods_str, properties_str, items_str,
    class_str, enum_str, union_str, def_str, defs_str};

verus! {

/// No newline stands in the sequence.
pub open spec fn no_nl(s: Seq<char>) -> bool {
    forall|i: int| 0 <= i < s.len() ==> s[i] != '\n'
}

pub open spec fn opt_no_nl(o: Option<Seq<char>>) -> bool {
    match o {
        Some(s) => no_nl(s),
        None => true,
    }
}

/// All strings carried by a function record are newline-free.
pub open spec fn func_clean(f: FuncV) -> bool {
    no_nl(f.name) && no_nl(f.params) && no_nl(f.return_type) && opt_no_nl(
        f.accessibility_modifier,
    )
}

/// All strings carried by a variable record are newline-free.
pub open spec fn variable_clean(v: VariableV) -> bool {
    no_nl(v.name) && no_nl(v.value_type)
}

pub open spec fn funcs_clean(ms: Seq<FuncV>) -> bool {
    forall|i: int| 0 <= i < ms.len() ==> func_clean(#[trigger] ms[i])
}

pub open spec fn variables_clean(vs: Seq<VariableV>) -> bool {
    forall|i: int| 0 <= i < vs.len() ==> variable_clean(#[trigger] vs[i])
}

pub open spec fn class_clean(c: ClassV) -> bool {
    no_nl(c.kind_label) && no_nl(c.name) && funcs_clean(c.methods) && variables_clean(
        c.properties,
    )
}

/// All strings carried by one outline element are newline-free.
pub open spec fn def_clean(d: DefinitionV) -> bool {
    match d {
        DefinitionV::Func(f) => func_clean(f),
        DefinitionV::Class(c) => class_clean(c),
        DefinitionV::Module(c) => class_clean(c),
        DefinitionV::Enum(e) => no_nl(e.name) && variables_clean(e.items),
        DefinitionV::Variable(v) => variable_clean(v),
        DefinitionV::Union(u) => no_nl(u.name) && variables_clean(u.items),
    }
}

pub open spec fn defs_clean(ds: Seq<DefinitionV>) -> bool {
    forall|i: int| 0 <= i < ds.len() ==> def_clean(#[trigger] ds[i])
}

pub proof fn lemma_no_nl_concat(a: Seq<char>, b: Seq<char>)
    requires
        no_nl(a),
        no_nl(b),
    ensures
        no_nl(a + b),
{
    assert forall|i: int| 0 <= i < (a + b).len() implies (a + b)[i] != '\n' by {
        if i < a.len() {
            assert((a + b)[i] == a[i]);
        } else {
            assert((a + b)[i] == b[i - a.len()]);
        }
    }
}

/// The serializer's fixed pieces hold no newline.
proof fn lemma_literals_no_nl()
    ensures
        no_nl("func "@),
        no_nl("()"@),
        no_nl(" -> "@),
        no_nl(" "@),
        no_nl(";"@),
        no_nl("var "@),
        no_nl(":"@),
        no_nl("{"@),
        no_nl("};"@),
        no_nl("enum "@),
        no_nl("union "@),
{
    reveal_strlit("func ");
    reveal_strlit("()");
    reveal_strlit(" -> ");
    reveal_strlit(" ");
    reveal_strlit(";");
    reveal_strlit("var ");
    reveal_strlit(":");
    reveal_strlit("{");
    reveal_strlit("};");
    reveal_strlit("enum ");
    reveal_strlit("union ");
}

pub proof fn lemma_func_str_no_nl(f: FuncV)
    requires
        func_clean(f),
    ensures
        no_nl(func_str(f)),
{
    lemma_literals_no_nl();
    let base = "func "@ + f.name;
    lemma_no_nl_concat("func "@, f.name);
    let with_params = if f.params.len() == 0 {
        base + "()"@
    } else {
        base + f.params
    };
    if f.params.len() == 0 {
        lemma_no_nl_concat(base, "()"@);
    } else {
        lemma_no_nl_concat(base, f.params);
    }
    let with_ret = if f.return_type.len() == 0 {
        with_params
    } else {
        with_params + " -> "@ + f.return_type
    };
    if f.return_type.len() != 0 {
        lemma_no_nl_concat(with_params, " -> "@);
        lemma_no_nl_concat(with_params + " -> "@, f.return_type);
    }
    match f.accessibility_modifier {
        Some(m) => {
            lemma_no_nl_concat(m, " "@);
            lemma_no_nl_concat(m + " "@, with_ret);
            lemma_no_nl_concat(m + " "@ + with_ret, ";"@);
        },
        None => {
            lemma_no_nl_concat(with_ret, ";"@);
        },
    }
}

pub proof fn lemma_variable_str_no_nl(v: VariableV)
    requires
        variable_clean(v),
    ensures
        no_nl(variable_str(v)),
{
    lemma_literals_no_nl();
    lemma_no_nl_concat("var "@, v.name);
    let base = "var "@ + v.name;
    if v.value_type.len() != 0 {
        lemma_no_nl_concat(base, ":"@);
        lemma_no_nl_concat(base + ":"@, v.value_type);
        lemma_no_nl_concat(base + ":"@ + v.value_type, ";"@);
    } else {
        lemma_no_nl_concat(base, ";"@);
    }
}

pub proof fn lemma_item_str_no_nl(v: VariableV)
    requires
        variable_clean(v),
    ensures
        no_nl(item_str(v)),
{
    lemma_literals_no_nl();
    if v.value_type.len() != 0 {
        lemma_no_nl_concat(v.name, ":"@);
        lemma_no_nl_concat(v.name + ":"@, v.value_type);
        lemma_no_nl_concat(v.name + ":"@ + v.value_type, ";"@);
    } else {
        lemma_no_nl_concat(v.name, ";"@);
    }
}

pub proof fn lemma_methods_str_no_nl(ms: Seq<FuncV>)
    requires
        funcs_clean(ms),
    ensures
        no_nl(methods_str(ms)),
    decreases ms.len(),
{
    if ms.len() > 0 {
        lemma_func_str_no_nl(ms.first());
        lemma_methods_str_no_nl(ms.drop_first());
        lemma_no_nl_concat(func_str(ms.first()), methods_str(ms.drop_first()));
    }
}

pub proof fn lemma_properties_str_no_nl(ps: Seq<VariableV>)
    requires
        variables_clean(ps),
    ensures
        no_nl(properties_str(ps)),
    decreases ps.len(),
{
    if ps.len() > 0 {
        lemma_variable_str_no_nl(ps.first());
        lemma_properties_str_no_nl(ps.drop_first());
        lemma_no_nl_concat(variable_str(ps.first()), properties_str(ps.drop_first()));
    }
}

pub proof fn lemma_items_str_no_nl(is: Seq<VariableV>)
    requires
        variables_clean(is),
    ensures
        no_nl(items_str(is)),
    decreases is.len(),
{
    if is.len() > 0 {
        lemma_item_str_no_nl(is.first());
        lemma_items_str_no_nl(is.drop_first());
        lemma_no_nl_concat(item_str(is.first()), items_str(is.drop_first()));
    }
}

pub proof fn lemma_def_str_no_nl(d: DefinitionV)
    requires
        def_clean(d),
    ensures
        no_nl(def_str(d)),
{
    lemma_literals_no_nl();
    match d {
        DefinitionV::Func(f) => {
            lemma_func_str_no_nl(f);
        },
        DefinitionV::Variable(v) => {
            lemma_variable_str_no_nl(v);
        },
        DefinitionV::Class(c) => {
            lemma_class_str_no_nl(c);
        },
        DefinitionV::Module(c) => {
            lemma_class_str_no_nl(c);
        },
        DefinitionV::Enum(e) => {
            lemma_items_str_no_nl(e.items);
            lemma_no_nl_concat("enum "@, e.name);
            lemma_no_nl_concat("enum "@ + e.name, "{"@);
            lemma_no_nl_concat("enum "@ + e.name + "{"@, items_str(e.items));
            lemma_no_nl_concat("enum "@ + e.name + "{"@ + items_str(e.items), "};"@);
        },
        DefinitionV::Union(u) => {
            lemma_items_str_no_nl(u.items);
            lemma_no_nl_concat("union "@, u.name);
            lemma_no_nl_concat("union "@ + u.name, "{"@);
            lemma_no_nl_concat("union "@ + u.name + "{"@, items_str(u.items));
            lemma_no_nl_concat("union "@ + u.name + "{"@ + items_str(u.items), "};"@);
        },
    }
}

pub proof fn lemma_class_str_no_nl(c: ClassV)
    requires
        class_clean(c),
    ensures
        no_nl(class_str(c)),
{
    lemma_literals_no_nl();
    lemma_methods_str_no_nl(c.methods);
    lemma_properties_str_no_nl(c.properties);
    lemma_no_nl_concat(c.kind_label, " "@);
    lemma_no_nl_concat(c.kind_label + " "@, c.name);
    lemma_no_nl_concat(c.kind_label + " "@ + c.name, "{"@);
    lemma_no_nl_concat(c.kind_label + " "@ + c.name + "{"@, methods_str(c.methods));
    lemma_no_nl_concat(
        c.kind_label + " "@ + c.name + "{"@ + methods_str(c.methods),
        properties_str(c.properties),
    );
    lemma_no_nl_concat(
        c.kind_label + " "@ + c.name + "{"@ + methods_str(c.methods) + properties_str(
            c.properties,
        ),
        "};"@,
    );
}

/// An outline over newline-free records holds no newline.
pub proof fn lemma_outline_no_newlines(ds: Seq<DefinitionV>)
    requires
        defs_clean(ds),
    ensures
        no_nl(defs_str(ds)),
    decreases ds.len(),
{
    if ds.len() > 0 {
        lemma_def_str_no_nl(ds.first());
        assert(defs_clean(ds.drop_first())) by {
            assert(forall|i: int| 0 <= i < ds.drop_first().len() ==> #[trigger] ds.drop_first()[i]
                == ds[i + 1]);
        }
        lemma_outline_no_newlines(ds.drop_first());
        lemma_no_nl_concat(def_str(ds.first()), defs_str(ds.drop_first()));
    }
}

/// Each rendered element is non-empty and ends with a semicolon.
pub proof fn lemma_def_str_semicolon(d: DefinitionV)
    ensures
        def_str(d).len() > 0,
        def_str(d).last() == ';',
{
    reveal_strlit(";");
    reveal_strlit("};");
    match d {
        DefinitionV::Func(f) => {
            assert(func_str(f).last() == ';');
        },
        DefinitionV::Variable(v) => {
            assert(variable_str(v).last() == ';');
        },
        DefinitionV::Class(c) => {
            assert(class_str(c).last() == ';');
        },
        DefinitionV::Module(c) => {
            assert(class_str(c).last() == ';');
        },
        DefinitionV::Enum(e) => {
            assert(enum_str(e).last() == ';');
        },
        DefinitionV::Union(u) => {
            assert(union_str(u).last() == ';');
        },
    }
}

/// A non-empty outline ends with a semicolon.
pub proof fn lemma_outline_ends_semicolon(ds: Seq<DefinitionV>)
    ensures
        ds.len() == 0 ==> defs_str(ds).len() == 0,
        defs_str(ds).len() > 0 ==> defs_str(ds).last() == ';',
    decreases ds.len(),
{
    if ds.len() > 0 {
        lemma_def_str_semicolon(ds.first());
        lemma_outline_ends_semicolon(ds.drop_first());
        if defs_str(ds.drop_first()).len() == 0 {
            assert(defs_str(ds).last() == def_str(ds.first()).last());
        } else {
            assert(defs_str(ds).last() == defs_str(ds.drop_first()).last());
        }
    }
}

} // verus!
