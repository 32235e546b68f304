//! Laws of the container maps: the builder keeps each map sorted by
//! name, so a class, enum or union name appears at most once in the
//! final outline stream, whatever the capture stream was.

use vstd::prelude::*;
use crate::model::{ClassV, EnumV, UnionV, DefinitionV, FuncV};
use crate::strutil::{lex_lt, lemma_lex_lt_irrefl, lemma_lex_lt_trans, lemma_lex_lt_total};
use crate::lang::Lang;
use crate::builder::{StateV, find_class, find_class_from, class_pos_from, ensure_class_spec,
    ensure_class_idx, blank_class, lemma_find_class_none, lemma_find_class_at,
    lemma_class_pos_bounds, lemma_ensure_class, find_enum, find_enum_from, enum_pos_from,
    ensure_enum_spec, ensure_enum_idx, lemma_find_enum_none, lemma_find_enum_at,
    lemma_enum_pos_bounds, lemma_ensure_enum, find_union, find_union_from, union_pos_from,
    ensure_union_spec, ensure_union_idx, lemma_find_union_none, lemma_find_union_at,
    lemma_union_pos_bounds, lemma_ensure_union};
use crate::steps::{step, step_class, step_module, step_method, step_class_variable,
    step_class_assignment, step_function, step_assignment, step_variable, step_enum_item,
    step_union_item, add_method, add_property, run_steps, empty_state, class_defs, class_part,
    enum_defs, union_defs, build_model};
use crate::tree::NodeRow;

verus! {

/// The class map is strictly sorted by name.
pub open spec fn sorted_classes(cs: Seq<ClassV>) -> bool {
    forall|i: int, j: int| 0 <= i < j < cs.len() ==> lex_lt(
        (#[trigger] cs[i]).name,
        (#[trigger] cs[j]).name,
    )
}

/// The enum map is strictly sorted by name.
pub open spec fn sorted_enums(es: Seq<EnumV>) -> bool {
    forall|i: int, j: int| 0 <= i < j < es.len() ==> lex_lt(
        (#[trigger] es[i]).name,
        (#[trigger] es[j]).name,
    )
}

/// The union map is strictly sorted by name.
pub open spec fn sorted_unions(us: Seq<UnionV>) -> bool {
    forall|i: int, j: int| 0 <= i < j < us.len() ==> lex_lt(
        (#[trigger] us[i]).name,
        (#[trigger] us[j]).name,
    )
}

/// The top-level stream only ever holds functions and variables; the
/// containers stand in their own maps until the final pass.
pub open spec fn stream_flat(ds: Seq<DefinitionV>) -> bool {
    forall|i: int| 0 <= i < ds.len() ==> ((#[trigger] ds[i]) is Func || ds[i] is Variable)
}

/// The builder's state invariant.
pub open spec fn state_inv(st: StateV) -> bool {
    sorted_classes(st.classes) && sorted_enums(st.enums) && sorted_unions(st.unions) && stream_flat(
        st.defs,
    )
}


proof fn lemma_find_class_range(cs: Seq<ClassV>, name: Seq<char>, j: int)
    requires
        0 <= j <= cs.len(),
    ensures
        find_class_from(cs, name, j) == -1 || find_class_from(cs, name, j) >= j,
    decreases cs.len() - j,
{
    if j < cs.len() && cs[j].name != name {
        lemma_find_class_range(cs, name, j + 1);
    }
}

proof fn lemma_find_enum_range(es: Seq<EnumV>, name: Seq<char>, j: int)
    requires
        0 <= j <= es.len(),
    ensures
        find_enum_from(es, name, j) == -1 || find_enum_from(es, name, j) >= j,
    decreases es.len() - j,
{
    if j < es.len() && es[j].name != name {
        lemma_find_enum_range(es, name, j + 1);
    }
}

proof fn lemma_find_union_range(us: Seq<UnionV>, name: Seq<char>, j: int)
    requires
        0 <= j <= us.len(),
    ensures
        find_union_from(us, name, j) == -1 || find_union_from(us, name, j) >= j,
    decreases us.len() - j,
{
    if j < us.len() && us[j].name != name {
        lemma_find_union_range(us, name, j + 1);
    }
}

/// The scan for the insertion position stops exactly at the first
/// larger name.
proof fn lemma_class_pos_char(cs: Seq<ClassV>, name: Seq<char>, j: int)
    requires
        0 <= j <= cs.len(),
    ensures
        forall|m: int| j <= m < class_pos_from(cs, name, j) ==> !lex_lt(
            name,
            (#[trigger] cs[m]).name,
        ),
        class_pos_from(cs, name, j) < cs.len() ==> lex_lt(
            name,
            cs[class_pos_from(cs, name, j)].name,
        ),
    decreases cs.len() - j,
{
    if j < cs.len() && !lex_lt(name, cs[j].name) {
        lemma_class_pos_char(cs, name, j + 1);
    }
}

/// Fetch-or-create keeps the class map sorted.
pub proof fn lemma_ensure_class_sorted(cs: Seq<ClassV>, label: Seq<char>, name: Seq<char>)
    requires
        sorted_classes(cs),
    ensures
        sorted_classes(ensure_class_spec(cs, label, name)),
        0 <= ensure_class_idx(cs, name) < ensure_class_spec(cs, label, name).len(),
        ensure_class_spec(cs, label, name)[ensure_class_idx(cs, name)].name == name,
{
    if find_class(cs, name) >= 0 {
        lemma_find_class_bounds(cs, name, 0);
    } else {
        lemma_find_class_range(cs, name, 0);
        let p = class_pos_from(cs, name, 0);
        lemma_class_pos_bounds(cs, name, 0);
        lemma_class_pos_char(cs, name, 0);
        lemma_find_class_none(cs, name, 0);
        lemma_ensure_class(cs, label, name);
        let cs2 = cs.insert(p, blank_class(label, name));
        assert forall|i: int, j: int| 0 <= i < j < cs2.len() implies lex_lt(
            (#[trigger] cs2[i]).name,
            (#[trigger] cs2[j]).name,
        ) by {
            if i < p && j < p {
            } else if i < p && j == p {
                assert(cs2[i] == cs[i]);
                assert(!lex_lt(name, cs[i].name));
                assert(cs[i].name != name);
                lemma_lex_lt_total(cs[i].name, name);
            } else if i < p && j > p {
                assert(cs2[i] == cs[i]);
                assert(cs2[j] == cs[j - 1]);
            } else if i == p {
                assert(cs2[j] == cs[j - 1]);
                if j - 1 == p {
                    assert(lex_lt(name, cs[p].name));
                } else {
                    assert(lex_lt(name, cs[p].name));
                    lemma_lex_lt_trans(name, cs[p].name, cs[j - 1].name);
                }
            } else {
                assert(cs2[i] == cs[i - 1]);
                assert(cs2[j] == cs[j - 1]);
            }
        }
    }
}

proof fn lemma_find_class_bounds(cs: Seq<ClassV>, name: Seq<char>, j: int)
    requires
        0 <= j <= cs.len(),
        find_class_from(cs, name, j) >= 0,
    ensures
        j <= find_class_from(cs, name, j) < cs.len(),
        cs[find_class_from(cs, name, j)].name == name,
    decreases cs.len() - j,
{
    if j < cs.len() && cs[j].name != name {
        lemma_find_class_bounds(cs, name, j + 1);
    }
}

/// Replacing a record with one of the same name keeps the map sorted.
pub proof fn lemma_update_class_sorted(cs: Seq<ClassV>, idx: int, c: ClassV)
    requires
        sorted_classes(cs),
        0 <= idx < cs.len(),
        c.name == cs[idx].name,
    ensures
        sorted_classes(cs.update(idx, c)),
{
    assert forall|i: int, j: int| 0 <= i < j < cs.update(idx, c).len() implies lex_lt(
        (#[trigger] cs.update(idx, c)[i]).name,
        (#[trigger] cs.update(idx, c)[j]).name,
    ) by {
        assert(cs.update(idx, c)[i].name == cs[i].name);
        assert(cs.update(idx, c)[j].name == cs[j].name);
    }
}

proof fn lemma_enum_pos_char(es: Seq<EnumV>, name: Seq<char>, j: int)
    requires
        0 <= j <= es.len(),
    ensures
        forall|m: int| j <= m < enum_pos_from(es, name, j) ==> !lex_lt(
            name,
            (#[trigger] es[m]).name,
        ),
        enum_pos_from(es, name, j) < es.len() ==> lex_lt(name, es[enum_pos_from(es, name, j)].name),
    decreases es.len() - j,
{
    if j < es.len() && !lex_lt(name, es[j].name) {
        lemma_enum_pos_char(es, name, j + 1);
    }
}

proof fn lemma_find_enum_bounds(es: Seq<EnumV>, name: Seq<char>, j: int)
    requires
        0 <= j <= es.len(),
        find_enum_from(es, name, j) >= 0,
    ensures
        j <= find_enum_from(es, name, j) < es.len(),
        es[find_enum_from(es, name, j)].name == name,
    decreases es.len() - j,
{
    if j < es.len() && es[j].name != name {
        lemma_find_enum_bounds(es, name, j + 1);
    }
}

/// Fetch-or-create keeps the enum map sorted.
pub proof fn lemma_ensure_enum_sorted(es: Seq<EnumV>, name: Seq<char>)
    requires
        sorted_enums(es),
    ensures
        sorted_enums(ensure_enum_spec(es, name)),
        0 <= ensure_enum_idx(es, name) < ensure_enum_spec(es, name).len(),
        ensure_enum_spec(es, name)[ensure_enum_idx(es, name)].name == name,
{
    if find_enum(es, name) >= 0 {
        lemma_find_enum_bounds(es, name, 0);
    } else {
        lemma_find_enum_range(es, name, 0);
        let p = enum_pos_from(es, name, 0);
        lemma_enum_pos_bounds(es, name, 0);
        lemma_enum_pos_char(es, name, 0);
        lemma_find_enum_none(es, name, 0);
        lemma_ensure_enum(es, name);
        let es2 = es.insert(p, EnumV { name: name, items: Seq::empty() });
        assert forall|i: int, j: int| 0 <= i < j < es2.len() implies lex_lt(
            (#[trigger] es2[i]).name,
            (#[trigger] es2[j]).name,
        ) by {
            if i < p && j < p {
            } else if i < p && j == p {
                assert(es2[i] == es[i]);
                assert(!lex_lt(name, es[i].name));
                assert(es[i].name != name);
                lemma_lex_lt_total(es[i].name, name);
            } else if i < p && j > p {
                assert(es2[i] == es[i]);
                assert(es2[j] == es[j - 1]);
            } else if i == p {
                assert(es2[j] == es[j - 1]);
                if j - 1 == p {
                    assert(lex_lt(name, es[p].name));
                } else {
                    assert(lex_lt(name, es[p].name));
                    lemma_lex_lt_trans(name, es[p].name, es[j - 1].name);
                }
            } else {
                assert(es2[i] == es[i - 1]);
                assert(es2[j] == es[j - 1]);
            }
        }
    }
}

pub proof fn lemma_update_enum_sorted(es: Seq<EnumV>, idx: int, e: EnumV)
    requires
        sorted_enums(es),
        0 <= idx < es.len(),
        e.name == es[idx].name,
    ensures
        sorted_enums(es.update(idx, e)),
{
    assert forall|i: int, j: int| 0 <= i < j < es.update(idx, e).len() implies lex_lt(
        (#[trigger] es.update(idx, e)[i]).name,
        (#[trigger] es.update(idx, e)[j]).name,
    ) by {
        assert(es.update(idx, e)[i].name == es[i].name);
        assert(es.update(idx, e)[j].name == es[j].name);
    }
}

proof fn lemma_union_pos_char(us: Seq<UnionV>, name: Seq<char>, j: int)
    requires
        0 <= j <= us.len(),
    ensures
        forall|m: int| j <= m < union_pos_from(us, name, j) ==> !lex_lt(
            name,
            (#[trigger] us[m]).name,
        ),
        union_pos_from(us, name, j) < us.len() ==> lex_lt(
            name,
            us[union_pos_from(us, name, j)].name,
        ),
    decreases us.len() - j,
{
    if j < us.len() && !lex_lt(name, us[j].name) {
        lemma_union_pos_char(us, name, j + 1);
    }
}

proof fn lemma_find_union_bounds(us: Seq<UnionV>, name: Seq<char>, j: int)
    requires
        0 <= j <= us.len(),
        find_union_from(us, name, j) >= 0,
    ensures
        j <= find_union_from(us, name, j) < us.len(),
        us[find_union_from(us, name, j)].name == name,
    decreases us.len() - j,
{
    if j < us.len() && us[j].name != name {
        lemma_find_union_bounds(us, name, j + 1);
    }
}

/// Fetch-or-create keeps the union map sorted.
pub proof fn lemma_ensure_union_sorted(us: Seq<UnionV>, name: Seq<char>)
    requires
        sorted_unions(us),
    ensures
        sorted_unions(ensure_union_spec(us, name)),
        0 <= ensure_union_idx(us, name) < ensure_union_spec(us, name).len(),
        ensure_union_spec(us, name)[ensure_union_idx(us, name)].name == name,
{
    if find_union(us, name) >= 0 {
        lemma_find_union_bounds(us, name, 0);
    } else {
        lemma_find_union_range(us, name, 0);
        let p = union_pos_from(us, name, 0);
        lemma_union_pos_bounds(us, name, 0);
        lemma_union_pos_char(us, name, 0);
        lemma_find_union_none(us, name, 0);
        lemma_ensure_union(us, name);
        let us2 = us.insert(p, UnionV { name: name, items: Seq::empty() });
        assert forall|i: int, j: int| 0 <= i < j < us2.len() implies lex_lt(
            (#[trigger] us2[i]).name,
            (#[trigger] us2[j]).name,
        ) by {
            if i < p && j < p {
            } else if i < p && j == p {
                assert(us2[i] == us[i]);
                assert(!lex_lt(name, us[i].name));
                assert(us[i].name != name);
                lemma_lex_lt_total(us[i].name, name);
            } else if i < p && j > p {
                assert(us2[i] == us[i]);
                assert(us2[j] == us[j - 1]);
            } else if i == p {
                assert(us2[j] == us[j - 1]);
                if j - 1 == p {
                    assert(lex_lt(name, us[p].name));
                } else {
                    assert(lex_lt(name, us[p].name));
                    lemma_lex_lt_trans(name, us[p].name, us[j - 1].name);
                }
            } else {
                assert(us2[i] == us[i - 1]);
                assert(us2[j] == us[j - 1]);
            }
        }
    }
}

pub proof fn lemma_update_union_sorted(us: Seq<UnionV>, idx: int, u: UnionV)
    requires
        sorted_unions(us),
        0 <= idx < us.len(),
        u.name == us[idx].name,
    ensures
        sorted_unions(us.update(idx, u)),
{
    assert forall|i: int, j: int| 0 <= i < j < us.update(idx, u).len() implies lex_lt(
        (#[trigger] us.update(idx, u)[i]).name,
        (#[trigger] us.update(idx, u)[j]).name,
    ) by {
        assert(us.update(idx, u)[i].name == us[i].name);
        assert(us.update(idx, u)[j].name == us[j].name);
    }
}

/// One capture step preserves the state invariant.
pub proof fn lemma_step_inv(lang: Lang, t: Seq<NodeRow>, st: StateV, cap: (Seq<char>, int))
    requires
        state_inv(st),
    ensures
        state_inv(step(lang, t, st, cap)),
{
    match crate::lang::capture_kind_of(cap.0) {
        None => {
        },
        Some(k) => {
            let node = cap.1;
            if 0 <= node < t.len() && !st.seen.contains((crate::lang::cap_key(k), node)) {
                let st1 = StateV { seen: st.seen.push((crate::lang::cap_key(k), node)), ..st };
                assert(state_inv(st1));
                let name = crate::steps::derive_name(lang, t, k, node);
                lemma_substeps_inv(lang, t, st1, node, name);
            }
        },
    }
}

/// Every per-kind step preserves the state invariant.
proof fn lemma_substeps_inv(lang: Lang, t: Seq<NodeRow>, st: StateV, node: int, name: Seq<char>)
    requires
        state_inv(st),
    ensures
        state_inv(step_class(lang, t, st, node, name)),
        state_inv(step_module(st, name)),
        state_inv(step_method(lang, t, st, node, name)),
        state_inv(step_class_variable(lang, t, st, node, name)),
        state_inv(step_class_assignment(lang, t, st, node)),
        state_inv(step_function(lang, t, st, node, name)),
        state_inv(step_assignment(lang, t, st, node)),
        state_inv(step_variable(lang, t, st, node, name)),
        state_inv(step_enum_item(lang, t, st, node, name)),
        state_inv(step_union_item(lang, t, st, node, name)),
    {
    lemma_ensure_class_sorted(st.classes, crate::steps::class_label(lang), name);
    lemma_ensure_class_sorted(st.classes, "module"@, name);
    let cs1 = ensure_class_spec(st.classes, crate::steps::class_label(lang), name);
    let idx = ensure_class_idx(st.classes, name);
    if 0 <= idx < cs1.len() {
        lemma_update_class_sorted(
            cs1,
            idx,
            ClassV {
                visibility_modifier: crate::steps::opt_of(
                    {
                        let c = crate::tree::child_of_kind(t, node, "visibility_modifier"@);
                        if c >= 0 {
                            t[c].1
                        } else {
                            Seq::empty()
                        }
                    },
                ),
                ..cs1[idx]
            },
        );
    }
    lemma_add_method_inv(
        st,
        crate::steps::class_label(lang),
        crate::steps::method_class_name(lang, t, node),
        FuncV {
            name: name,
            params: crate::steps::method_params(lang, t, node),
            return_type: crate::steps::method_ret(lang, t, node, name),
            accessibility_modifier: crate::steps::opt_of(crate::steps::method_acc(lang, t, node)),
        },
    );
    lemma_add_property_pair(lang, t, st, node, name);
    lemma_enum_union_steps(lang, t, st, node, name);
}

proof fn lemma_add_method_inv(st: StateV, label: Seq<char>, cname: Seq<char>, f: FuncV)
    requires
        state_inv(st),
    ensures
        state_inv(add_method(st, label, cname, f)),
{
    lemma_ensure_class_sorted(st.classes, label, cname);
    let cs1 = ensure_class_spec(st.classes, label, cname);
    let idx = ensure_class_idx(st.classes, cname);
    lemma_update_class_sorted(cs1, idx, ClassV { methods: cs1[idx].methods.push(f), ..cs1[idx] });
}

proof fn lemma_add_property_inv(st: StateV, label: Seq<char>, cname: Seq<char>, v: crate::model::VariableV)
    requires
        state_inv(st),
    ensures
        state_inv(add_property(st, label, cname, v)),
{
    lemma_ensure_class_sorted(st.classes, label, cname);
    let cs1 = ensure_class_spec(st.classes, label, cname);
    let idx = ensure_class_idx(st.classes, cname);
    lemma_update_class_sorted(
        cs1,
        idx,
        ClassV { properties: cs1[idx].properties.push(v), ..cs1[idx] },
    );
}

proof fn lemma_add_property_pair(lang: Lang, t: Seq<NodeRow>, st: StateV, node: int, name: Seq<char>)
    requires
        state_inv(st),
    ensures
        state_inv(step_class_variable(lang, t, st, node, name)),
        state_inv(step_class_assignment(lang, t, st, node)),
{
    let label = crate::steps::class_label(lang);
    let vt = crate::extract::node_type_of(t, node);
    let cn0 = crate::tree::closest_ancestor_name(t, node);
    let cn1 = if lang == Lang::Cpp {
        crate::steps::cpp_container_name(t, node)
    } else {
        cn0
    };
    let cn = if lang == Lang::Zig {
        crate::steps::opt_or_empty(crate::extract::zig_vardecl_name(t, node))
    } else {
        cn1
    };
    lemma_add_property_inv(st, label, cn, crate::model::VariableV { name: name, value_type: vt });
    let left = {
        let l = crate::tree::child_by_field(t, node, "left"@);
        if l >= 0 {
            t[l].1
        } else {
            Seq::empty()
        }
    };
    let cna = if cn0.len() > 0 && lang == Lang::Ruby {
        match crate::extract::ruby_path(t, node) {
            Some(p) => p,
            None => cn0,
        }
    } else {
        cn0
    };
    lemma_add_property_inv(
        st,
        label,
        cna,
        crate::model::VariableV { name: left, value_type: vt },
    );
}

proof fn lemma_enum_union_steps(lang: Lang, t: Seq<NodeRow>, st: StateV, node: int, name: Seq<char>)
    requires
        state_inv(st),
    ensures
        state_inv(step_enum_item(lang, t, st, node, name)),
        state_inv(step_union_item(lang, t, st, node, name)),
{
    let en0 = crate::tree::closest_ancestor_name(t, node);
    let en1 = if lang == Lang::Zig {
        crate::steps::opt_or_empty(crate::extract::zig_vardecl_name(t, node))
    } else {
        en0
    };
    let en = if lang == Lang::Scala {
        let e = crate::tree::anc_of_kind(t, node, "enum_definition"@);
        let c = if e >= 0 {
            crate::tree::child_by_field(t, e, "name"@)
        } else {
            -1
        };
        if c >= 0 {
            t[c].1
        } else {
            en1
        }
    } else {
        en1
    };
    lemma_ensure_enum_sorted(st.enums, en);
    let es1 = ensure_enum_spec(st.enums, en);
    let eidx = ensure_enum_idx(st.enums, en);
    let ty = crate::extract::desc_text(t, node, "type_identifier"@);
    lemma_update_enum_sorted(
        es1,
        eidx,
        EnumV {
            items: es1[eidx].items.push(crate::model::VariableV { name: name, value_type: ty }),
            ..es1[eidx]
        },
    );
    let un = crate::steps::opt_or_empty(crate::extract::zig_vardecl_name(t, node));
    lemma_ensure_union_sorted(st.unions, un);
    let us1 = ensure_union_spec(st.unions, un);
    let uidx = ensure_union_idx(st.unions, un);
    lemma_update_union_sorted(
        us1,
        uidx,
        UnionV {
            items: us1[uidx].items.push(crate::model::VariableV { name: name, value_type: ty }),
            ..us1[uidx]
        },
    );
}

/// The state invariant holds after any capture stream.
pub proof fn lemma_run_inv(lang: Lang, t: Seq<NodeRow>, caps: Seq<(Seq<char>, int)>)
    ensures
        state_inv(run_steps(lang, t, caps)),
    decreases caps.len(),
{
    if caps.len() == 0 {
        assert(state_inv(empty_state()));
    } else {
        lemma_run_inv(lang, t, caps.drop_last());
        lemma_step_inv(lang, t, run_steps(lang, t, caps.drop_last()), caps.last());
    }
}


proof fn lemma_find_class_first(cs: Seq<ClassV>, name: Seq<char>, j: int)
    requires
        0 <= j <= cs.len(),
        find_class_from(cs, name, j) >= 0,
    ensures
        forall|m: int| j <= m < find_class_from(cs, name, j) ==> (#[trigger] cs[m]).name != name,
    decreases cs.len() - j,
{
    if j < cs.len() && cs[j].name != name {
        lemma_find_class_first(cs, name, j + 1);
    }
}

proof fn lemma_find_class_all_ne(cs: Seq<ClassV>, name: Seq<char>, j: int)
    requires
        0 <= j <= cs.len(),
        forall|m: int| j <= m < cs.len() ==> (#[trigger] cs[m]).name != name,
    ensures
        find_class_from(cs, name, j) == -1,
    decreases cs.len() - j,
{
    if j < cs.len() {
        lemma_find_class_all_ne(cs, name, j + 1);
    }
}

/// Where a name is found after a record with another name is inserted.
proof fn lemma_find_insert_shift(cs: Seq<ClassV>, p: int, b: ClassV, name: Seq<char>)
    requires
        0 <= p <= cs.len(),
        b.name != name,
    ensures
        find_class(cs, name) == -1 ==> find_class(cs.insert(p, b), name) == -1,
        find_class(cs, name) >= 0 && find_class(cs, name) < p ==> find_class(cs.insert(p, b), name)
            == find_class(cs, name),
        find_class(cs, name) >= p ==> find_class(cs.insert(p, b), name) == find_class(cs, name)
            + 1,
        find_class(cs, name) >= 0 ==> cs.insert(p, b)[find_class(cs.insert(p, b), name)]
            == cs[find_class(cs, name)],
{
    let cs2 = cs.insert(p, b);
    lemma_find_class_range(cs, name, 0);
    if find_class(cs, name) == -1 {
        lemma_find_class_none(cs, name, 0);
        assert forall|m: int| 0 <= m < cs2.len() implies (#[trigger] cs2[m]).name != name by {
            if m < p {
                assert(cs2[m] == cs[m]);
            } else if m == p {
            } else {
                assert(cs2[m] == cs[m - 1]);
            }
        }
        lemma_find_class_all_ne(cs2, name, 0);
    } else {
        let f = find_class(cs, name);
        lemma_find_class_bounds(cs, name, 0);
        lemma_find_class_first(cs, name, 0);
        if f < p {
            assert(cs2[f] == cs[f]);
            assert forall|m: int| 0 <= m < f implies (#[trigger] cs2[m]).name != name by {
                assert(cs2[m] == cs[m]);
            }
            lemma_find_class_at(cs2, name, 0, f);
        } else {
            assert(cs2[f + 1] == cs[f]);
            assert forall|m: int| 0 <= m < f + 1 implies (#[trigger] cs2[m]).name != name by {
                if m < p {
                    assert(cs2[m] == cs[m]);
                } else if m == p {
                } else {
                    assert(cs2[m] == cs[m - 1]);
                }
            }
            lemma_find_class_at(cs2, name, 0, f + 1);
        }
    }
}

/// Where a name is found is unmoved when a record keeps its name.
proof fn lemma_find_update_same(cs: Seq<ClassV>, idx: int, c: ClassV, name: Seq<char>)
    requires
        0 <= idx < cs.len(),
        c.name == cs[idx].name,
    ensures
        find_class(cs.update(idx, c), name) == find_class(cs, name),
        find_class(cs, name) >= 0 && find_class(cs, name) != idx ==> cs.update(idx, c)[find_class(
            cs,
            name,
        )] == cs[find_class(cs, name)],
{
    let cs2 = cs.update(idx, c);
    lemma_find_class_range(cs, name, 0);
    if find_class(cs, name) == -1 {
        lemma_find_class_none(cs, name, 0);
        assert forall|m: int| 0 <= m < cs2.len() implies (#[trigger] cs2[m]).name != name by {
            assert(cs2[m].name == cs[m].name);
        }
        lemma_find_class_all_ne(cs2, name, 0);
    } else {
        let f = find_class(cs, name);
        lemma_find_class_bounds(cs, name, 0);
        lemma_find_class_first(cs, name, 0);
        assert(cs2[f].name == name);
        assert forall|m: int| 0 <= m < f implies (#[trigger] cs2[m]).name != name by {
            assert(cs2[m].name == cs[m].name);
        }
        lemma_find_class_at(cs2, name, 0, f);
    }
}

/// The record named `n` before and after a fetch-or-create.
proof fn lemma_ensure_keeps(cs: Seq<ClassV>, label: Seq<char>, cname: Seq<char>, n: Seq<char>)
    requires
        find_class(cs, n) >= 0,
    ensures
        find_class(ensure_class_spec(cs, label, cname), n) >= 0,
        ensure_class_spec(cs, label, cname)[find_class(ensure_class_spec(cs, label, cname), n)]
            == cs[find_class(cs, n)],
        cname != n ==> find_class(ensure_class_spec(cs, label, cname), n) != ensure_class_idx(
            cs,
            cname,
        ),
{
    lemma_find_class_bounds(cs, n, 0);
    if find_class(cs, cname) >= 0 {
        lemma_find_class_bounds(cs, cname, 0);
        if cname != n {
            assert(cs[find_class(cs, cname)].name == cname);
            assert(cs[find_class(cs, n)].name == n);
        }
    } else {
        assert(cname != n);
        lemma_find_class_range(cs, cname, 0);
        lemma_class_pos_bounds(cs, cname, 0);
        let p = class_pos_from(cs, cname, 0);
        lemma_find_insert_shift(cs, p, blank_class(label, cname), n);
        lemma_ensure_class(cs, label, cname);
        let cs2 = ensure_class_spec(cs, label, cname);
        assert(cs2[find_class(cs2, n)].name == n) by {
            lemma_find_class_bounds(cs2, n, 0);
        }
        assert(cs2[ensure_class_idx(cs, cname)].name == cname);
    }
}

/// Accretion at one fetch-or-create-and-append.
proof fn lemma_add_method_accretes(
    st: StateV,
    label: Seq<char>,
    cname: Seq<char>,
    f: FuncV,
    n: Seq<char>,
)
    requires
        find_class(st.classes, n) >= 0,
    ensures
        ({
            let c1 = st.classes[find_class(st.classes, n)];
            let cs3 = add_method(st, label, cname, f).classes;
            find_class(cs3, n) >= 0 && {
                let c2 = cs3[find_class(cs3, n)];
                (c2.methods == c1.methods || c2.methods == c1.methods.push(f)) && c2.properties
                    == c1.properties
            }
        }),
{
    lemma_ensure_keeps(st.classes, label, cname, n);
    let cs1 = ensure_class_spec(st.classes, label, cname);
    let idx = ensure_class_idx(st.classes, cname);
    lemma_ensure_idx_is_find(st.classes, label, cname);
    if 0 <= idx < cs1.len() {
        let c = ClassV { methods: cs1[idx].methods.push(f), ..cs1[idx] };
        lemma_find_update_same(cs1, idx, c, n);
        if cname != n {
            assert(find_class(cs1, n) != idx);
        }
    }
}

/// Accretion at one fetch-or-create-and-append of a property.
proof fn lemma_add_property_accretes(
    st: StateV,
    label: Seq<char>,
    cname: Seq<char>,
    v: crate::model::VariableV,
    n: Seq<char>,
)
    requires
        find_class(st.classes, n) >= 0,
    ensures
        ({
            let c1 = st.classes[find_class(st.classes, n)];
            let cs3 = add_property(st, label, cname, v).classes;
            find_class(cs3, n) >= 0 && {
                let c2 = cs3[find_class(cs3, n)];
                (c2.properties == c1.properties || c2.properties == c1.properties.push(v))
                    && c2.methods == c1.methods
            }
        }),
{
    lemma_ensure_keeps(st.classes, label, cname, n);
    let cs1 = ensure_class_spec(st.classes, label, cname);
    let idx = ensure_class_idx(st.classes, cname);
    lemma_ensure_idx_is_find(st.classes, label, cname);
    if 0 <= idx < cs1.len() {
        let c = ClassV { properties: cs1[idx].properties.push(v), ..cs1[idx] };
        lemma_find_update_same(cs1, idx, c, n);
        if cname != n {
            assert(find_class(cs1, n) != idx);
        }
    }
}

/// The fetch-or-create index is where the name is found afterwards.
pub proof fn lemma_ensure_idx_is_find(cs: Seq<ClassV>, label: Seq<char>, cname: Seq<char>)
    ensures
        ensure_class_idx(cs, cname) == find_class(ensure_class_spec(cs, label, cname), cname),
        0 <= ensure_class_idx(cs, cname) < ensure_class_spec(cs, label, cname).len(),
        ensure_class_spec(cs, label, cname)[ensure_class_idx(cs, cname)].name == cname,
{
    lemma_find_class_range(cs, cname, 0);
    if find_class(cs, cname) >= 0 {
        lemma_find_class_bounds(cs, cname, 0);
    } else {
        lemma_class_pos_bounds(cs, cname, 0);
        lemma_ensure_class(cs, label, cname);
    }
}

/// Insertion order: one capture step never removes a class record,
/// never reorders what it holds, and grows its methods and properties
/// only by appending at the end. Methods and properties therefore stand
/// in the order of their first capture.
pub proof fn lemma_step_accretive(
    lang: Lang,
    t: Seq<NodeRow>,
    st: StateV,
    cap: (Seq<char>, int),
    n: Seq<char>,
)
    requires
        find_class(st.classes, n) >= 0,
    ensures
        ({
            let c1 = st.classes[find_class(st.classes, n)];
            let st2 = step(lang, t, st, cap);
            find_class(st2.classes, n) >= 0 && {
                let c2 = st2.classes[find_class(st2.classes, n)];
                (c2.methods == c1.methods || (exists|f: FuncV| c2.methods == c1.methods.push(f)))
                    && (c2.properties == c1.properties || (exists|v: crate::model::VariableV|
                    c2.properties == c1.properties.push(v)))
            }
        }),
{
    match crate::lang::capture_kind_of(cap.0) {
        None => {
        },
        Some(k) => {
            let node = cap.1;
            if 0 <= node < t.len() && !st.seen.contains((crate::lang::cap_key(k), node)) {
                let st1 = StateV { seen: st.seen.push((crate::lang::cap_key(k), node)), ..st };
                let name = crate::steps::derive_name(lang, t, k, node);
                lemma_substeps_accretive(lang, t, st1, node, name, n);
            }
        },
    }
}

proof fn lemma_substeps_accretive(
    lang: Lang,
    t: Seq<NodeRow>,
    st: StateV,
    node: int,
    name: Seq<char>,
    n: Seq<char>,
)
    requires
        find_class(st.classes, n) >= 0,
    ensures
        accretes(st, step_class(lang, t, st, node, name), n),
        accretes(st, step_module(st, name), n),
        accretes(st, step_method(lang, t, st, node, name), n),
        accretes(st, step_class_variable(lang, t, st, node, name), n),
        accretes(st, step_class_assignment(lang, t, st, node), n),
        accretes(st, step_function(lang, t, st, node, name), n),
        accretes(st, step_assignment(lang, t, st, node), n),
        accretes(st, step_variable(lang, t, st, node, name), n),
        accretes(st, step_enum_item(lang, t, st, node, name), n),
        accretes(st, step_union_item(lang, t, st, node, name), n),
{
    lemma_find_class_bounds(st.classes, n, 0);
    let label = crate::steps::class_label(lang);
    lemma_ensure_keeps(st.classes, label, name, n);
    lemma_ensure_keeps(st.classes, "module"@, name, n);
    lemma_ensure_idx_is_find(st.classes, label, name);
    let cs1 = ensure_class_spec(st.classes, label, name);
    let idx = ensure_class_idx(st.classes, name);
    let vis = {
        let c = crate::tree::child_of_kind(t, node, "visibility_modifier"@);
        if c >= 0 {
            t[c].1
        } else {
            Seq::empty()
        }
    };
    let cvis = ClassV { visibility_modifier: crate::steps::opt_of(vis), ..cs1[idx] };
    if 0 <= idx < cs1.len() {
        lemma_find_update_same(cs1, idx, cvis, n);
        if name != n {
            assert(find_class(cs1, n) != idx);
        }
    }
    lemma_add_method_accretes(
        st,
        label,
        crate::steps::method_class_name(lang, t, node),
        FuncV {
            name: name,
            params: crate::steps::method_params(lang, t, node),
            return_type: crate::steps::method_ret(lang, t, node, name),
            accessibility_modifier: crate::steps::opt_of(crate::steps::method_acc(lang, t, node)),
        },
        n,
    );
    let vt = crate::extract::node_type_of(t, node);
    let cn0 = crate::tree::closest_ancestor_name(t, node);
    let cn1 = if lang == Lang::Cpp {
        crate::steps::cpp_container_name(t, node)
    } else {
        cn0
    };
    let cnv = if lang == Lang::Zig {
        crate::steps::opt_or_empty(crate::extract::zig_vardecl_name(t, node))
    } else {
        cn1
    };
    lemma_add_property_accretes(
        st,
        label,
        cnv,
        crate::model::VariableV { name: name, value_type: vt },
        n,
    );
    let left = {
        let l = crate::tree::child_by_field(t, node, "left"@);
        if l >= 0 {
            t[l].1
        } else {
            Seq::empty()
        }
    };
    let cna = if cn0.len() > 0 && lang == Lang::Ruby {
        match crate::extract::ruby_path(t, node) {
            Some(p) => p,
            None => cn0,
        }
    } else {
        cn0
    };
    lemma_add_property_accretes(
        st,
        label,
        cna,
        crate::model::VariableV { name: left, value_type: vt },
        n,
    );
}

/// The class named `n` in `st2` holds what it held in `st`, with at
/// most one method and one property appended.
pub open spec fn accretes(st: StateV, st2: StateV, n: Seq<char>) -> bool {
    find_class(st.classes, n) >= 0 ==> {
        let c1 = st.classes[find_class(st.classes, n)];
        find_class(st2.classes, n) >= 0 && {
            let c2 = st2.classes[find_class(st2.classes, n)];
            (c2.methods == c1.methods || (exists|f: FuncV| c2.methods == c1.methods.push(f))) && (
            c2.properties == c1.properties || (exists|v: crate::model::VariableV| c2.properties
                == c1.properties.push(v)))
        }
    }
}

/// Strictly sorted names are pairwise distinct.
pub proof fn lemma_sorted_distinct(a: Seq<char>, b: Seq<char>)
    requires
        lex_lt(a, b),
    ensures
        a != b,
{
    if a == b {
        lemma_lex_lt_irrefl(a);
    }
}

/// Every element of the enum segment is an enum record.
proof fn lemma_enum_defs_shape(es: Seq<EnumV>)
    ensures
        enum_defs(es).len() == es.len(),
        forall|i: int| 0 <= i < es.len() ==> enum_defs(es)[i] == DefinitionV::Enum(es[i]),
    decreases es.len(),
{
    if es.len() > 0 {
        lemma_enum_defs_shape(es.drop_first());
        assert forall|i: int| 0 <= i < es.len() implies enum_defs(es)[i] == DefinitionV::Enum(
            es[i],
        ) by {
            if i > 0 {
                assert(enum_defs(es)[i] == enum_defs(es.drop_first())[i - 1]);
                assert(es.drop_first()[i - 1] == es[i]);
            }
        }
    }
}

/// Every element of the union segment is a union record.
proof fn lemma_union_defs_shape(us: Seq<UnionV>)
    ensures
        union_defs(us).len() == us.len(),
        forall|i: int| 0 <= i < us.len() ==> union_defs(us)[i] == DefinitionV::Union(us[i]),
    decreases us.len(),
{
    if us.len() > 0 {
        lemma_union_defs_shape(us.drop_first());
        assert forall|i: int| 0 <= i < us.len() implies union_defs(us)[i] == DefinitionV::Union(
            us[i],
        ) by {
            if i > 0 {
                assert(union_defs(us)[i] == union_defs(us.drop_first())[i - 1]);
                assert(us.drop_first()[i - 1] == us[i]);
            }
        }
    }
}

/// The names of the class records in the class segment rise strictly
/// from left to right, and every element of the segment is a class.
proof fn lemma_class_defs_shape(lang: Lang, cs: Seq<ClassV>)
    requires
        sorted_classes(cs),
    ensures
        forall|i: int| 0 <= i < class_defs(lang, cs).len() ==> (#[trigger] class_defs(lang, cs)[i])
            is Class,
        forall|i: int, j: int|
            0 <= i < j < class_defs(lang, cs).len() ==> lex_lt(
                (#[trigger] class_defs(lang, cs)[i])->Class_0.name,
                (#[trigger] class_defs(lang, cs)[j])->Class_0.name,
            ),
    decreases cs.len(),
{
    if cs.len() > 0 {
        assert(sorted_classes(cs.drop_first())) by {
            assert(forall|i: int| 0 <= i < cs.drop_first().len() ==> #[trigger] cs.drop_first()[i]
                == cs[i + 1]);
        }
        lemma_class_defs_shape(lang, cs.drop_first());
        let head = class_part(lang, cs.first());
        let tail = class_defs(lang, cs.drop_first());
        assert(forall|m: int| 0 <= m < cs.drop_first().len() ==> lex_lt(
            cs.first().name,
            (#[trigger] cs.drop_first()[m]).name,
        ));
        lemma_class_defs_lb(lang, cs.drop_first(), cs.first().name);
        assert forall|i: int, j: int|
            0 <= i < j < class_defs(lang, cs).len() implies lex_lt(
            (#[trigger] class_defs(lang, cs)[i])->Class_0.name,
            (#[trigger] class_defs(lang, cs)[j])->Class_0.name,
        ) by {
            if i >= head.len() {
                assert(class_defs(lang, cs)[i] == tail[i - head.len()]);
                assert(class_defs(lang, cs)[j] == tail[j - head.len()]);
            } else {
                assert(head.len() == 1 && i == 0);
                assert(class_defs(lang, cs)[0] == head[0]);
                assert(head[0]->Class_0 == cs.first());
                assert(class_defs(lang, cs)[j] == tail[j - 1]);
            }
        }
    }
}

/// A name below every class name stays below every emitted class name.
proof fn lemma_class_defs_lb(lang: Lang, cs: Seq<ClassV>, b: Seq<char>)
    requires
        forall|m: int| 0 <= m < cs.len() ==> lex_lt(b, (#[trigger] cs[m]).name),
    ensures
        forall|i: int|
            0 <= i < class_defs(lang, cs).len() ==> lex_lt(
                b,
                (#[trigger] class_defs(lang, cs)[i])->Class_0.name,
            ),
    decreases cs.len(),
{
    if cs.len() > 0 {
        assert(forall|i: int| 0 <= i < cs.drop_first().len() ==> #[trigger] cs.drop_first()[i]
            == cs[i + 1]);
        lemma_class_defs_lb(lang, cs.drop_first(), b);
        let head = class_part(lang, cs.first());
        let tail = class_defs(lang, cs.drop_first());
        assert forall|i: int| 0 <= i < class_defs(lang, cs).len() implies lex_lt(
            b,
            (#[trigger] class_defs(lang, cs)[i])->Class_0.name,
        ) by {
            if i < head.len() {
                assert(class_defs(lang, cs)[i] == head[i]);
                assert(head[i]->Class_0 == cs.first());
            } else {
                assert(class_defs(lang, cs)[i] == tail[i - head.len()]);
            }
        }
    }
}

/// Container uniqueness: in the outline stream the builder emits, a
/// class name appears at most once, an enum name at most once, and a
/// union name at most once, whatever the capture stream was.
pub proof fn lemma_container_uniqueness(lang: Lang, t: Seq<NodeRow>, caps: Seq<(Seq<char>, int)>)
    ensures
        forall|i: int, j: int|
            0 <= i < j < build_model(lang, t, caps).len() && (#[trigger] build_model(
                lang,
                t,
                caps,
            )[i]) is Class && (#[trigger] build_model(lang, t, caps)[j]) is Class ==> build_model(
                lang,
                t,
                caps,
            )[i]->Class_0.name != build_model(lang, t, caps)[j]->Class_0.name,
        forall|i: int, j: int|
            0 <= i < j < build_model(lang, t, caps).len() && (#[trigger] build_model(
                lang,
                t,
                caps,
            )[i]) is Enum && (#[trigger] build_model(lang, t, caps)[j]) is Enum ==> build_model(
                lang,
                t,
                caps,
            )[i]->Enum_0.name != build_model(lang, t, caps)[j]->Enum_0.name,
        forall|i: int, j: int|
            0 <= i < j < build_model(lang, t, caps).len() && (#[trigger] build_model(
                lang,
                t,
                caps,
            )[i]) is Union && (#[trigger] build_model(lang, t, caps)[j]) is Union ==> build_model(
                lang,
                t,
                caps,
            )[i]->Union_0.name != build_model(lang, t, caps)[j]->Union_0.name,
{
    lemma_run_inv(lang, t, caps);
    let st = run_steps(lang, t, caps);
    let out = build_model(lang, t, caps);
    let a = st.defs;
    let b = class_defs(lang, st.classes);
    let c = enum_defs(st.enums);
    let d = union_defs(st.unions);
    lemma_class_defs_shape(lang, st.classes);
    lemma_enum_defs_shape(st.enums);
    lemma_union_defs_shape(st.unions);
    assert(out =~= a + b + c + d);
    assert forall|i: int, j: int|
        0 <= i < j < out.len() && (#[trigger] out[i]) is Class && (#[trigger] out[j]) is Class
        implies out[i]->Class_0.name != out[j]->Class_0.name by {
        lemma_segment(a, b, c, d, i);
        lemma_segment(a, b, c, d, j);
        let bi = i - a.len();
        let bj = j - a.len();
        assert(out[i] == b[bi] && out[j] == b[bj]);
        lemma_sorted_distinct(b[bi]->Class_0.name, b[bj]->Class_0.name);
    }
    assert forall|i: int, j: int|
        0 <= i < j < out.len() && (#[trigger] out[i]) is Enum && (#[trigger] out[j]) is Enum
        implies out[i]->Enum_0.name != out[j]->Enum_0.name by {
        lemma_segment(a, b, c, d, i);
        lemma_segment(a, b, c, d, j);
        let ci = i - a.len() - b.len();
        let cj = j - a.len() - b.len();
        assert(out[i] == c[ci] && out[j] == c[cj]);
        assert(c[ci] == DefinitionV::Enum(st.enums[ci]));
        assert(c[cj] == DefinitionV::Enum(st.enums[cj]));
        lemma_sorted_distinct(st.enums[ci].name, st.enums[cj].name);
    }
    assert forall|i: int, j: int|
        0 <= i < j < out.len() && (#[trigger] out[i]) is Union && (#[trigger] out[j]) is Union
        implies out[i]->Union_0.name != out[j]->Union_0.name by {
        lemma_segment(a, b, c, d, i);
        lemma_segment(a, b, c, d, j);
        let di = i - a.len() - b.len() - c.len();
        let dj = j - a.len() - b.len() - c.len();
        assert(out[i] == d[di] && out[j] == d[dj]);
        assert(d[di] == DefinitionV::Union(st.unions[di]));
        assert(d[dj] == DefinitionV::Union(st.unions[dj]));
        lemma_sorted_distinct(st.unions[di].name, st.unions[dj].name);
    }
}


proof fn lemma_rust_class_defs_pub(cs: Seq<ClassV>)
    ensures
        forall|i: int|
            0 <= i < class_defs(Lang::Rust, cs).len() ==> (#[trigger] class_defs(
                Lang::Rust,
                cs,
            )[i]) is Class && (match class_defs(Lang::Rust, cs)[i]->Class_0.visibility_modifier {
                Some(v) => crate::strutil::contains_seq(v, "pub"@),
                None => false,
            }),
    decreases cs.len(),
{
    if cs.len() > 0 {
        lemma_rust_class_defs_pub(cs.drop_first());
        let head = class_part(Lang::Rust, cs.first());
        let tail = class_defs(Lang::Rust, cs.drop_first());
        assert forall|i: int| 0 <= i < class_defs(Lang::Rust, cs).len() implies (
        #[trigger] class_defs(Lang::Rust, cs)[i]) is Class && (match class_defs(
            Lang::Rust,
            cs,
        )[i]->Class_0.visibility_modifier {
            Some(v) => crate::strutil::contains_seq(v, "pub"@),
            None => false,
        }) by {
            if i < head.len() {
                assert(class_defs(Lang::Rust, cs)[i] == head[i]);
            } else {
                assert(class_defs(Lang::Rust, cs)[i] == tail[i - head.len()]);
            }
        }
    }
}

/// Rust visibility suppression: whatever the capture stream was, every
/// class the Rust rule set emits carries a recorded visibility that
/// mentions `pub`; a class without one never reaches the outline.
pub proof fn lemma_rust_visibility_suppression(t: Seq<NodeRow>, caps: Seq<(Seq<char>, int)>)
    ensures
        forall|i: int|
            0 <= i < build_model(Lang::Rust, t, caps).len() && (#[trigger] build_model(
                Lang::Rust,
                t,
                caps,
            )[i]) is Class ==> (match build_model(
                Lang::Rust,
                t,
                caps,
            )[i]->Class_0.visibility_modifier {
                Some(v) => crate::strutil::contains_seq(v, "pub"@),
                None => false,
            }),
{
    lemma_run_inv(Lang::Rust, t, caps);
    let st = run_steps(Lang::Rust, t, caps);
    let out = build_model(Lang::Rust, t, caps);
    let a = st.defs;
    let b = class_defs(Lang::Rust, st.classes);
    let c = enum_defs(st.enums);
    let d = union_defs(st.unions);
    lemma_rust_class_defs_pub(st.classes);
    lemma_enum_defs_shape(st.enums);
    lemma_union_defs_shape(st.unions);
    assert(out =~= a + b + c + d);
    assert forall|i: int|
        0 <= i < out.len() && (#[trigger] out[i]) is Class implies (match out[
        i]->Class_0.visibility_modifier {
        Some(v) => crate::strutil::contains_seq(v, "pub"@),
        None => false,
    }) by {
        lemma_segment(a, b, c, d, i);
        assert(out[i] == b[i - a.len()]);
    }
}

/// Which segment of the emitted stream an index falls in, by variant.
proof fn lemma_segment(
    a: Seq<DefinitionV>,
    b: Seq<DefinitionV>,
    c: Seq<DefinitionV>,
    d: Seq<DefinitionV>,
    i: int,
)
    requires
        0 <= i < (a + b + c + d).len(),
        stream_flat(a),
        forall|m: int| 0 <= m < b.len() ==> (#[trigger] b[m]) is Class,
        forall|m: int| 0 <= m < c.len() ==> (#[trigger] c[m]) is Enum,
        forall|m: int| 0 <= m < d.len() ==> (#[trigger] d[m]) is Union,
    ensures
        (a + b + c + d)[i] is Class ==> a.len() <= i < a.len() + b.len() && (a + b + c + d)[i]
            == b[i - a.len()],
        (a + b + c + d)[i] is Enum ==> a.len() + b.len() <= i < a.len() + b.len() + c.len() && (a
            + b + c + d)[i] == c[i - a.len() - b.len()],
        (a + b + c + d)[i] is Union ==> a.len() + b.len() + c.len() <= i && (a + b + c + d)[i]
            == d[i - a.len() - b.len() - c.len()],
{
    if i < a.len() {
        assert((a + b + c + d)[i] == a[i]);
    } else if i < a.len() + b.len() {
        assert((a + b + c + d)[i] == b[i - a.len()]);
    } else if i < a.len() + b.len() + c.len() {
        assert((a + b + c + d)[i] == c[i - a.len() - b.len()]);
    } else {
        assert((a + b + c + d)[i] == d[i - a.len() - b.len() - c.len()]);
    }
}

} // verus!
