//! The Go case law: under Go's rules the builder only ever records
//! symbols whose name is empty or starts with an uppercase character,
//! and container names are always uppercase; no enum or union record
//! is ever created.

use vstd::prelude::*;
use crate::model::{ClassV, DefinitionV, FuncV, VariableV};
use crate::strutil::upper_start;
use crate::lang::{Lang, CaptureKind, capture_kind_of, cap_key};
use crate::builder::{StateV, ensure_class_spec, ensure_class_idx, blank_class};
use crate::steps::{step, add_method, add_property, run_steps, empty_state, class_defs,
    class_part, enum_defs, union_defs, build_model, derive_name, class_label, method_class_name,
    method_params, method_ret, method_acc, opt_of};
use crate::laws_maps::lemma_ensure_idx_is_find;
use crate::tree::{NodeRow, child_by_field};

verus! {

/// Empty, or starting with an uppercase character.
pub open spec fn go_name_ok(s: Seq<char>) -> bool {
    s.len() == 0 || upper_start(s)
}

/// A class record all of whose names satisfy the Go convention.
pub open spec fn go_class_ok(c: ClassV) -> bool {
    upper_start(c.name) && (forall|m: int|
        0 <= m < c.methods.len() ==> go_name_ok((#[trigger] c.methods[m]).name)) && (forall|p: int|
        0 <= p < c.properties.len() ==> go_name_ok((#[trigger] c.properties[p]).name))
}

/// One outline element under the Go convention; enums and unions never
/// occur at all.
pub open spec fn go_def_ok(d: DefinitionV) -> bool {
    match d {
        DefinitionV::Func(f) => go_name_ok(f.name),
        DefinitionV::Variable(v) => go_name_ok(v.name),
        DefinitionV::Class(c) => go_class_ok(c),
        DefinitionV::Module(c) => go_class_ok(c),
        DefinitionV::Enum(_e) => false,
        DefinitionV::Union(_u) => false,
    }
}

pub open spec fn go_defs_ok(ds: Seq<DefinitionV>) -> bool {
    forall|i: int| 0 <= i < ds.len() ==> go_def_ok(#[trigger] ds[i])
}

pub open spec fn go_classes_ok(cs: Seq<ClassV>) -> bool {
    forall|i: int| 0 <= i < cs.len() ==> go_class_ok(#[trigger] cs[i])
}

pub open spec fn go_state_ok(st: StateV) -> bool {
    go_defs_ok(st.defs) && go_classes_ok(st.classes) && st.enums.len() == 0 && st.unions.len()
        == 0
}

/// The capture kinds a Go pattern script uses, and the one shape it
/// never produces: a `variable` capture whose value is an arrow
/// function (an arrow value would be reshaped into a function before
/// the Go name filter runs).
pub open spec fn go_cap_ok(t: Seq<NodeRow>, cap: (Seq<char>, int)) -> bool {
    match capture_kind_of(cap.0) {
        None => true,
        Some(k) => {
            &&& (k == CaptureKind::Class || k == CaptureKind::Method || k
                == CaptureKind::ClassVariable || k == CaptureKind::Function || k
                == CaptureKind::ArrowFunction || k == CaptureKind::Variable)
            &&& (k == CaptureKind::Variable ==> {
                let vn = child_by_field(t, cap.1, "value"@);
                vn < 0 || t[vn].0 != "arrow_function"@
            })
        },
    }
}

proof fn lemma_ensure_class_go(cs: Seq<ClassV>, label: Seq<char>, name: Seq<char>)
    requires
        go_classes_ok(cs),
        upper_start(name),
    ensures
        go_classes_ok(ensure_class_spec(cs, label, name)),
        go_class_ok(ensure_class_spec(cs, label, name)[ensure_class_idx(cs, name)]),
{
    lemma_ensure_idx_is_find(cs, label, name);
    let cs2 = ensure_class_spec(cs, label, name);
    if crate::builder::find_class(cs, name) >= 0 {
    } else {
        let p = crate::builder::class_pos_from(cs, name, 0);
        crate::builder::lemma_class_pos_bounds(cs, name, 0);
        assert forall|i: int| 0 <= i < cs2.len() implies go_class_ok(#[trigger] cs2[i]) by {
            if i < p {
                assert(cs2[i] == cs[i]);
            } else if i == p {
                assert(cs2[i] == blank_class(label, name));
            } else {
                assert(cs2[i] == cs[i - 1]);
            }
        }
    }
}

proof fn lemma_add_method_go(st: StateV, label: Seq<char>, cname: Seq<char>, f: FuncV)
    requires
        go_state_ok(st),
        upper_start(cname),
        go_name_ok(f.name),
    ensures
        go_state_ok(add_method(st, label, cname, f)),
{
    lemma_ensure_class_go(st.classes, label, cname);
    lemma_ensure_idx_is_find(st.classes, label, cname);
    let cs1 = ensure_class_spec(st.classes, label, cname);
    let idx = ensure_class_idx(st.classes, cname);
    let c2 = ClassV { methods: cs1[idx].methods.push(f), ..cs1[idx] };
    assert(go_class_ok(c2)) by {
        assert(forall|m: int| 0 <= m < cs1[idx].methods.len() ==> #[trigger] c2.methods[m]
            == cs1[idx].methods[m]);
        assert(c2.methods[c2.methods.len() - 1] == f);
    }
    assert forall|i: int| 0 <= i < cs1.update(idx, c2).len() implies go_class_ok(
        #[trigger] cs1.update(idx, c2)[i],
    ) by {
        if i != idx {
            assert(cs1.update(idx, c2)[i] == cs1[i]);
        }
    }
}

proof fn lemma_add_property_go(st: StateV, label: Seq<char>, cname: Seq<char>, v: VariableV)
    requires
        go_state_ok(st),
        upper_start(cname),
        go_name_ok(v.name),
    ensures
        go_state_ok(add_property(st, label, cname, v)),
{
    lemma_ensure_class_go(st.classes, label, cname);
    lemma_ensure_idx_is_find(st.classes, label, cname);
    let cs1 = ensure_class_spec(st.classes, label, cname);
    let idx = ensure_class_idx(st.classes, cname);
    let c2 = ClassV { properties: cs1[idx].properties.push(v), ..cs1[idx] };
    assert(go_class_ok(c2)) by {
        assert(forall|p: int| 0 <= p < cs1[idx].properties.len() ==> #[trigger] c2.properties[p]
            == cs1[idx].properties[p]);
        assert(c2.properties[c2.properties.len() - 1] == v);
    }
    assert forall|i: int| 0 <= i < cs1.update(idx, c2).len() implies go_class_ok(
        #[trigger] cs1.update(idx, c2)[i],
    ) by {
        if i != idx {
            assert(cs1.update(idx, c2)[i] == cs1[i]);
        }
    }
}

/// One Go capture step preserves the convention.
proof fn lemma_go_step(t: Seq<NodeRow>, st: StateV, cap: (Seq<char>, int))
    requires
        go_state_ok(st),
        go_cap_ok(t, cap),
    ensures
        go_state_ok(step(Lang::Go, t, st, cap)),
{
    match capture_kind_of(cap.0) {
        None => {
        },
        Some(k) => {
            let node = cap.1;
            if 0 <= node < t.len() && !st.seen.contains((cap_key(k), node)) {
                let st1 = StateV { seen: st.seen.push((cap_key(k), node)), ..st };
                assert(go_state_ok(st1));
                let name = derive_name(Lang::Go, t, k, node);
                let label = class_label(Lang::Go);
                if k == CaptureKind::Class {
                    if name.len() > 0 && upper_start(name) {
                        lemma_ensure_class_go(st1.classes, label, name);
                        lemma_ensure_idx_is_find(st1.classes, label, name);
                        let cs1 = ensure_class_spec(st1.classes, label, name);
                        let idx = ensure_class_idx(st1.classes, name);
                        let vis = {
                            let c = crate::tree::child_of_kind(t, node, "visibility_modifier"@);
                            if c >= 0 {
                                t[c].1
                            } else {
                                Seq::<char>::empty()
                            }
                        };
                        let c2 = ClassV { visibility_modifier: opt_of(vis), ..cs1[idx] };
                        assert(go_class_ok(c2));
                        assert forall|i: int| 0 <= i < cs1.update(idx, c2).len() implies
                            go_class_ok(#[trigger] cs1.update(idx, c2)[i]) by {
                            if i != idx {
                                assert(cs1.update(idx, c2)[i] == cs1[i]);
                            }
                        }
                    }
                } else if k == CaptureKind::Method {
                    let cname = method_class_name(Lang::Go, t, node);
                    if upper_start(cname) && go_name_ok(name) {
                        lemma_add_method_go(
                            st1,
                            label,
                            cname,
                            FuncV {
                                name: name,
                                params: method_params(Lang::Go, t, node),
                                return_type: method_ret(Lang::Go, t, node, name),
                                accessibility_modifier: opt_of(method_acc(Lang::Go, t, node)),
                            },
                        );
                    }
                } else if k == CaptureKind::ClassVariable {
                    let cn = crate::tree::closest_ancestor_name(t, node);
                    if cn.len() > 0 && upper_start(cn) && go_name_ok(name) {
                        lemma_add_property_go(
                            st1,
                            label,
                            cn,
                            VariableV {
                                name: name,
                                value_type: crate::extract::node_type_of(t, node),
                            },
                        );
                    }
                } else {
                }
            }
        },
    }
}

/// After a Go run over allowed captures, the state keeps the
/// convention.
proof fn lemma_go_run(t: Seq<NodeRow>, caps: Seq<(Seq<char>, int)>)
    requires
        forall|i: int| 0 <= i < caps.len() ==> go_cap_ok(t, #[trigger] caps[i]),
    ensures
        go_state_ok(run_steps(Lang::Go, t, caps)),
    decreases caps.len(),
{
    if caps.len() == 0 {
        assert(go_state_ok(empty_state()));
    } else {
        assert(forall|i: int| 0 <= i < caps.drop_last().len() ==> #[trigger] caps.drop_last()[i]
            == caps[i]);
        lemma_go_run(t, caps.drop_last());
        lemma_go_step(t, run_steps(Lang::Go, t, caps.drop_last()), caps.last());
    }
}

proof fn lemma_go_class_defs(cs: Seq<ClassV>)
    requires
        go_classes_ok(cs),
    ensures
        forall|i: int|
            0 <= i < class_defs(Lang::Go, cs).len() ==> go_def_ok(
                #[trigger] class_defs(Lang::Go, cs)[i],
            ),
    decreases cs.len(),
{
    if cs.len() > 0 {
        assert(forall|i: int| 0 <= i < cs.drop_first().len() ==> #[trigger] cs.drop_first()[i]
            == cs[i + 1]);
        lemma_go_class_defs(cs.drop_first());
        let head = class_part(Lang::Go, cs.first());
        let tail = class_defs(Lang::Go, cs.drop_first());
        assert forall|i: int| 0 <= i < class_defs(Lang::Go, cs).len() implies go_def_ok(
            #[trigger] class_defs(Lang::Go, cs)[i],
        ) by {
            if i < head.len() {
                assert(class_defs(Lang::Go, cs)[i] == head[i]);
                assert(head[i] == DefinitionV::Class(cs.first()));
            } else {
                assert(class_defs(Lang::Go, cs)[i] == tail[i - head.len()]);
            }
        }
    }
}

/// The Go case invariant: over the capture kinds a Go pattern script
/// uses, no name in a Go outline stream is non-empty without starting
/// uppercase, every container name starts uppercase, and no enum or
/// union record appears.
pub proof fn lemma_go_case_invariant(t: Seq<NodeRow>, caps: Seq<(Seq<char>, int)>)
    requires
        forall|i: int| 0 <= i < caps.len() ==> go_cap_ok(t, #[trigger] caps[i]),
    ensures
        forall|i: int|
            0 <= i < build_model(Lang::Go, t, caps).len() ==> go_def_ok(
                #[trigger] build_model(Lang::Go, t, caps)[i],
            ),
{
    lemma_go_run(t, caps);
    let st = run_steps(Lang::Go, t, caps);
    let out = build_model(Lang::Go, t, caps);
    lemma_go_class_defs(st.classes);
    let a = st.defs;
    let b = class_defs(Lang::Go, st.classes);
    assert(enum_defs(st.enums) =~= Seq::<DefinitionV>::empty());
    assert(union_defs(st.unions) =~= Seq::<DefinitionV>::empty());
    assert(out =~= a + b);
    assert forall|i: int| 0 <= i < out.len() implies go_def_ok(#[trigger] out[i]) by {
        if i < a.len() {
            assert(out[i] == a[i]);
        } else {
            assert(out[i] == b[i - a.len()]);
        }
    }
}

} // verus!
