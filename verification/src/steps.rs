//! The symbol builder's decision core: for each capture the pipeline of
//! name derivation, language-specific exclusion filters, container
//! resolution, parameter and return-type extraction, and accretion into
//! the builder state. Each step is a ghost function over the arena rows
//! and the ghost state, with a proved executable twin, so the whole
//! build is pinned down as a fold over the capture stream.

use vstd::prelude::*;
use vstd::string::StrSliceExecFns;
use vstd::string::StringExecFns;
use crate::tree::{
    NodeRow, SyntaxTree, tree_wf, parent_of, child_by_field, child_of_kind, anc_of_kind,
    anc_of_kind2, closest_ancestor_name, desc_of_kind,
};
use crate::strutil::{contains_seq, str_contains, str_eq, str_upper_start, upper_start};
use crate::lang::{Lang, CaptureKind, cap_key, capture_kind_of, parse_capture_kind};
use crate::model::{Func, Variable, Definition, FuncV, VariableV, ClassV, DefinitionV, EnumV,
    UnionV};
use crate::builder::{BuilderState, StateV, ensure_class_spec, ensure_class_idx, ensure_enum_spec,
    ensure_enum_idx, ensure_union_spec, ensure_union_idx};
use crate::extract::{vis_of, vis_of_x, desc_text, desc_text_x, java_private, java_private_x,
    zig_vardecl_public, zig_vardecl_public_x, zig_fndecl_public, zig_fndecl_public_x,
    zig_vardecl_name, zig_vardecl_name_x, zig_type_in_parent, zig_type_in_parent_x,
    csharp_primary_ctor, csharp_primary_ctor_x, node_type_of, node_type_of_x, ruby_path,
    ruby_path_x, ex_module_name, ex_module_name_x, ruby_method_private, ruby_method_private_x};

verus! {

/// An empty string becomes no modifier.
pub open spec fn opt_of(s: Seq<char>) -> Option<Seq<char>> {
    if s.len() == 0 {
        None
    } else {
        Some(s)
    }
}

/// The container label a language uses for a fetched-or-created class.
pub open spec fn class_label(lang: Lang) -> Seq<char> {
    if lang == Lang::Elixir {
        "module"@
    } else {
        "class"@
    }
}

/// The `name`-field child's text, or the node's own text.
pub open spec fn default_name(t: Seq<NodeRow>, node: int) -> Seq<char> {
    let c = child_by_field(t, node, "name"@);
    if c >= 0 {
        t[c].1
    } else {
        t[node].1
    }
}

/// C++ member names: a `field_identifier`, `operator_name` or
/// `identifier` descendant, prefixed by a qualified declarator's scope.
pub open spec fn cpp_scoped_name(t: Seq<NodeRow>, node: int) -> Seq<char> {
    let fi = desc_of_kind(t, node, "field_identifier"@);
    let on = desc_of_kind(t, node, "operator_name"@);
    let idn = desc_of_kind(t, node, "identifier"@);
    let ident = if fi >= 0 {
        fi
    } else if on >= 0 {
        on
    } else {
        idn
    };
    if ident >= 0 {
        let d1 = child_by_field(t, node, "declarator"@);
        let d2 = if d1 >= 0 {
            child_by_field(t, d1, "declarator"@)
        } else {
            -1
        };
        let sc = if d2 >= 0 {
            child_by_field(t, d2, "scope"@)
        } else {
            -1
        };
        if sc >= 0 {
            t[sc].1 + "::"@ + t[ident].1
        } else {
            t[ident].1
        }
    } else {
        t[node].1
    }
}

/// The symbol name a capture derives, per language.
pub open spec fn derive_name(lang: Lang, t: Seq<NodeRow>, k: CaptureKind, node: int) -> Seq<
    char,
> {
    if lang == Lang::Cpp {
        if k == CaptureKind::Class {
            default_name(t, node)
        } else {
            cpp_scoped_name(t, node)
        }
    } else if lang == Lang::Scala {
        let c = child_by_field(t, node, "name"@);
        let c2 = if c >= 0 {
            c
        } else {
            child_by_field(t, node, "pattern"@)
        };
        if c2 >= 0 {
            t[c2].1
        } else {
            t[node].1
        }
    } else if lang == Lang::Csharp {
        let ident = if k == CaptureKind::Method && csharp_primary_ctor(t, node) {
            if parent_of(t, node) >= 0 {
                parent_of(t, node)
            } else {
                node
            }
        } else if k == CaptureKind::ClassVariable {
            let d = desc_of_kind(t, node, "variable_declarator"@);
            if d >= 0 {
                d
            } else {
                node
            }
        } else {
            node
        };
        let c = child_by_field(t, ident, "name"@);
        if c >= 0 {
            t[c].1
        } else {
            t[node].1
        }
    } else if lang == Lang::Ruby {
        let base = default_name(t, node);
        if k == CaptureKind::Class || k == CaptureKind::Module {
            match ruby_path(t, node) {
                Some(p) => p,
                None => base,
            }
        } else {
            base
        }
    } else {
        default_name(t, node)
    }
}

/// The parameter node of a function-like capture: the `parameters`
/// field, else the first `parameter_list` descendant.
pub open spec fn params_base(t: Seq<NodeRow>, node: int) -> int {
    let c = child_by_field(t, node, "parameters"@);
    if c >= 0 {
        c
    } else {
        desc_of_kind(t, node, "parameter_list"@)
    }
}

/// The verbatim parameter text of a method capture.
pub open spec fn method_params(lang: Lang, t: Seq<NodeRow>, node: int) -> Seq<char> {
    let pn = if lang == Lang::Zig {
        let f = anc_of_kind(t, node, "function_declaration"@);
        if f >= 0 {
            child_of_kind(t, f, "parameters"@)
        } else {
            -1
        }
    } else if lang == Lang::Elixir {
        let f = anc_of_kind(t, node, "call"@);
        if f >= 0 {
            child_of_kind(t, f, "arguments"@)
        } else {
            -1
        }
    } else {
        params_base(t, node)
    };
    if pn >= 0 {
        t[pn].1
    } else {
        "()"@
    }
}

/// Where a language keeps the return type of a method.
pub open spec fn ret_node_base(lang: Lang, t: Seq<NodeRow>, node: int) -> int {
    if lang == Lang::Cpp {
        child_by_field(t, node, "type"@)
    } else if lang == Lang::Csharp {
        child_by_field(t, node, "returns"@)
    } else {
        child_by_field(t, node, "return_type"@)
    }
}

/// For a C++ constructor (method named as the enclosing class), the
/// class name node stands in for the return type.
pub open spec fn cpp_ctor_ret(t: Seq<NodeRow>, node: int, name: Seq<char>, rn: int) -> int {
    let cs = anc_of_kind(t, node, "class_specifier"@);
    let tn = if cs >= 0 {
        child_by_field(t, cs, "name"@)
    } else {
        -1
    };
    if tn >= 0 && name == t[tn].1 {
        tn
    } else {
        rn
    }
}

/// The C# analogue of `cpp_ctor_ret`.
pub open spec fn csharp_ctor_ret(t: Seq<NodeRow>, node: int, name: Seq<char>, rn: int) -> int {
    let ts = anc_of_kind2(t, node, "class_declaration"@, "record_declaration"@);
    let tn = if ts >= 0 {
        child_by_field(t, ts, "name"@)
    } else {
        -1
    };
    if tn >= 0 && name == t[tn].1 {
        tn
    } else {
        rn
    }
}

/// The rendered return type of a method capture.
pub open spec fn method_ret(lang: Lang, t: Seq<NodeRow>, node: int, name: Seq<char>) -> Seq<
    char,
> {
    let rn0 = ret_node_base(lang, t, node);
    let rn1 = if lang == Lang::Cpp {
        cpp_ctor_ret(t, node, name, rn0)
    } else if lang == Lang::Csharp {
        csharp_ctor_ret(t, node, name, rn0)
    } else {
        rn0
    };
    let rn = if rn1 >= 0 {
        rn1
    } else {
        child_by_field(t, node, "result"@)
    };
    if rn >= 0 {
        let ty = node_type_of(t, rn);
        if ty.len() > 0 {
            ty
        } else {
            t[rn].1
        }
    } else if lang == Lang::Elixir {
        Seq::empty()
    } else {
        "void"@
    }
}

/// The name of the nearest enclosing C++ class or struct specifier.
pub open spec fn cpp_container_name(t: Seq<NodeRow>, node: int) -> Seq<char> {
    let a = anc_of_kind(t, node, "class_specifier"@);
    let tgt = if a >= 0 {
        a
    } else {
        anc_of_kind(t, node, "struct_specifier"@)
    };
    if tgt >= 0 {
        let c = child_by_field(t, tgt, "name"@);
        if c >= 0 {
            t[c].1
        } else {
            Seq::empty()
        }
    } else {
        Seq::empty()
    }
}

/// The name of the nearest enclosing C# class or record declaration.
pub open spec fn csharp_container_name(t: Seq<NodeRow>, node: int) -> Seq<char> {
    let ts = anc_of_kind2(t, node, "class_declaration"@, "record_declaration"@);
    if ts >= 0 {
        let c = child_by_field(t, ts, "name"@);
        if c >= 0 {
            t[c].1
        } else {
            Seq::empty()
        }
    } else {
        Seq::empty()
    }
}

pub open spec fn opt_or_empty(o: Option<Seq<char>>) -> Seq<char> {
    match o {
        Some(s) => s,
        None => Seq::empty(),
    }
}

/// The enclosing container name of a method capture, per language.
pub open spec fn method_class_name(lang: Lang, t: Seq<NodeRow>, node: int) -> Seq<char> {
    if lang == Lang::Zig {
        opt_or_empty(zig_vardecl_name(t, node))
    } else if lang == Lang::Elixir {
        opt_or_empty(ex_module_name(t, node))
    } else if lang == Lang::Cpp {
        cpp_container_name(t, node)
    } else if lang == Lang::Csharp {
        csharp_container_name(t, node)
    } else if lang == Lang::Ruby {
        opt_or_empty(ruby_path(t, node))
    } else {
        let ii = anc_of_kind(t, node, "impl_item"@);
        if ii >= 0 {
            let ty = child_by_field(t, ii, "type"@);
            if ty >= 0 {
                t[ty].1
            } else {
                Seq::empty()
            }
        } else {
            let rc = child_by_field(t, node, "receiver"@);
            if rc >= 0 {
                let ti = desc_of_kind(t, rc, "type_identifier"@);
                if ti >= 0 {
                    t[ti].1
                } else {
                    Seq::empty()
                }
            } else {
                closest_ancestor_name(t, node)
            }
        }
    }
}

/// The accessibility modifier recorded on a method.
pub open spec fn method_acc(lang: Lang, t: Seq<NodeRow>, node: int) -> Seq<char> {
    if lang == Lang::Ruby {
        if ruby_method_private(t, node) {
            "private"@
        } else {
            Seq::empty()
        }
    } else {
        desc_text(t, node, "accessibility_modifier"@)
    }
}

/// A C# method capture is dropped without an explicit modifier (unless
/// it is a primary constructor), or with a `private` one.
pub open spec fn csharp_method_filtered(t: Seq<NodeRow>, node: int) -> bool {
    let m = desc_of_kind(t, node, "modifier"@);
    if m < 0 {
        !csharp_primary_ctor(t, node)
    } else {
        t[m].1 == "private"@
    }
}

/// A C# class variable is dropped without an explicit modifier, or with
/// a `private` one.
pub open spec fn csharp_classvar_filtered(t: Seq<NodeRow>, node: int) -> bool {
    let m = desc_of_kind(t, node, "modifier"@);
    m < 0 || t[m].1 == "private"@
}

/// Fetch-or-create a class and append a method.
pub open spec fn add_method(st: StateV, label: Seq<char>, cname: Seq<char>, f: FuncV) -> StateV {
    let cs1 = ensure_class_spec(st.classes, label, cname);
    let idx = ensure_class_idx(st.classes, cname);
    StateV {
        classes: cs1.update(idx, ClassV { methods: cs1[idx].methods.push(f), ..cs1[idx] }),
        ..st
    }
}

/// Fetch-or-create a class and append a property.
pub open spec fn add_property(st: StateV, label: Seq<char>, cname: Seq<char>, v: VariableV) -> StateV {
    let cs1 = ensure_class_spec(st.classes, label, cname);
    let idx = ensure_class_idx(st.classes, cname);
    StateV {
        classes: cs1.update(idx, ClassV { properties: cs1[idx].properties.push(v), ..cs1[idx] }),
        ..st
    }
}

/// A `class` capture: record the class and its visibility.
pub open spec fn step_class(lang: Lang, t: Seq<NodeRow>, st: StateV, node: int, name: Seq<char>) -> StateV {
    if name.len() == 0 {
        st
    } else if lang == Lang::Go && !upper_start(name) {
        st
    } else {
        let cs1 = ensure_class_spec(st.classes, class_label(lang), name);
        let idx = ensure_class_idx(st.classes, name);
        let vis = {
            let c = child_of_kind(t, node, "visibility_modifier"@);
            if c >= 0 {
                t[c].1
            } else {
                Seq::empty()
            }
        };
        StateV {
            classes: cs1.update(
                idx,
                ClassV { visibility_modifier: opt_of(vis), ..cs1[idx] },
            ),
            ..st
        }
    }
}

/// A `module` capture: record the module.
pub open spec fn step_module(st: StateV, name: Seq<char>) -> StateV {
    if name.len() == 0 {
        st
    } else {
        StateV { classes: ensure_class_spec(st.classes, "module"@, name), ..st }
    }
}

/// An `enum_item` capture.
pub open spec fn step_enum_item(lang: Lang, t: Seq<NodeRow>, st: StateV, node: int, name: Seq<char>) -> StateV {
    let vis = vis_of(t, node);
    if lang == Lang::Rust && !contains_seq(vis, "pub"@) {
        st
    } else if lang == Lang::Zig && !zig_vardecl_public(t, node) {
        st
    } else {
        let en0 = closest_ancestor_name(t, node);
        let en1 = if lang == Lang::Zig {
            opt_or_empty(zig_vardecl_name(t, node))
        } else {
            en0
        };
        let en = if lang == Lang::Scala {
            let e = anc_of_kind(t, node, "enum_definition"@);
            let c = if e >= 0 {
                child_by_field(t, e, "name"@)
            } else {
                -1
            };
            if c >= 0 {
                t[c].1
            } else {
                en1
            }
        } else {
            en1
        };
        if en.len() > 0 && lang == Lang::Go && !upper_start(en) {
            st
        } else {
            let es1 = ensure_enum_spec(st.enums, en);
            let idx = ensure_enum_idx(st.enums, en);
            let ty = desc_text(t, node, "type_identifier"@);
            StateV {
                enums: es1.update(
                    idx,
                    EnumV { items: es1[idx].items.push(VariableV { name: name, value_type: ty }), ..es1[idx] },
                ),
                ..st
            }
        }
    }
}

/// A `union_item` capture.
pub open spec fn step_union_item(lang: Lang, t: Seq<NodeRow>, st: StateV, node: int, name: Seq<char>) -> StateV {
    if lang != Lang::Zig {
        st
    } else if !zig_vardecl_public(t, node) {
        st
    } else {
        let un = opt_or_empty(zig_vardecl_name(t, node));
        let us1 = ensure_union_spec(st.unions, un);
        let idx = ensure_union_idx(st.unions, un);
        let ty = desc_text(t, node, "type_identifier"@);
        StateV {
            unions: us1.update(
                idx,
                UnionV { items: us1[idx].items.push(VariableV { name: name, value_type: ty }), ..us1[idx] },
            ),
            ..st
        }
    }
}

/// A `method` capture.
pub open spec fn step_method(lang: Lang, t: Seq<NodeRow>, st: StateV, node: int, name: Seq<char>) -> StateV {
    let vis = vis_of(t, node);
    if lang == Lang::Swift && contains_seq(vis, "private"@) {
        st
    } else if lang == Lang::Java && java_private(t, node) {
        st
    } else if lang == Lang::Rust && !contains_seq(vis, "pub"@) {
        st
    } else if lang == Lang::Zig && !(zig_fndecl_public(t, node) && zig_vardecl_public(t, node)) {
        st
    } else if lang == Lang::Cpp && desc_of_kind(t, node, "destructor_name"@) >= 0 {
        st
    } else if name.len() > 0 && lang == Lang::Go && !upper_start(name) {
        st
    } else if lang == Lang::Csharp && csharp_method_filtered(t, node) {
        st
    } else {
        let params = method_params(lang, t, node);
        let rt = method_ret(lang, t, node, name);
        let cname = method_class_name(lang, t, node);
        if lang == Lang::Go && !upper_start(cname) {
            st
        } else {
            let acc = method_acc(lang, t, node);
            let f = FuncV {
                name: name,
                params: params,
                return_type: rt,
                accessibility_modifier: opt_of(acc),
            };
            add_method(st, class_label(lang), cname, f)
        }
    }
}

/// A `class_assignment` capture.
pub open spec fn step_class_assignment(lang: Lang, t: Seq<NodeRow>, st: StateV, node: int) -> StateV {
    let vis = vis_of(t, node);
    if (lang == Lang::Swift || lang == Lang::Java) && contains_seq(vis, "private"@) {
        st
    } else if lang == Lang::Java && java_private(t, node) {
        st
    } else if lang == Lang::Rust && !contains_seq(vis, "pub"@) {
        st
    } else {
        let left = {
            let l = child_by_field(t, node, "left"@);
            if l >= 0 {
                t[l].1
            } else {
                Seq::empty()
            }
        };
        let vt = node_type_of(t, node);
        let cn0 = closest_ancestor_name(t, node);
        let cn = if cn0.len() > 0 && lang == Lang::Ruby {
            match ruby_path(t, node) {
                Some(p) => p,
                None => cn0,
            }
        } else {
            cn0
        };
        if cn0.len() > 0 && lang == Lang::Go && !upper_start(cn0) {
            st
        } else if cn.len() == 0 {
            st
        } else {
            add_property(st, class_label(lang), cn, VariableV { name: left, value_type: vt })
        }
    }
}

/// A `class_variable` capture.
pub open spec fn step_class_variable(lang: Lang, t: Seq<NodeRow>, st: StateV, node: int, name: Seq<char>) -> StateV {
    let vis = vis_of(t, node);
    if lang == Lang::Rust && !contains_seq(vis, "pub"@) {
        st
    } else if (lang == Lang::Swift || lang == Lang::Java) && contains_seq(vis, "private"@) {
        st
    } else if lang == Lang::Java && java_private(t, node) {
        st
    } else {
        let vt = node_type_of(t, node);
        if lang == Lang::Zig && !zig_vardecl_public(t, node) {
            st
        } else {
            let cn0 = closest_ancestor_name(t, node);
            let cn1 = if lang == Lang::Cpp {
                cpp_container_name(t, node)
            } else {
                cn0
            };
            if lang == Lang::Csharp && csharp_classvar_filtered(t, node) {
                st
            } else {
                let cn = if lang == Lang::Zig {
                    opt_or_empty(zig_vardecl_name(t, node))
                } else {
                    cn1
                };
                if cn.len() > 0 && lang == Lang::Go && !upper_start(cn) {
                    st
                } else if cn.len() == 0 {
                    st
                } else if name.len() > 0 && lang == Lang::Go && !upper_start(name) {
                    st
                } else {
                    add_property(st, class_label(lang), cn, VariableV { name: name, value_type: vt })
                }
            }
        }
    }
}

/// A `function` or `arrow_function` capture: a top-level function.
pub open spec fn step_function(lang: Lang, t: Seq<NodeRow>, st: StateV, node: int, name: Seq<char>) -> StateV {
    let vis = vis_of(t, node);
    if (lang == Lang::Swift || lang == Lang::Java) && contains_seq(vis, "private"@) {
        st
    } else if (lang == Lang::Swift || lang == Lang::Java) && parent_of(t, node) >= 0 {
        st
    } else if lang == Lang::Java && java_private(t, node) {
        st
    } else if lang == Lang::Rust && !contains_seq(vis, "pub"@) {
        st
    } else if lang == Lang::Zig && !contains_seq(t[node].1, "pub"@) {
        st
    } else if name.len() > 0 && lang == Lang::Go && !upper_start(name) {
        st
    } else if anc_of_kind(t, node, "impl_item"@) >= 0 {
        st
    } else if anc_of_kind(t, node, "class_specifier"@) >= 0 {
        st
    } else if anc_of_kind(t, node, "struct_specifier"@) >= 0 {
        st
    } else if anc_of_kind(t, node, "function_declaration"@) >= 0 || anc_of_kind(
        t,
        node,
        "function_definition"@,
    ) >= 0 {
        st
    } else {
        let params = {
            let pn = params_base(t, node);
            if pn >= 0 {
                t[pn].1
            } else {
                "()"@
            }
        };
        let rn = if lang == Lang::Cpp {
            child_by_field(t, node, "type"@)
        } else {
            let r = child_by_field(t, node, "return_type"@);
            if r >= 0 {
                r
            } else {
                child_by_field(t, node, "result"@)
            }
        };
        let rt = if rn >= 0 {
            let ty = node_type_of(t, rn);
            if ty.len() > 0 {
                ty
            } else {
                t[rn].1
            }
        } else {
            "void"@
        };
        let acc = desc_text(t, node, "accessibility_modifier"@);
        let f = FuncV {
            name: name,
            params: params,
            return_type: rt,
            accessibility_modifier: opt_of(acc),
        };
        StateV { defs: st.defs.push(DefinitionV::Func(f)), ..st }
    }
}

/// An `assignment` capture: a top-level variable.
pub open spec fn step_assignment(lang: Lang, t: Seq<NodeRow>, st: StateV, node: int) -> StateV {
    let vis = vis_of(t, node);
    if (lang == Lang::Swift || lang == Lang::Java) && contains_seq(vis, "private"@) {
        st
    } else if lang == Lang::Java && java_private(t, node) {
        st
    } else if lang == Lang::Rust && !contains_seq(vis, "pub"@) {
        st
    } else if anc_of_kind(t, node, "impl_item"@) >= 0 || anc_of_kind(t, node, "class_declaration"@)
        >= 0 || anc_of_kind(t, node, "class_definition"@) >= 0 {
        st
    } else if anc_of_kind(t, node, "function_declaration"@) >= 0 || anc_of_kind(
        t,
        node,
        "function_definition"@,
    ) >= 0 {
        st
    } else {
        let left = {
            let l = child_by_field(t, node, "left"@);
            if l >= 0 {
                t[l].1
            } else {
                Seq::empty()
            }
        };
        if left.len() > 0 && lang == Lang::Go && !upper_start(left) {
            st
        } else {
            let vt = node_type_of(t, node);
            StateV {
                defs: st.defs.push(DefinitionV::Variable(VariableV { name: left, value_type: vt })),
                ..st
            }
        }
    }
}

/// A `variable` capture: a top-level variable, or a function when its
/// value is an arrow function.
pub open spec fn step_variable(lang: Lang, t: Seq<NodeRow>, st: StateV, node: int, name: Seq<char>) -> StateV {
    let vis = vis_of(t, node);
    if lang == Lang::Swift && contains_seq(vis, "private"@) {
        st
    } else if lang == Lang::Java && java_private(t, node) {
        st
    } else if lang == Lang::Rust && !contains_seq(vis, "pub"@) {
        st
    } else if lang == Lang::Zig && !zig_vardecl_public(t, node) {
        st
    } else if anc_of_kind(t, node, "impl_item"@) >= 0 || anc_of_kind(t, node, "class_declaration"@)
        >= 0 || anc_of_kind(t, node, "class_definition"@) >= 0 {
        st
    } else if anc_of_kind(t, node, "function_declaration"@) >= 0 || anc_of_kind(
        t,
        node,
        "function_definition"@,
    ) >= 0 {
        st
    } else {
        let vn = child_by_field(t, node, "value"@);
        if vn >= 0 && t[vn].0 == "arrow_function"@ {
            let params = {
                let p = child_by_field(t, vn, "parameters"@);
                if p >= 0 {
                    t[p].1
                } else {
                    "()"@
                }
            };
            let rt = {
                let r = child_by_field(t, vn, "return_type"@);
                if r >= 0 {
                    node_type_of(t, r)
                } else {
                    "void"@
                }
            };
            let f = FuncV {
                name: name,
                params: params,
                return_type: rt,
                accessibility_modifier: None,
            };
            StateV { defs: st.defs.push(DefinitionV::Func(f)), ..st }
        } else {
            let vt0 = node_type_of(t, node);
            if lang == Lang::Zig {
                match zig_type_in_parent(t, node) {
                    Some(zt) => {
                        if name.len() > 0 && lang == Lang::Go && !upper_start(name) {
                            st
                        } else {
                            StateV {
                                defs: st.defs.push(
                                    DefinitionV::Variable(VariableV { name: name, value_type: zt }),
                                ),
                                ..st
                            }
                        }
                    },
                    None => st,
                }
            } else if name.len() > 0 && lang == Lang::Go && !upper_start(name) {
                st
            } else {
                StateV {
                    defs: st.defs.push(
                        DefinitionV::Variable(VariableV { name: name, value_type: vt0 }),
                    ),
                    ..st
                }
            }
        }
    }
}

/// One capture applied to the state: deduplicate, derive the name, and
/// dispatch on the capture kind.
pub open spec fn step(lang: Lang, t: Seq<NodeRow>, st: StateV, cap: (Seq<char>, int)) -> StateV {
    match capture_kind_of(cap.0) {
        None => st,
        Some(k) => {
            let node = cap.1;
            if !(0 <= node < t.len()) {
                st
            } else if st.seen.contains((cap_key(k), node)) {
                st
            } else {
                let st1 = StateV { seen: st.seen.push((cap_key(k), node)), ..st };
                let name = derive_name(lang, t, k, node);
                match k {
                    CaptureKind::Class => step_class(lang, t, st1, node, name),
                    CaptureKind::Module => step_module(st1, name),
                    CaptureKind::Method => step_method(lang, t, st1, node, name),
                    CaptureKind::ClassVariable => step_class_variable(lang, t, st1, node, name),
                    CaptureKind::ClassAssignment => step_class_assignment(lang, t, st1, node),
                    CaptureKind::Function => step_function(lang, t, st1, node, name),
                    CaptureKind::ArrowFunction => step_function(lang, t, st1, node, name),
                    CaptureKind::Variable => step_variable(lang, t, st1, node, name),
                    CaptureKind::Assignment => step_assignment(lang, t, st1, node),
                    CaptureKind::EnumItem => step_enum_item(lang, t, st1, node, name),
                    CaptureKind::UnionItem => step_union_item(lang, t, st1, node, name),
                }
            }
        },
    }
}

/// The empty builder state.
pub open spec fn empty_state() -> StateV {
    StateV {
        defs: Seq::empty(),
        classes: Seq::empty(),
        enums: Seq::empty(),
        unions: Seq::empty(),
        seen: Seq::empty(),
    }
}

/// The state after the whole capture stream, in order.
pub open spec fn run_steps(lang: Lang, t: Seq<NodeRow>, caps: Seq<(Seq<char>, int)>) -> StateV
    decreases caps.len(),
{
    if caps.len() == 0 {
        empty_state()
    } else {
        step(lang, t, run_steps(lang, t, caps.drop_last()), caps.last())
    }
}

/// The parameter text of a method capture.
pub fn method_params_x<'a>(tree: &'a SyntaxTree, lang: Lang, node: usize) -> (r: &'a str)
    requires
        node < tree@.len(),
        tree_wf(tree@),
    ensures
        r@ == method_params(lang, tree@, node as int),
{
    let pn: Option<usize> = if lang == Lang::Zig {
        match tree.anc_of_kind(node, "function_declaration") {
            Some(f) => tree.child_of_kind(f, "parameters"),
            None => None,
        }
    } else if lang == Lang::Elixir {
        match tree.anc_of_kind(node, "call") {
            Some(f) => tree.child_of_kind(f, "arguments"),
            None => None,
        }
    } else {
        match tree.child_by_field(node, "parameters") {
            Some(c) => Some(c),
            None => tree.desc_of_kind(node, "parameter_list"),
        }
    };
    match pn {
        Some(p) => tree.text(p),
        None => "()",
    }
}

/// The rendered return type of a method capture.
pub fn method_ret_x<'a>(tree: &'a SyntaxTree, lang: Lang, node: usize, name: &str) -> (r: &'a str)
    requires
        node < tree@.len(),
        tree_wf(tree@),
    ensures
        r@ == method_ret(lang, tree@, node as int, name@),
{
    let rn0: Option<usize> = if lang == Lang::Cpp {
        tree.child_by_field(node, "type")
    } else if lang == Lang::Csharp {
        tree.child_by_field(node, "returns")
    } else {
        tree.child_by_field(node, "return_type")
    };
    let rn1: Option<usize> = if lang == Lang::Cpp {
        let cs = tree.anc_of_kind(node, "class_specifier");
        let tn = match cs {
            Some(c) => tree.child_by_field(c, "name"),
            None => None,
        };
        match tn {
            Some(n) => {
                if str_eq(name, tree.text(n)) {
                    Some(n)
                } else {
                    rn0
                }
            },
            None => rn0,
        }
    } else if lang == Lang::Csharp {
        let ts = tree.anc_of_kind2(node, "class_declaration", "record_declaration");
        let tn = match ts {
            Some(c) => tree.child_by_field(c, "name"),
            None => None,
        };
        match tn {
            Some(n) => {
                if str_eq(name, tree.text(n)) {
                    Some(n)
                } else {
                    rn0
                }
            },
            None => rn0,
        }
    } else {
        rn0
    };
    let rn: Option<usize> = match rn1 {
        Some(x) => Some(x),
        None => tree.child_by_field(node, "result"),
    };
    match rn {
        Some(x) => {
            let ty = node_type_of_x(tree, x);
            if !ty.is_empty() {
                ty
            } else {
                tree.text(x)
            }
        },
        None => {
            if lang == Lang::Elixir {
                proof {
                    reveal_strlit("");
                    assert(""@ =~= Seq::<char>::empty());
                }
                ""
            } else {
                "void"
            }
        },
    }
}

/// The name of the nearest enclosing C++ class or struct specifier.
pub fn cpp_container_name_x<'a>(tree: &'a SyntaxTree, node: usize) -> (r: &'a str)
    requires
        node < tree@.len(),
        tree_wf(tree@),
    ensures
        r@ == cpp_container_name(tree@, node as int),
{
    proof {
        reveal_strlit("");
        assert(""@ =~= Seq::<char>::empty());
    }
    let tgt: Option<usize> = match tree.anc_of_kind(node, "class_specifier") {
        Some(a) => Some(a),
        None => tree.anc_of_kind(node, "struct_specifier"),
    };
    match tgt {
        Some(a) => {
            match tree.child_by_field(a, "name") {
                Some(c) => tree.text(c),
                None => "",
            }
        },
        None => "",
    }
}

/// The name of the nearest enclosing C# class or record declaration.
pub fn csharp_container_name_x<'a>(tree: &'a SyntaxTree, node: usize) -> (r: &'a str)
    requires
        node < tree@.len(),
        tree_wf(tree@),
    ensures
        r@ == csharp_container_name(tree@, node as int),
{
    proof {
        reveal_strlit("");
        assert(""@ =~= Seq::<char>::empty());
    }
    match tree.anc_of_kind2(node, "class_declaration", "record_declaration") {
        Some(a) => {
            match tree.child_by_field(a, "name") {
                Some(c) => tree.text(c),
                None => "",
            }
        },
        None => "",
    }
}

/// The enclosing container name of a method capture.
pub fn method_class_name_x(tree: &SyntaxTree, lang: Lang, node: usize) -> (r: String)
    requires
        node < tree@.len(),
        tree_wf(tree@),
    ensures
        r@ == method_class_name(lang, tree@, node as int),
{
    proof {
        reveal_strlit("");
        assert(""@ =~= Seq::<char>::empty());
    }
    if lang == Lang::Zig {
        match zig_vardecl_name_x(tree, node) {
            Some(s) => String::from_str(s),
            None => String::new(),
        }
    } else if lang == Lang::Elixir {
        match ex_module_name_x(tree, node) {
            Some(s) => s,
            None => String::new(),
        }
    } else if lang == Lang::Cpp {
        String::from_str(cpp_container_name_x(tree, node))
    } else if lang == Lang::Csharp {
        String::from_str(csharp_container_name_x(tree, node))
    } else if lang == Lang::Ruby {
        match ruby_path_x(tree, node) {
            Some(s) => s,
            None => String::new(),
        }
    } else {
        match tree.anc_of_kind(node, "impl_item") {
            Some(ii) => {
                match tree.child_by_field(ii, "type") {
                    Some(ty) => String::from_str(tree.text(ty)),
                    None => String::new(),
                }
            },
            None => {
                match tree.child_by_field(node, "receiver") {
                    Some(rc) => {
                        match tree.desc_of_kind(rc, "type_identifier") {
                            Some(ti) => String::from_str(tree.text(ti)),
                            None => String::new(),
                        }
                    },
                    None => tree.closest_ancestor_name(node),
                }
            },
        }
    }
}

/// The accessibility modifier recorded on a method.
pub fn method_acc_x<'a>(tree: &'a SyntaxTree, lang: Lang, node: usize) -> (r: &'a str)
    requires
        node < tree@.len(),
        tree_wf(tree@),
    ensures
        r@ == method_acc(lang, tree@, node as int),
{
    if lang == Lang::Ruby {
        if ruby_method_private_x(tree, node) {
            "private"
        } else {
            proof {
                reveal_strlit("");
                assert(""@ =~= Seq::<char>::empty());
            }
            ""
        }
    } else {
        desc_text_x(tree, node, "accessibility_modifier")
    }
}

pub fn csharp_method_filtered_x(tree: &SyntaxTree, node: usize) -> (r: bool)
    requires
        node < tree@.len(),
        tree_wf(tree@),
    ensures
        r == csharp_method_filtered(tree@, node as int),
{
    match tree.desc_of_kind(node, "modifier") {
        None => !csharp_primary_ctor_x(tree, node),
        Some(m) => str_eq(tree.text(m), "private"),
    }
}

pub fn csharp_classvar_filtered_x(tree: &SyntaxTree, node: usize) -> (r: bool)
    requires
        node < tree@.len(),
        tree_wf(tree@),
    ensures
        r == csharp_classvar_filtered(tree@, node as int),
{
    match tree.desc_of_kind(node, "modifier") {
        None => true,
        Some(m) => str_eq(tree.text(m), "private"),
    }
}

/// The symbol name a capture derives.
pub fn derive_name_x(tree: &SyntaxTree, lang: Lang, k: CaptureKind, node: usize) -> (r: String)
    requires
        node < tree@.len(),
        tree_wf(tree@),
    ensures
        r@ == derive_name(lang, tree@, k, node as int),
{
    if lang == Lang::Cpp {
        if k == CaptureKind::Class {
            match tree.child_by_field(node, "name") {
                Some(c) => String::from_str(tree.text(c)),
                None => String::from_str(tree.text(node)),
            }
        } else {
            let ident: Option<usize> = match tree.desc_of_kind(node, "field_identifier") {
                Some(fi) => Some(fi),
                None => {
                    match tree.desc_of_kind(node, "operator_name") {
                        Some(on) => Some(on),
                        None => tree.desc_of_kind(node, "identifier"),
                    }
                },
            };
            match ident {
                Some(id) => {
                    let sc: Option<usize> = match tree.child_by_field(node, "declarator") {
                        Some(d1) => {
                            match tree.child_by_field(d1, "declarator") {
                                Some(d2) => tree.child_by_field(d2, "scope"),
                                None => None,
                            }
                        },
                        None => None,
                    };
                    match sc {
                        Some(scn) => {
                            let mut out = String::from_str(tree.text(scn));
                            out.append("::");
                            out.append(tree.text(id));
                            proof {
                                assert(out@ =~= cpp_scoped_name(tree@, node as int));
                            }
                            out
                        },
                        None => String::from_str(tree.text(id)),
                    }
                },
                None => String::from_str(tree.text(node)),
            }
        }
    } else if lang == Lang::Scala {
        let c2: Option<usize> = match tree.child_by_field(node, "name") {
            Some(c) => Some(c),
            None => tree.child_by_field(node, "pattern"),
        };
        match c2 {
            Some(c) => String::from_str(tree.text(c)),
            None => String::from_str(tree.text(node)),
        }
    } else if lang == Lang::Csharp {
        let ident: usize = if k == CaptureKind::Method && csharp_primary_ctor_x(tree, node) {
            match tree.parent(node) {
                Some(p) => p,
                None => node,
            }
        } else if k == CaptureKind::ClassVariable {
            match tree.desc_of_kind(node, "variable_declarator") {
                Some(d) => d,
                None => node,
            }
        } else {
            node
        };
        match tree.child_by_field(ident, "name") {
            Some(c) => String::from_str(tree.text(c)),
            None => String::from_str(tree.text(node)),
        }
    } else if lang == Lang::Ruby {
        if k == CaptureKind::Class || k == CaptureKind::Module {
            match ruby_path_x(tree, node) {
                Some(p) => p,
                None => {
                    match tree.child_by_field(node, "name") {
                        Some(c) => String::from_str(tree.text(c)),
                        None => String::from_str(tree.text(node)),
                    }
                },
            }
        } else {
            match tree.child_by_field(node, "name") {
                Some(c) => String::from_str(tree.text(c)),
                None => String::from_str(tree.text(node)),
            }
        }
    } else {
        match tree.child_by_field(node, "name") {
            Some(c) => String::from_str(tree.text(c)),
            None => String::from_str(tree.text(node)),
        }
    }
}

/// Apply a `class` capture.
pub fn do_class(st: &mut BuilderState, tree: &SyntaxTree, lang: Lang, node: usize, name: &str)
    requires
        node < tree@.len(),
        tree_wf(tree@),
    ensures
        final(st)@ == step_class(lang, tree@, old(st)@, node as int, name@),
{
    if name.is_empty() {
        return;
    }
    if lang == Lang::Go && !str_upper_start(name) {
        return;
    }
    let label: &str = if lang == Lang::Elixir {
        "module"
    } else {
        "class"
    };
    proof {
        assert(label@ == class_label(lang));
    }
    let idx = st.ensure_class(label, name);
    let vis: &str = match tree.child_of_kind(node, "visibility_modifier") {
        Some(c) => tree.text(c),
        None => {
            proof {
                reveal_strlit("");
                assert(""@ =~= Seq::<char>::empty());
            }
            ""
        },
    };
    let vm: Option<String> = if vis.is_empty() {
        None
    } else {
        Some(String::from_str(vis))
    };
    st.set_class_vis(idx, vm);
    proof {
        assert(st@ =~~= step_class(lang, tree@, old(st)@, node as int, name@));
    }
}

/// Apply a `module` capture.
pub fn do_module(st: &mut BuilderState, name: &str)
    ensures
        final(st)@ == step_module(old(st)@, name@),
{
    if name.is_empty() {
        return;
    }
    let _idx = st.ensure_class("module", name);
    proof {
        assert(st@ =~~= step_module(old(st)@, name@));
    }
}

/// Apply an `enum_item` capture.
pub fn do_enum_item(st: &mut BuilderState, tree: &SyntaxTree, lang: Lang, node: usize, name: &str)
    requires
        node < tree@.len(),
        tree_wf(tree@),
    ensures
        final(st)@ == step_enum_item(lang, tree@, old(st)@, node as int, name@),
{
    let vis = vis_of_x(tree, node);
    if lang == Lang::Rust && !str_contains(vis, "pub") {
        return;
    }
    if lang == Lang::Zig && !zig_vardecl_public_x(tree, node) {
        return;
    }
    let en0 = tree.closest_ancestor_name(node);
    let en1: String = if lang == Lang::Zig {
        match zig_vardecl_name_x(tree, node) {
            Some(s) => String::from_str(s),
            None => {
                proof {
                    reveal_strlit("");
                    assert(""@ =~= Seq::<char>::empty());
                }
                String::new()
            },
        }
    } else {
        en0
    };
    let en: String = if lang == Lang::Scala {
        let c: Option<usize> = match tree.anc_of_kind(node, "enum_definition") {
            Some(e) => tree.child_by_field(e, "name"),
            None => None,
        };
        match c {
            Some(cn) => String::from_str(tree.text(cn)),
            None => en1,
        }
    } else {
        en1
    };
    if !en.as_str().is_empty() && lang == Lang::Go && !str_upper_start(en.as_str()) {
        return;
    }
    let idx = st.ensure_enum(en.as_str());
    let ty = desc_text_x(tree, node, "type_identifier");
    let v = Variable { name: String::from_str(name), value_type: String::from_str(ty) };
    st.push_enum_item(idx, v);
    proof {
        assert(st@ =~~= step_enum_item(lang, tree@, old(st)@, node as int, name@));
    }
}

/// Apply a `union_item` capture.
pub fn do_union_item(st: &mut BuilderState, tree: &SyntaxTree, lang: Lang, node: usize, name: &str)
    requires
        node < tree@.len(),
        tree_wf(tree@),
    ensures
        final(st)@ == step_union_item(lang, tree@, old(st)@, node as int, name@),
{
    if !(lang == Lang::Zig) {
        return;
    }
    if !zig_vardecl_public_x(tree, node) {
        return;
    }
    let un: String = match zig_vardecl_name_x(tree, node) {
        Some(s) => String::from_str(s),
        None => {
            proof {
                reveal_strlit("");
                assert(""@ =~= Seq::<char>::empty());
            }
            String::new()
        },
    };
    let idx = st.ensure_union(un.as_str());
    let ty = desc_text_x(tree, node, "type_identifier");
    let v = Variable { name: String::from_str(name), value_type: String::from_str(ty) };
    st.push_union_item(idx, v);
    proof {
        assert(st@ =~~= step_union_item(lang, tree@, old(st)@, node as int, name@));
    }
}

/// Apply a `method` capture.
pub fn do_method(st: &mut BuilderState, tree: &SyntaxTree, lang: Lang, node: usize, name: &str)
    requires
        node < tree@.len(),
        tree_wf(tree@),
    ensures
        final(st)@ == step_method(lang, tree@, old(st)@, node as int, name@),
{
    let vis = vis_of_x(tree, node);
    if lang == Lang::Swift && str_contains(vis, "private") {
        return;
    }
    if lang == Lang::Java && java_private_x(tree, node) {
        return;
    }
    if lang == Lang::Rust && !str_contains(vis, "pub") {
        return;
    }
    if lang == Lang::Zig && !(zig_fndecl_public_x(tree, node) && zig_vardecl_public_x(tree, node)) {
        return;
    }
    if lang == Lang::Cpp {
        match tree.desc_of_kind(node, "destructor_name") {
            Some(_d) => {
                return;
            },
            None => {
            },
        }
    }
    if !name.is_empty() && lang == Lang::Go && !str_upper_start(name) {
        return;
    }
    if lang == Lang::Csharp && csharp_method_filtered_x(tree, node) {
        return;
    }
    let params = method_params_x(tree, lang, node);
    let rt = method_ret_x(tree, lang, node, name);
    let cname = method_class_name_x(tree, lang, node);
    if lang == Lang::Go && !str_upper_start(cname.as_str()) {
        return;
    }
    let acc = method_acc_x(tree, lang, node);
    let f = Func {
        name: String::from_str(name),
        params: String::from_str(params),
        return_type: String::from_str(rt),
        accessibility_modifier: if acc.is_empty() {
            None
        } else {
            Some(String::from_str(acc))
        },
    };
    let label: &str = if lang == Lang::Elixir {
        "module"
    } else {
        "class"
    };
    proof {
        assert(label@ == class_label(lang));
    }
    let idx = st.ensure_class(label, cname.as_str());
    st.push_method(idx, f);
    proof {
        assert(st@ =~~= step_method(lang, tree@, old(st)@, node as int, name@));
    }
}

/// Apply a `class_assignment` capture.
pub fn do_class_assignment(st: &mut BuilderState, tree: &SyntaxTree, lang: Lang, node: usize)
    requires
        node < tree@.len(),
        tree_wf(tree@),
    ensures
        final(st)@ == step_class_assignment(lang, tree@, old(st)@, node as int),
{
    let vis = vis_of_x(tree, node);
    if (lang == Lang::Swift || lang == Lang::Java) && str_contains(vis, "private") {
        return;
    }
    if lang == Lang::Java && java_private_x(tree, node) {
        return;
    }
    if lang == Lang::Rust && !str_contains(vis, "pub") {
        return;
    }
    let left: &str = match tree.child_by_field(node, "left") {
        Some(l) => tree.text(l),
        None => {
            proof {
                reveal_strlit("");
                assert(""@ =~= Seq::<char>::empty());
            }
            ""
        },
    };
    let vt = node_type_of_x(tree, node);
    let cn0 = tree.closest_ancestor_name(node);
    let cn: String = if !cn0.as_str().is_empty() && lang == Lang::Ruby {
        match ruby_path_x(tree, node) {
            Some(p) => p,
            None => cn0.clone(),
        }
    } else {
        cn0.clone()
    };
    if !cn0.as_str().is_empty() && lang == Lang::Go && !str_upper_start(cn0.as_str()) {
        return;
    }
    if cn.as_str().is_empty() {
        return;
    }
    let label: &str = if lang == Lang::Elixir {
        "module"
    } else {
        "class"
    };
    proof {
        assert(label@ == class_label(lang));
    }
    let idx = st.ensure_class(label, cn.as_str());
    let v = Variable { name: String::from_str(left), value_type: String::from_str(vt) };
    st.push_property(idx, v);
    proof {
        assert(st@ =~~= step_class_assignment(lang, tree@, old(st)@, node as int));
    }
}

/// Apply a `class_variable` capture.
pub fn do_class_variable(st: &mut BuilderState, tree: &SyntaxTree, lang: Lang, node: usize, name: &str)
    requires
        node < tree@.len(),
        tree_wf(tree@),
    ensures
        final(st)@ == step_class_variable(lang, tree@, old(st)@, node as int, name@),
{
    let vis = vis_of_x(tree, node);
    if lang == Lang::Rust && !str_contains(vis, "pub") {
        return;
    }
    if (lang == Lang::Swift || lang == Lang::Java) && str_contains(vis, "private") {
        return;
    }
    if lang == Lang::Java && java_private_x(tree, node) {
        return;
    }
    let vt = node_type_of_x(tree, node);
    if lang == Lang::Zig && !zig_vardecl_public_x(tree, node) {
        return;
    }
    let cn0 = tree.closest_ancestor_name(node);
    let cn1: String = if lang == Lang::Cpp {
        String::from_str(cpp_container_name_x(tree, node))
    } else {
        cn0
    };
    if lang == Lang::Csharp && csharp_classvar_filtered_x(tree, node) {
        return;
    }
    let cn: String = if lang == Lang::Zig {
        match zig_vardecl_name_x(tree, node) {
            Some(s) => String::from_str(s),
            None => {
                proof {
                    reveal_strlit("");
                    assert(""@ =~= Seq::<char>::empty());
                }
                String::new()
            },
        }
    } else {
        cn1
    };
    if !cn.as_str().is_empty() && lang == Lang::Go && !str_upper_start(cn.as_str()) {
        return;
    }
    if cn.as_str().is_empty() {
        return;
    }
    if !name.is_empty() && lang == Lang::Go && !str_upper_start(name) {
        return;
    }
    let label: &str = if lang == Lang::Elixir {
        "module"
    } else {
        "class"
    };
    proof {
        assert(label@ == class_label(lang));
    }
    let idx = st.ensure_class(label, cn.as_str());
    let v = Variable { name: String::from_str(name), value_type: String::from_str(vt) };
    st.push_property(idx, v);
    proof {
        assert(st@ =~~= step_class_variable(lang, tree@, old(st)@, node as int, name@));
    }
}

/// Apply a `function` or `arrow_function` capture.
pub fn do_function(st: &mut BuilderState, tree: &SyntaxTree, lang: Lang, node: usize, name: &str)
    requires
        node < tree@.len(),
        tree_wf(tree@),
    ensures
        final(st)@ == step_function(lang, tree@, old(st)@, node as int, name@),
{
    let vis = vis_of_x(tree, node);
    if (lang == Lang::Swift || lang == Lang::Java) && str_contains(vis, "private") {
        return;
    }
    if lang == Lang::Swift || lang == Lang::Java {
        match tree.parent(node) {
            Some(_p) => {
                return;
            },
            None => {
            },
        }
    }
    if lang == Lang::Java && java_private_x(tree, node) {
        return;
    }
    if lang == Lang::Rust && !str_contains(vis, "pub") {
        return;
    }
    if lang == Lang::Zig && !str_contains(tree.text(node), "pub") {
        return;
    }
    if !name.is_empty() && lang == Lang::Go && !str_upper_start(name) {
        return;
    }
    match tree.anc_of_kind(node, "impl_item") {
        Some(_a) => {
            return;
        },
        None => {
        },
    }
    match tree.anc_of_kind(node, "class_specifier") {
        Some(_a) => {
            return;
        },
        None => {
        },
    }
    match tree.anc_of_kind(node, "struct_specifier") {
        Some(_a) => {
            return;
        },
        None => {
        },
    }
    let in_fn: bool = match tree.anc_of_kind(node, "function_declaration") {
        Some(_a) => true,
        None => {
            match tree.anc_of_kind(node, "function_definition") {
                Some(_a) => true,
                None => false,
            }
        },
    };
    if in_fn {
        return;
    }
    let params: &str = {
        let pn: Option<usize> = match tree.child_by_field(node, "parameters") {
            Some(c) => Some(c),
            None => tree.desc_of_kind(node, "parameter_list"),
        };
        match pn {
            Some(p) => tree.text(p),
            None => "()",
        }
    };
    let rn: Option<usize> = if lang == Lang::Cpp {
        tree.child_by_field(node, "type")
    } else {
        match tree.child_by_field(node, "return_type") {
            Some(r) => Some(r),
            None => tree.child_by_field(node, "result"),
        }
    };
    let rt: &str = match rn {
        Some(x) => {
            let ty = node_type_of_x(tree, x);
            if !ty.is_empty() {
                ty
            } else {
                tree.text(x)
            }
        },
        None => "void",
    };
    let acc = desc_text_x(tree, node, "accessibility_modifier");
    let f = Func {
        name: String::from_str(name),
        params: String::from_str(params),
        return_type: String::from_str(rt),
        accessibility_modifier: if acc.is_empty() {
            None
        } else {
            Some(String::from_str(acc))
        },
    };
    st.push_def(Definition::Func(f));
    proof {
        assert(st@ =~~= step_function(lang, tree@, old(st)@, node as int, name@));
    }
}

/// Apply an `assignment` capture.
pub fn do_assignment(st: &mut BuilderState, tree: &SyntaxTree, lang: Lang, node: usize)
    requires
        node < tree@.len(),
        tree_wf(tree@),
    ensures
        final(st)@ == step_assignment(lang, tree@, old(st)@, node as int),
{
    let vis = vis_of_x(tree, node);
    if (lang == Lang::Swift || lang == Lang::Java) && str_contains(vis, "private") {
        return;
    }
    if lang == Lang::Java && java_private_x(tree, node) {
        return;
    }
    if lang == Lang::Rust && !str_contains(vis, "pub") {
        return;
    }
    let in_class: bool = match tree.anc_of_kind(node, "impl_item") {
        Some(_a) => true,
        None => {
            match tree.anc_of_kind(node, "class_declaration") {
                Some(_a) => true,
                None => {
                    match tree.anc_of_kind(node, "class_definition") {
                        Some(_a) => true,
                        None => false,
                    }
                },
            }
        },
    };
    if in_class {
        return;
    }
    let in_fn: bool = match tree.anc_of_kind(node, "function_declaration") {
        Some(_a) => true,
        None => {
            match tree.anc_of_kind(node, "function_definition") {
                Some(_a) => true,
                None => false,
            }
        },
    };
    if in_fn {
        return;
    }
    let left: &str = match tree.child_by_field(node, "left") {
        Some(l) => tree.text(l),
        None => {
            proof {
                reveal_strlit("");
                assert(""@ =~= Seq::<char>::empty());
            }
            ""
        },
    };
    if !left.is_empty() && lang == Lang::Go && !str_upper_start(left) {
        return;
    }
    let vt = node_type_of_x(tree, node);
    let v = Variable { name: String::from_str(left), value_type: String::from_str(vt) };
    st.push_def(Definition::Variable(v));
    proof {
        assert(st@ =~~= step_assignment(lang, tree@, old(st)@, node as int));
    }
}

/// Apply a `variable` capture.
pub fn do_variable(st: &mut BuilderState, tree: &SyntaxTree, lang: Lang, node: usize, name: &str)
    requires
        node < tree@.len(),
        tree_wf(tree@),
    ensures
        final(st)@ == step_variable(lang, tree@, old(st)@, node as int, name@),
{
    let vis = vis_of_x(tree, node);
    if lang == Lang::Swift && str_contains(vis, "private") {
        return;
    }
    if lang == Lang::Java && java_private_x(tree, node) {
        return;
    }
    if lang == Lang::Rust && !str_contains(vis, "pub") {
        return;
    }
    if lang == Lang::Zig && !zig_vardecl_public_x(tree, node) {
        return;
    }
    let in_class: bool = match tree.anc_of_kind(node, "impl_item") {
        Some(_a) => true,
        None => {
            match tree.anc_of_kind(node, "class_declaration") {
                Some(_a) => true,
                None => {
                    match tree.anc_of_kind(node, "class_definition") {
                        Some(_a) => true,
                        None => false,
                    }
                },
            }
        },
    };
    if in_class {
        return;
    }
    let in_fn: bool = match tree.anc_of_kind(node, "function_declaration") {
        Some(_a) => true,
        None => {
            match tree.anc_of_kind(node, "function_definition") {
                Some(_a) => true,
                None => false,
            }
        },
    };
    if in_fn {
        return;
    }
    let vn = tree.child_by_field(node, "value");
    let is_arrow: bool = match vn {
        Some(v) => str_eq(tree.kind(v), "arrow_function"),
        None => false,
    };
    if is_arrow {
        let v = match vn {
            Some(v) => v,
            None => node,
        };
        let params: &str = match tree.child_by_field(v, "parameters") {
            Some(p) => tree.text(p),
            None => "()",
        };
        let rt: &str = match tree.child_by_field(v, "return_type") {
            Some(r) => node_type_of_x(tree, r),
            None => "void",
        };
        let f = Func {
            name: String::from_str(name),
            params: String::from_str(params),
            return_type: String::from_str(rt),
            accessibility_modifier: None,
        };
        st.push_def(Definition::Func(f));
        proof {
            assert(st@ =~~= step_variable(lang, tree@, old(st)@, node as int, name@));
        }
        return;
    }
    let vt: &str = node_type_of_x(tree, node);
    if lang == Lang::Zig {
        let zt: String = match zig_type_in_parent_x(tree, node) {
            Some(z) => String::from_str(z),
            None => {
                proof {
                    assert(st@ =~~= step_variable(lang, tree@, old(st)@, node as int, name@));
                }
                return;
            },
        };
        if !name.is_empty() && lang == Lang::Go && !str_upper_start(name) {
            return;
        }
        let v = Variable { name: String::from_str(name), value_type: zt };
        st.push_def(Definition::Variable(v));
        proof {
            assert(st@ =~~= step_variable(lang, tree@, old(st)@, node as int, name@));
        }
        return;
    }
    if !name.is_empty() && lang == Lang::Go && !str_upper_start(name) {
        return;
    }
    let v = Variable { name: String::from_str(name), value_type: String::from_str(vt) };
    st.push_def(Definition::Variable(v));
    proof {
        assert(st@ =~~= step_variable(lang, tree@, old(st)@, node as int, name@));
    }
}

/// The numeric key of a capture kind.
pub fn cap_key_x(k: CaptureKind) -> (r: u8)
    ensures
        r as int == cap_key(k),
{
    match k {
        CaptureKind::Class => 0,
        CaptureKind::Module => 1,
        CaptureKind::Method => 2,
        CaptureKind::ClassVariable => 3,
        CaptureKind::ClassAssignment => 4,
        CaptureKind::Function => 5,
        CaptureKind::ArrowFunction => 6,
        CaptureKind::Variable => 7,
        CaptureKind::Assignment => 8,
        CaptureKind::EnumItem => 9,
        CaptureKind::UnionItem => 10,
    }
}

/// Apply one capture: deduplicate, derive the name, dispatch.
pub fn apply_capture(st: &mut BuilderState, tree: &SyntaxTree, lang: Lang, cap_name: &str, node: usize)
    requires
        tree_wf(tree@),
    ensures
        final(st)@ == step(lang, tree@, old(st)@, (cap_name@, node as int)),
{
    let k = match parse_capture_kind(cap_name) {
        Some(k) => k,
        None => {
            return;
        },
    };
    if node >= tree.len() {
        return;
    }
    let key = cap_key_x(k);
    if st.seen_contains(key, node) {
        return;
    }
    st.push_seen(key, node);
    let name = derive_name_x(tree, lang, k, node);
    match k {
        CaptureKind::Class => do_class(st, tree, lang, node, name.as_str()),
        CaptureKind::Module => do_module(st, name.as_str()),
        CaptureKind::Method => do_method(st, tree, lang, node, name.as_str()),
        CaptureKind::ClassVariable => do_class_variable(st, tree, lang, node, name.as_str()),
        CaptureKind::ClassAssignment => do_class_assignment(st, tree, lang, node),
        CaptureKind::Function => do_function(st, tree, lang, node, name.as_str()),
        CaptureKind::ArrowFunction => do_function(st, tree, lang, node, name.as_str()),
        CaptureKind::Variable => do_variable(st, tree, lang, node, name.as_str()),
        CaptureKind::Assignment => do_assignment(st, tree, lang, node),
        CaptureKind::EnumItem => do_enum_item(st, tree, lang, node, name.as_str()),
        CaptureKind::UnionItem => do_union_item(st, tree, lang, node, name.as_str()),
    }
}

/// The ghost view of the capture stream.
pub open spec fn caps_view(caps: Seq<(String, usize)>) -> Seq<(Seq<char>, int)> {
    caps.map_values(|c: (String, usize)| (c.0@, c.1 as int))
}

/// Run the whole capture stream over a fresh state.
pub fn run_captures(tree: &SyntaxTree, lang: Lang, caps: &Vec<(String, usize)>) -> (st: BuilderState)
    requires
        tree_wf(tree@),
    ensures
        st@ == run_steps(lang, tree@, caps_view(caps@)),
{
    let ghost cv = caps_view(caps@);
    let mut st = BuilderState::new();
    proof {
        assert(cv.take(0) =~= Seq::<(Seq<char>, int)>::empty());
    }
    let n = caps.len();
    let mut i: usize = 0;
    while i < n
        invariant
            0 <= i <= n,
            n == caps.len(),
            cv == caps_view(caps@),
            cv.len() == n,
            tree_wf(tree@),
            st@ == run_steps(lang, tree@, cv.take(i as int)),
        decreases n - i,
    {
        let c = &caps[i];
        apply_capture(&mut st, tree, lang, c.0.as_str(), c.1);
        proof {
            assert(cv.take(i + 1).drop_last() =~= cv.take(i as int));
            assert(cv.take(i + 1).last() == cv[i as int]);
            assert(cv[i as int] == (caps@[i as int].0@, caps@[i as int].1 as int));
        }
        i += 1;
    }
    proof {
        assert(cv.take(n as int) =~= cv);
    }
    st
}

/// The emitted stream for one class record: suppressed for Rust unless
/// its recorded visibility mentions `pub`.
pub open spec fn class_part(lang: Lang, c: ClassV) -> Seq<DefinitionV> {
    if lang == Lang::Rust {
        match c.visibility_modifier {
            Some(v) => if contains_seq(v, "pub"@) {
                seq![DefinitionV::Class(c)]
            } else {
                Seq::empty()
            },
            None => Seq::empty(),
        }
    } else {
        seq![DefinitionV::Class(c)]
    }
}

/// The emitted stream of all class records, in map order.
pub open spec fn class_defs(lang: Lang, cs: Seq<ClassV>) -> Seq<DefinitionV>
    decreases cs.len(),
{
    if cs.len() == 0 {
        Seq::empty()
    } else {
        class_part(lang, cs.first()) + class_defs(lang, cs.drop_first())
    }
}

/// The emitted stream of all enum records, in map order.
pub open spec fn enum_defs(es: Seq<EnumV>) -> Seq<DefinitionV>
    decreases es.len(),
{
    if es.len() == 0 {
        Seq::empty()
    } else {
        seq![DefinitionV::Enum(es.first())] + enum_defs(es.drop_first())
    }
}

/// The emitted stream of all union records, in map order.
pub open spec fn union_defs(us: Seq<UnionV>) -> Seq<DefinitionV>
    decreases us.len(),
{
    if us.len() == 0 {
        Seq::empty()
    } else {
        seq![DefinitionV::Union(us.first())] + union_defs(us.drop_first())
    }
}

/// The final outline stream: top-level definitions in discovery order,
/// then classes, enums and unions, each in sorted-name order.
pub open spec fn emit(lang: Lang, st: StateV) -> Seq<DefinitionV> {
    st.defs + class_defs(lang, st.classes) + enum_defs(st.enums) + union_defs(st.unions)
}

/// The built outline stream for a tree and its capture stream.
pub open spec fn build_model(lang: Lang, t: Seq<NodeRow>, caps: Seq<(Seq<char>, int)>) -> Seq<
    DefinitionV,
> {
    emit(lang, run_steps(lang, t, caps))
}

/// Drain the builder state into the final outline stream.
pub fn emit_defs(st: BuilderState, lang: Lang) -> (defs: Vec<Definition>)
    ensures
        defs@.map_values(|d: Definition| d@) == emit(lang, st@),
{
    let ghost st0 = st@;
    let BuilderState { mut defs, mut classes, mut enums, mut unions, seen: _seen } = st;
    proof {
        assert(emit(lang, st0) == st0.defs + class_defs(lang, st0.classes) + enum_defs(st0.enums)
            + union_defs(st0.unions));
    }
    while classes.len() > 0
        invariant
            emit(lang, st0) == defs@.map_values(|d: Definition| d@) + class_defs(
                lang,
                classes@.map_values(|c: crate::model::Class| c@),
            ) + enum_defs(enums@.map_values(|e: crate::model::Enum| e@)) + union_defs(
                unions@.map_values(|u: crate::model::Union| u@),
            ),
        decreases classes.len(),
    {
        let ghost before = classes@.map_values(|c: crate::model::Class| c@);
        let c = classes.remove(0);
        proof {
            assert(classes@.map_values(|c: crate::model::Class| c@) =~= before.drop_first());
            assert(before.first() == c@);
        }
        let keep: bool = if lang == Lang::Rust {
            match &c.visibility_modifier {
                Some(v) => str_contains(v.as_str(), "pub"),
                None => false,
            }
        } else {
            true
        };
        if keep {
            let ghost dv = defs@.map_values(|d: Definition| d@);
            defs.push(Definition::Class(c));
            proof {
                assert(defs@.map_values(|d: Definition| d@) =~= dv.push(
                    DefinitionV::Class(before.first()),
                ));
                assert(dv.push(DefinitionV::Class(before.first())) =~= dv + class_part(
                    lang,
                    before.first(),
                ));
            }
        } else {
            proof {
                assert(class_part(lang, before.first()) =~= Seq::<DefinitionV>::empty());
                assert(defs@.map_values(|d: Definition| d@) + class_part(lang, before.first())
                    =~= defs@.map_values(|d: Definition| d@));
            }
        }
        proof {
            assert(defs@.map_values(|d: Definition| d@) + class_defs(lang, before.drop_first())
                =~= (defs@.map_values(|d: Definition| d@) + class_defs(lang, before.drop_first())));
        }
    }
    proof {
        assert(class_defs(lang, classes@.map_values(|c: crate::model::Class| c@))
            =~= Seq::<DefinitionV>::empty());
    }
    while enums.len() > 0
        invariant
            emit(lang, st0) == defs@.map_values(|d: Definition| d@) + enum_defs(
                enums@.map_values(|e: crate::model::Enum| e@),
            ) + union_defs(unions@.map_values(|u: crate::model::Union| u@)),
        decreases enums.len(),
    {
        let ghost before = enums@.map_values(|e: crate::model::Enum| e@);
        let e = enums.remove(0);
        proof {
            assert(enums@.map_values(|e: crate::model::Enum| e@) =~= before.drop_first());
            assert(before.first() == e@);
        }
        let ghost dv = defs@.map_values(|d: Definition| d@);
        defs.push(Definition::Enum(e));
        proof {
            assert(defs@.map_values(|d: Definition| d@) =~= dv.push(
                DefinitionV::Enum(before.first()),
            ));
            assert(dv.push(DefinitionV::Enum(before.first())) =~= dv + seq![
                DefinitionV::Enum(before.first())
            ]);
        }
    }
    proof {
        assert(enum_defs(enums@.map_values(|e: crate::model::Enum| e@))
            =~= Seq::<DefinitionV>::empty());
    }
    while unions.len() > 0
        invariant
            emit(lang, st0) == defs@.map_values(|d: Definition| d@) + union_defs(
                unions@.map_values(|u: crate::model::Union| u@),
            ),
        decreases unions.len(),
    {
        let ghost before = unions@.map_values(|u: crate::model::Union| u@);
        let u = unions.remove(0);
        proof {
            assert(unions@.map_values(|u: crate::model::Union| u@) =~= before.drop_first());
            assert(before.first() == u@);
        }
        let ghost dv = defs@.map_values(|d: Definition| d@);
        defs.push(Definition::Union(u));
        proof {
            assert(defs@.map_values(|d: Definition| d@) =~= dv.push(
                DefinitionV::Union(before.first()),
            ));
            assert(dv.push(DefinitionV::Union(before.first())) =~= dv + seq![
                DefinitionV::Union(before.first())
            ]);
        }
    }
    proof {
        assert(union_defs(unions@.map_values(|u: crate::model::Union| u@))
            =~= Seq::<DefinitionV>::empty());
        assert(defs@.map_values(|d: Definition| d@) + Seq::<DefinitionV>::empty()
            =~= defs@.map_values(|d: Definition| d@));
    }
    defs
}

/// Build the outline stream from a flattened tree and its captures.
pub fn build_definitions(tree: &SyntaxTree, lang: Lang, caps: &Vec<(String, usize)>) -> (defs: Vec<
    Definition,
>)
    requires
        tree_wf(tree@),
    ensures
        defs@.map_values(|d: Definition| d@) == build_model(lang, tree@, caps_view(caps@)),
{
    let st = run_captures(tree, lang, caps);
    emit_defs(st, lang)
}

} // verus!
