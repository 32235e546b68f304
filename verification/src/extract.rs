//! The symbol builder's per-language helpers: visibility detection,
//! container resolution and type extraction, each a ghost function over
//! the arena rows with a proved executable twin.

use vstd::prelude::*;
use vstd::string::StrSliceExecFns;
use crate::tree::{
    NodeRow, SyntaxTree, tree_wf, parent_of, child_by_field, child_of_kind, anc_of_kind,
    desc_of_kind, prev_sibling,
};
use crate::strutil::{contains_seq, is_prefix, str_contains, str_eq, str_starts_with};

verus! {

/// The text of the first `visibility_modifier` descendant, or "".
pub open spec fn vis_of(t: Seq<NodeRow>, i: int) -> Seq<char> {
    let d = desc_of_kind(t, i, "visibility_modifier"@);
    if d >= 0 {
        t[d].1
    } else {
        Seq::empty()
    }
}

/// The text of the first descendant of kind `k`, or "".
pub open spec fn desc_text(t: Seq<NodeRow>, i: int, k: Seq<char>) -> Seq<char> {
    let d = desc_of_kind(t, i, k);
    if d >= 0 {
        t[d].1
    } else {
        Seq::empty()
    }
}

/// A `modifiers` descendant exists and mentions `private`.
pub open spec fn java_private(t: Seq<NodeRow>, i: int) -> bool {
    let m = desc_of_kind(t, i, "modifiers"@);
    m >= 0 && contains_seq(t[m].1, "private"@)
}

/// The enclosing declaration of kind `k` exists and its text starts
/// with `pub`.
pub open spec fn zig_decl_public(t: Seq<NodeRow>, i: int, k: Seq<char>) -> bool {
    let d = anc_of_kind(t, i, k);
    d >= 0 && is_prefix(t[d].1, "pub"@)
}

pub open spec fn zig_vardecl_public(t: Seq<NodeRow>, i: int) -> bool {
    zig_decl_public(t, i, "variable_declaration"@)
}

pub open spec fn zig_fndecl_public(t: Seq<NodeRow>, i: int) -> bool {
    zig_decl_public(t, i, "function_declaration"@)
}

/// The identifier of the enclosing `variable_declaration`, if any.
pub open spec fn zig_vardecl_name(t: Seq<NodeRow>, i: int) -> Option<Seq<char>> {
    let d = anc_of_kind(t, i, "variable_declaration"@);
    if d >= 0 {
        let c = child_of_kind(t, d, "identifier"@);
        if c >= 0 {
            Some(t[c].1)
        } else {
            None
        }
    } else {
        None
    }
}

/// The `type`-field child of the parent node, if any.
pub open spec fn zig_type_in_parent(t: Seq<NodeRow>, i: int) -> Option<Seq<char>> {
    let p = parent_of(t, i);
    if p >= 0 {
        let c = child_by_field(t, p, "type"@);
        if c >= 0 {
            Some(t[c].1)
        } else {
            None
        }
    } else {
        None
    }
}

/// A parameter list standing directly under a class or record
/// declaration: a primary constructor.
pub open spec fn csharp_primary_ctor(t: Seq<NodeRow>, i: int) -> bool {
    let p = parent_of(t, i);
    t[i].0 == "parameter_list"@ && p >= 0 && (t[p].0 == "class_declaration"@ || t[p].0
        == "record_declaration"@)
}

/// The value type of a node: the first `predefined_type` descendant,
/// else the `type`-field child, else "".
pub open spec fn node_type_of(t: Seq<NodeRow>, i: int) -> Seq<char> {
    let d = desc_of_kind(t, i, "predefined_type"@);
    if d >= 0 {
        t[d].1
    } else {
        let c = child_by_field(t, i, "type"@);
        if c >= 0 {
            t[c].1
        } else {
            Seq::empty()
        }
    }
}

/// The name parts of the `module`/`class` nodes on the path from the
/// root down to `i` (itself included).
pub open spec fn ruby_parts(t: Seq<NodeRow>, i: int) -> Seq<Seq<char>>
    decreases i when i >= 0
{
    let own = if 0 <= i < t.len() && (t[i].0 == "module"@ || t[i].0 == "class"@) && child_by_field(
        t,
        i,
        "name"@,
    ) >= 0 {
        seq![t[child_by_field(t, i, "name"@)].1]
    } else {
        Seq::empty()
    };
    let p = parent_of(t, i);
    if p < 0 || p >= i {
        own
    } else {
        ruby_parts(t, p) + own
    }
}

/// Parts joined with `::`.
pub open spec fn join_colons(parts: Seq<Seq<char>>) -> Seq<char>
    decreases parts.len(),
{
    if parts.len() == 0 {
        Seq::empty()
    } else if parts.len() == 1 {
        parts[0]
    } else {
        join_colons(parts.drop_last()) + "::"@ + parts.last()
    }
}

/// The `::`-joined module/class path enclosing `i`, if any part exists.
pub open spec fn ruby_path(t: Seq<NodeRow>, i: int) -> Option<Seq<char>> {
    if ruby_parts(t, i).len() == 0 {
        None
    } else {
        Some(join_colons(ruby_parts(t, i)))
    }
}

/// The arguments of the nearest enclosing `defmodule` call, if any.
pub open spec fn ex_module_name(t: Seq<NodeRow>, i: int) -> Option<Seq<char>>
    decreases i when i >= 0
{
    let p = parent_of(t, i);
    if p < 0 || p >= i {
        None
    } else if t[p].0 == "call"@ && is_prefix(t[p].1, "defmodule "@) && child_of_kind(
        t,
        p,
        "arguments"@,
    ) >= 0 {
        Some(t[child_of_kind(t, p, "arguments"@)].1)
    } else {
        ex_module_name(t, p)
    }
}

/// Whether a Ruby method stands under a `private` marker: the nearest
/// previous sibling identifier that reads `private`, `public` or
/// `protected` decides; a `class` or `module` sibling ends the search.
pub open spec fn ruby_method_private(t: Seq<NodeRow>, j: int) -> bool
    decreases j when j >= 0
{
    let m = prev_sibling(t, j);
    if m < 0 || m >= j {
        false
    } else if t[m].0 == "identifier"@ {
        if t[m].1 == "private"@ {
            true
        } else if t[m].1 == "public"@ || t[m].1 == "protected"@ {
            false
        } else {
            ruby_method_private(t, m)
        }
    } else if t[m].0 == "class"@ || t[m].0 == "module"@ {
        false
    } else {
        ruby_method_private(t, m)
    }
}

/// The text of the first `visibility_modifier` descendant.
pub fn vis_of_x<'a>(tree: &'a SyntaxTree, i: usize) -> (r: &'a str)
    requires
        i < tree@.len(),
        tree_wf(tree@),
    ensures
        r@ == vis_of(tree@, i as int),
{
    proof {
        reveal_strlit("");
        assert(""@ =~= Seq::<char>::empty());
    }
    match tree.desc_of_kind(i, "visibility_modifier") {
        Some(d) => tree.text(d),
        None => "",
    }
}

/// The text of the first descendant of kind `k`.
pub fn desc_text_x<'a>(tree: &'a SyntaxTree, i: usize, k: &str) -> (r: &'a str)
    requires
        i < tree@.len(),
        tree_wf(tree@),
    ensures
        r@ == desc_text(tree@, i as int, k@),
{
    proof {
        reveal_strlit("");
        assert(""@ =~= Seq::<char>::empty());
    }
    match tree.desc_of_kind(i, k) {
        Some(d) => tree.text(d),
        None => "",
    }
}

pub fn java_private_x(tree: &SyntaxTree, i: usize) -> (r: bool)
    requires
        i < tree@.len(),
        tree_wf(tree@),
    ensures
        r == java_private(tree@, i as int),
{
    match tree.desc_of_kind(i, "modifiers") {
        Some(m) => str_contains(tree.text(m), "private"),
        None => false,
    }
}

pub fn zig_decl_public_x(tree: &SyntaxTree, i: usize, k: &str) -> (r: bool)
    requires
        i < tree@.len(),
        tree_wf(tree@),
    ensures
        r == zig_decl_public(tree@, i as int, k@),
{
    match tree.anc_of_kind(i, k) {
        Some(d) => str_starts_with(tree.text(d), "pub"),
        None => false,
    }
}

pub fn zig_vardecl_public_x(tree: &SyntaxTree, i: usize) -> (r: bool)
    requires
        i < tree@.len(),
        tree_wf(tree@),
    ensures
        r == zig_vardecl_public(tree@, i as int),
{
    zig_decl_public_x(tree, i, "variable_declaration")
}

pub fn zig_fndecl_public_x(tree: &SyntaxTree, i: usize) -> (r: bool)
    requires
        i < tree@.len(),
        tree_wf(tree@),
    ensures
        r == zig_fndecl_public(tree@, i as int),
{
    zig_decl_public_x(tree, i, "function_declaration")
}

pub fn zig_vardecl_name_x<'a>(tree: &'a SyntaxTree, i: usize) -> (r: Option<&'a str>)
    requires
        i < tree@.len(),
        tree_wf(tree@),
    ensures
        match r {
            Some(s) => zig_vardecl_name(tree@, i as int) == Some(s@),
            None => zig_vardecl_name(tree@, i as int) is None,
        },
{
    match tree.anc_of_kind(i, "variable_declaration") {
        Some(d) => {
            match tree.child_of_kind(d, "identifier") {
                Some(c) => Some(tree.text(c)),
                None => None,
            }
        },
        None => None,
    }
}

pub fn zig_type_in_parent_x<'a>(tree: &'a SyntaxTree, i: usize) -> (r: Option<&'a str>)
    requires
        i < tree@.len(),
        tree_wf(tree@),
    ensures
        match r {
            Some(s) => zig_type_in_parent(tree@, i as int) == Some(s@),
            None => zig_type_in_parent(tree@, i as int) is None,
        },
{
    match tree.parent(i) {
        Some(p) => {
            match tree.child_by_field(p, "type") {
                Some(c) => Some(tree.text(c)),
                None => None,
            }
        },
        None => None,
    }
}

pub fn csharp_primary_ctor_x(tree: &SyntaxTree, i: usize) -> (r: bool)
    requires
        i < tree@.len(),
        tree_wf(tree@),
    ensures
        r == csharp_primary_ctor(tree@, i as int),
{
    if !str_eq(tree.kind(i), "parameter_list") {
        return false;
    }
    match tree.parent(i) {
        Some(p) => {
            str_eq(tree.kind(p), "class_declaration") || str_eq(tree.kind(p), "record_declaration")
        },
        None => false,
    }
}

pub fn node_type_of_x<'a>(tree: &'a SyntaxTree, i: usize) -> (r: &'a str)
    requires
        i < tree@.len(),
        tree_wf(tree@),
    ensures
        r@ == node_type_of(tree@, i as int),
{
    proof {
        reveal_strlit("");
        assert(""@ =~= Seq::<char>::empty());
    }
    match tree.desc_of_kind(i, "predefined_type") {
        Some(d) => tree.text(d),
        None => {
            match tree.child_by_field(i, "type") {
                Some(c) => tree.text(c),
                None => "",
            }
        },
    }
}

/// Collect the `::`-joined module/class path enclosing `i`.
pub fn ruby_path_x(tree: &SyntaxTree, i: usize) -> (r: Option<String>)
    requires
        i < tree@.len(),
        tree_wf(tree@),
    ensures
        match r {
            Some(s) => ruby_path(tree@, i as int) == Some(s@),
            None => ruby_path(tree@, i as int) is None,
        },
{
    let mut parts: Vec<String> = Vec::new();
    let mut cur: usize = i;
    proof {
        assert(ruby_parts(tree@, i as int) =~= ruby_parts(tree@, i as int) + Seq::<
            Seq<char>,
        >::empty());
    }
    loop
        invariant_except_break
            cur <= i < tree@.len(),
            tree_wf(tree@),
            ruby_parts(tree@, i as int) == ruby_parts(tree@, cur as int) + parts@.map_values(
                |s: String| s@,
            ),
        ensures
            ruby_parts(tree@, i as int) == parts@.map_values(|s: String| s@),
        decreases cur,
    {
        let is_mod = str_eq(tree.kind(cur), "module") || str_eq(tree.kind(cur), "class");
        if is_mod {
            match tree.child_by_field(cur, "name") {
                Some(c) => {
                    let ghost before = parts@.map_values(|s: String| s@);
                    let t = tree.text(c);
                    parts.insert(0, String::from_str(t));
                    proof {
                        assert(parts@.map_values(|s: String| s@) =~= seq![tree@[
                            child_by_field(tree@, cur as int, "name"@)
                        ].1] + before);
                    }
                },
                None => {
                },
            }
        }
        proof {
            assert(ruby_parts(tree@, i as int) =~= (if parent_of(tree@, cur as int) >= 0 {
                ruby_parts(tree@, parent_of(tree@, cur as int))
            } else {
                Seq::empty()
            }) + parts@.map_values(|s: String| s@));
        }
        match tree.parent(cur) {
            Some(p) => {
                cur = p;
            },
            None => {
                proof {
                    assert(Seq::<Seq<char>>::empty() + parts@.map_values(|s: String| s@)
                        =~= parts@.map_values(|s: String| s@));
                }
                break;
            },
        }
    }
    let n = parts.len();
    if n == 0 {
        return None;
    }
    let ghost pv = parts@.map_values(|s: String| s@);
    let mut res: String = parts[0].clone();
    let mut j: usize = 1;
    while j < n
        invariant
            1 <= j <= n,
            n == parts.len(),
            pv == parts@.map_values(|s: String| s@),
            pv.len() == n,
            res@ == join_colons(pv.take(j as int)),
        decreases n - j,
    {
        res.append("::");
        res.append(parts[j].as_str());
        proof {
            assert(pv.take(j + 1).drop_last() =~= pv.take(j as int));
            assert(pv.take(j + 1).last() == pv[j as int]);
        }
        j += 1;
    }
    proof {
        assert(pv.take(n as int) =~= pv);
    }
    Some(res)
}

/// The arguments of the nearest enclosing `defmodule` call.
pub fn ex_module_name_x(tree: &SyntaxTree, i: usize) -> (r: Option<String>)
    requires
        i < tree@.len(),
        tree_wf(tree@),
    ensures
        match r {
            Some(s) => ex_module_name(tree@, i as int) == Some(s@),
            None => ex_module_name(tree@, i as int) is None,
        },
{
    let mut cur: usize = i;
    loop
        invariant
            cur <= i < tree@.len(),
            tree_wf(tree@),
            ex_module_name(tree@, i as int) == ex_module_name(tree@, cur as int),
        decreases cur,
    {
        match tree.parent(cur) {
            None => {
                return None;
            },
            Some(p) => {
                if str_eq(tree.kind(p), "call") && str_starts_with(tree.text(p), "defmodule ") {
                    match tree.child_of_kind(p, "arguments") {
                        Some(a) => {
                            return Some(String::from_str(tree.text(a)));
                        },
                        None => {
                        },
                    }
                }
                cur = p;
            },
        }
    }
}

/// Whether a Ruby method stands under a `private` marker.
pub fn ruby_method_private_x(tree: &SyntaxTree, j: usize) -> (r: bool)
    requires
        j < tree@.len(),
        tree_wf(tree@),
    ensures
        r == ruby_method_private(tree@, j as int),
{
    let mut cur: usize = j;
    loop
        invariant
            cur <= j < tree@.len(),
            tree_wf(tree@),
            ruby_method_private(tree@, j as int) == ruby_method_private(tree@, cur as int),
        decreases cur,
    {
        match tree.prev_sibling(cur) {
            None => {
                return false;
            },
            Some(m) => {
                if str_eq(tree.kind(m), "identifier") {
                    if str_eq(tree.text(m), "private") {
                        return true;
                    }
                    if str_eq(tree.text(m), "public") || str_eq(tree.text(m), "protected") {
                        return false;
                    }
                } else if str_eq(tree.kind(m), "class") || str_eq(tree.kind(m), "module") {
                    return false;
                }
                cur = m;
            },
        }
    }
}

} // verus!
