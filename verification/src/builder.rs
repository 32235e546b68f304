//! The symbol builder's state: the top-level definition stream and the
//! keyed container maps for classes, enums and unions.
//!
//! Each map is a vector kept sorted by name (the order a string-keyed
//! ordered map iterates in), so repeated captures naming the same
//! container accrete into one record and the final emission order is
//! reproducible.

use vstd::prelude::*;
use vstd::string::StringExecFns;
use crate::model::{Func, Variable, Class, Enum, Union, FuncV, VariableV, ClassV, EnumV, UnionV};
use crate::strutil::{lex_lt, str_eq, str_lt};

verus! {

/// The builder's working state.
pub struct BuilderState {
    pub defs: Vec<crate::model::Definition>,
    pub classes: Vec<Class>,
    pub enums: Vec<Enum>,
    pub unions: Vec<Union>,
    pub seen: Vec<(u8, usize)>,
}

/// Ghost counterpart of `BuilderState`.
#[verifier::ext_equal]
pub struct StateV {
    pub defs: Seq<crate::model::DefinitionV>,
    pub classes: Seq<ClassV>,
    pub enums: Seq<EnumV>,
    pub unions: Seq<UnionV>,
    pub seen: Seq<(int, int)>,
}

impl View for BuilderState {
    type V = StateV;

    open spec fn view(&self) -> StateV {
        StateV {
            defs: self.defs@.map_values(|d: crate::model::Definition| d@),
            classes: self.classes@.map_values(|c: Class| c@),
            enums: self.enums@.map_values(|e: Enum| e@),
            unions: self.unions@.map_values(|u: Union| u@),
            seen: self.seen@.map_values(|p: (u8, usize)| (p.0 as int, p.1 as int)),
        }
    }
}

/// First index at or after `j` whose class is named `name`, or -1.
pub open spec fn find_class_from(cs: Seq<ClassV>, name: Seq<char>, j: int) -> int
    decreases cs.len() - j when j <= cs.len()
{
    if j < 0 || j >= cs.len() {
        -1
    } else if cs[j].name == name {
        j
    } else {
        find_class_from(cs, name, j + 1)
    }
}

/// The index of the class named `name`, or -1.
pub open spec fn find_class(cs: Seq<ClassV>, name: Seq<char>) -> int {
    find_class_from(cs, name, 0)
}

/// The sorted position at which a class named `name` is inserted.
pub open spec fn class_pos_from(cs: Seq<ClassV>, name: Seq<char>, j: int) -> int
    decreases cs.len() - j when j <= cs.len()
{
    if j < 0 || j >= cs.len() {
        cs.len() as int
    } else if lex_lt(name, cs[j].name) {
        j
    } else {
        class_pos_from(cs, name, j + 1)
    }
}

/// A blank class record.
pub open spec fn blank_class(label: Seq<char>, name: Seq<char>) -> ClassV {
    ClassV {
        kind_label: label,
        name: name,
        methods: Seq::empty(),
        properties: Seq::empty(),
        visibility_modifier: None,
    }
}

/// Fetch-or-create: the class map after making sure a record named
/// `name` exists.
pub open spec fn ensure_class_spec(cs: Seq<ClassV>, label: Seq<char>, name: Seq<char>) -> Seq<
    ClassV,
> {
    if find_class(cs, name) >= 0 {
        cs
    } else {
        cs.insert(class_pos_from(cs, name, 0), blank_class(label, name))
    }
}

/// Where the record named `name` stands after `ensure_class_spec`.
pub open spec fn ensure_class_idx(cs: Seq<ClassV>, name: Seq<char>) -> int {
    if find_class(cs, name) >= 0 {
        find_class(cs, name)
    } else {
        class_pos_from(cs, name, 0)
    }
}

pub proof fn lemma_find_class_none(cs: Seq<ClassV>, name: Seq<char>, j: int)
    requires
        0 <= j <= cs.len(),
        find_class_from(cs, name, j) == -1,
    ensures
        forall|m: int| j <= m < cs.len() ==> (#[trigger] cs[m]).name != name,
    decreases cs.len() - j,
{
    if j < cs.len() {
        lemma_find_class_none(cs, name, j + 1);
    }
}

pub proof fn lemma_find_class_at(cs: Seq<ClassV>, name: Seq<char>, j: int, p: int)
    requires
        0 <= j <= p < cs.len(),
        cs[p].name == name,
        forall|m: int| j <= m < p ==> (#[trigger] cs[m]).name != name,
    ensures
        find_class_from(cs, name, j) == p,
    decreases p - j,
{
    if j < p {
        lemma_find_class_at(cs, name, j + 1, p);
    }
}

/// After inserting a blank record for an absent name, the record is
/// found exactly at its insertion position.
pub proof fn lemma_ensure_class(cs: Seq<ClassV>, label: Seq<char>, name: Seq<char>)
    requires
        find_class(cs, name) == -1,
    ensures
        0 <= ensure_class_idx(cs, name) <= cs.len(),
        find_class(ensure_class_spec(cs, label, name), name) == ensure_class_idx(cs, name),
        ensure_class_spec(cs, label, name)[ensure_class_idx(cs, name)] == blank_class(label, name),
    decreases cs.len(),
{
    let p = class_pos_from(cs, name, 0);
    lemma_class_pos_bounds(cs, name, 0);
    let cs2 = cs.insert(p, blank_class(label, name));
    lemma_find_class_none(cs, name, 0);
    assert(forall|m: int| 0 <= m < p ==> cs2[m] == cs[m]);
    assert(cs2[p].name == name);
    lemma_find_class_at(cs2, name, 0, p);
}

pub proof fn lemma_class_pos_bounds(cs: Seq<ClassV>, name: Seq<char>, j: int)
    requires
        0 <= j <= cs.len(),
    ensures
        j <= class_pos_from(cs, name, j) <= cs.len(),
    decreases cs.len() - j,
{
    if j < cs.len() && !lex_lt(name, cs[j].name) {
        lemma_class_pos_bounds(cs, name, j + 1);
    }
}

/// First index at or after `j` whose enum is named `name`, or -1.
pub open spec fn find_enum_from(es: Seq<EnumV>, name: Seq<char>, j: int) -> int
    decreases es.len() - j when j <= es.len()
{
    if j < 0 || j >= es.len() {
        -1
    } else if es[j].name == name {
        j
    } else {
        find_enum_from(es, name, j + 1)
    }
}

/// The index of the enum named `name`, or -1.
pub open spec fn find_enum(es: Seq<EnumV>, name: Seq<char>) -> int {
    find_enum_from(es, name, 0)
}

/// The sorted position at which an enum named `name` is inserted.
pub open spec fn enum_pos_from(es: Seq<EnumV>, name: Seq<char>, j: int) -> int
    decreases es.len() - j when j <= es.len()
{
    if j < 0 || j >= es.len() {
        es.len() as int
    } else if lex_lt(name, es[j].name) {
        j
    } else {
        enum_pos_from(es, name, j + 1)
    }
}

/// Fetch-or-create for the enum map.
pub open spec fn ensure_enum_spec(es: Seq<EnumV>, name: Seq<char>) -> Seq<EnumV> {
    if find_enum(es, name) >= 0 {
        es
    } else {
        es.insert(enum_pos_from(es, name, 0), EnumV { name: name, items: Seq::empty() })
    }
}

/// Where the record named `name` stands after `ensure_enum_spec`.
pub open spec fn ensure_enum_idx(es: Seq<EnumV>, name: Seq<char>) -> int {
    if find_enum(es, name) >= 0 {
        find_enum(es, name)
    } else {
        enum_pos_from(es, name, 0)
    }
}

pub proof fn lemma_find_enum_none(es: Seq<EnumV>, name: Seq<char>, j: int)
    requires
        0 <= j <= es.len(),
        find_enum_from(es, name, j) == -1,
    ensures
        forall|m: int| j <= m < es.len() ==> (#[trigger] es[m]).name != name,
    decreases es.len() - j,
{
    if j < es.len() {
        lemma_find_enum_none(es, name, j + 1);
    }
}

pub proof fn lemma_find_enum_at(es: Seq<EnumV>, name: Seq<char>, j: int, p: int)
    requires
        0 <= j <= p < es.len(),
        es[p].name == name,
        forall|m: int| j <= m < p ==> (#[trigger] es[m]).name != name,
    ensures
        find_enum_from(es, name, j) == p,
    decreases p - j,
{
    if j < p {
        lemma_find_enum_at(es, name, j + 1, p);
    }
}

pub proof fn lemma_enum_pos_bounds(es: Seq<EnumV>, name: Seq<char>, j: int)
    requires
        0 <= j <= es.len(),
    ensures
        j <= enum_pos_from(es, name, j) <= es.len(),
    decreases es.len() - j,
{
    if j < es.len() && !lex_lt(name, es[j].name) {
        lemma_enum_pos_bounds(es, name, j + 1);
    }
}

pub proof fn lemma_ensure_enum(es: Seq<EnumV>, name: Seq<char>)
    requires
        find_enum(es, name) == -1,
    ensures
        0 <= ensure_enum_idx(es, name) <= es.len(),
        find_enum(ensure_enum_spec(es, name), name) == ensure_enum_idx(es, name),
        ensure_enum_spec(es, name)[ensure_enum_idx(es, name)] == (EnumV {
            name: name,
            items: Seq::empty(),
        }),
{
    let p = enum_pos_from(es, name, 0);
    lemma_enum_pos_bounds(es, name, 0);
    let es2 = es.insert(p, EnumV { name: name, items: Seq::empty() });
    lemma_find_enum_none(es, name, 0);
    assert(forall|m: int| 0 <= m < p ==> es2[m] == es[m]);
    assert(es2[p].name == name);
    lemma_find_enum_at(es2, name, 0, p);
}

/// First index at or after `j` whose union is named `name`, or -1.
pub open spec fn find_union_from(us: Seq<UnionV>, name: Seq<char>, j: int) -> int
    decreases us.len() - j when j <= us.len()
{
    if j < 0 || j >= us.len() {
        -1
    } else if us[j].name == name {
        j
    } else {
        find_union_from(us, name, j + 1)
    }
}

/// The index of the union named `name`, or -1.
pub open spec fn find_union(us: Seq<UnionV>, name: Seq<char>) -> int {
    find_union_from(us, name, 0)
}

/// The sorted position at which a union named `name` is inserted.
pub open spec fn union_pos_from(us: Seq<UnionV>, name: Seq<char>, j: int) -> int
    decreases us.len() - j when j <= us.len()
{
    if j < 0 || j >= us.len() {
        us.len() as int
    } else if lex_lt(name, us[j].name) {
        j
    } else {
        union_pos_from(us, name, j + 1)
    }
}

/// Fetch-or-create for the union map.
pub open spec fn ensure_union_spec(us: Seq<UnionV>, name: Seq<char>) -> Seq<UnionV> {
    if find_union(us, name) >= 0 {
        us
    } else {
        us.insert(union_pos_from(us, name, 0), UnionV { name: name, items: Seq::empty() })
    }
}

/// Where the record named `name` stands after `ensure_union_spec`.
pub open spec fn ensure_union_idx(us: Seq<UnionV>, name: Seq<char>) -> int {
    if find_union(us, name) >= 0 {
        find_union(us, name)
    } else {
        union_pos_from(us, name, 0)
    }
}

pub proof fn lemma_find_union_none(us: Seq<UnionV>, name: Seq<char>, j: int)
    requires
        0 <= j <= us.len(),
        find_union_from(us, name, j) == -1,
    ensures
        forall|m: int| j <= m < us.len() ==> (#[trigger] us[m]).name != name,
    decreases us.len() - j,
{
    if j < us.len() {
        lemma_find_union_none(us, name, j + 1);
    }
}

pub proof fn lemma_find_union_at(us: Seq<UnionV>, name: Seq<char>, j: int, p: int)
    requires
        0 <= j <= p < us.len(),
        us[p].name == name,
        forall|m: int| j <= m < p ==> (#[trigger] us[m]).name != name,
    ensures
        find_union_from(us, name, j) == p,
    decreases p - j,
{
    if j < p {
        lemma_find_union_at(us, name, j + 1, p);
    }
}

pub proof fn lemma_union_pos_bounds(us: Seq<UnionV>, name: Seq<char>, j: int)
    requires
        0 <= j <= us.len(),
    ensures
        j <= union_pos_from(us, name, j) <= us.len(),
    decreases us.len() - j,
{
    if j < us.len() && !lex_lt(name, us[j].name) {
        lemma_union_pos_bounds(us, name, j + 1);
    }
}

pub proof fn lemma_ensure_union(us: Seq<UnionV>, name: Seq<char>)
    requires
        find_union(us, name) == -1,
    ensures
        0 <= ensure_union_idx(us, name) <= us.len(),
        find_union(ensure_union_spec(us, name), name) == ensure_union_idx(us, name),
        ensure_union_spec(us, name)[ensure_union_idx(us, name)] == (UnionV {
            name: name,
            items: Seq::empty(),
        }),
{
    let p = union_pos_from(us, name, 0);
    lemma_union_pos_bounds(us, name, 0);
    let us2 = us.insert(p, UnionV { name: name, items: Seq::empty() });
    lemma_find_union_none(us, name, 0);
    assert(forall|m: int| 0 <= m < p ==> us2[m] == us[m]);
    assert(us2[p].name == name);
    lemma_find_union_at(us2, name, 0, p);
}

impl BuilderState {
    /// A fresh, empty state.
    pub fn new() -> (r: BuilderState)
        ensures
            r@ == (StateV {
                defs: Seq::empty(),
                classes: Seq::empty(),
                enums: Seq::empty(),
                unions: Seq::empty(),
                seen: Seq::empty(),
            }),
    {
        let r = BuilderState {
            defs: Vec::new(),
            classes: Vec::new(),
            enums: Vec::new(),
            unions: Vec::new(),
            seen: Vec::new(),
        };
        proof {
            assert(r@ =~= StateV {
                defs: Seq::empty(),
                classes: Seq::empty(),
                enums: Seq::empty(),
                unions: Seq::empty(),
                seen: Seq::empty(),
            });
        }
        r
    }

    /// Fetch-or-create the class record named `name`; its index comes
    /// back.
    pub fn ensure_class(&mut self, label: &str, name: &str) -> (idx: usize)
        ensures
            final(self)@ == (StateV {
                classes: ensure_class_spec(old(self)@.classes, label@, name@),
                ..old(self)@
            }),
            idx == ensure_class_idx(old(self)@.classes, name@),
            idx < final(self).classes.len(),
            final(self)@.classes[idx as int].name == name@,
    {
        let ghost cs = self@.classes;
        let n = self.classes.len();
        let mut j: usize = 0;
        while j < n
            invariant
                0 <= j <= n,
                n == self.classes.len(),
                cs == self@.classes,
                cs.len() == n,
                find_class(cs, name@) == find_class_from(cs, name@, j as int),
            decreases n - j,
        {
            if str_eq(self.classes[j].name.as_str(), name) {
                proof {
                    assert(cs[j as int].name == name@);
                    assert(find_class_from(cs, name@, j as int) == j);
                    assert(ensure_class_spec(cs, label@, name@) == cs);
                    assert(self@ =~= (StateV { classes: ensure_class_spec(cs, label@, name@), ..self@ }));
                }
                return j;
            }
            j += 1;
        }
        proof {
            assert(find_class(cs, name@) == -1);
        }
        let mut p: usize = 0;
        while p < n && !str_lt(name, self.classes[p].name.as_str())
            invariant
                0 <= p <= n,
                n == self.classes.len(),
                cs == self@.classes,
                cs.len() == n,
                class_pos_from(cs, name@, 0) == class_pos_from(cs, name@, p as int),
            decreases n - p,
        {
            p += 1;
        }
        proof {
            assert(class_pos_from(cs, name@, p as int) == p);
        }
        let blank = Class {
            kind_label: String::from_str(label),
            name: String::from_str(name),
            methods: Vec::new(),
            properties: Vec::new(),
            visibility_modifier: None,
        };
        proof {
            assert(blank@ =~= blank_class(label@, name@));
        }
        self.classes.insert(p, blank);
        proof {
            lemma_ensure_class(cs, label@, name@);
            assert(self@.classes =~= cs.insert(p as int, blank_class(label@, name@)));
            assert(self@ =~= (StateV { classes: ensure_class_spec(cs, label@, name@), ..old(self)@ }));
        }
        p
    }

    /// Fetch-or-create the enum record named `name`.
    pub fn ensure_enum(&mut self, name: &str) -> (idx: usize)
        ensures
            final(self)@ == (StateV {
                enums: ensure_enum_spec(old(self)@.enums, name@),
                ..old(self)@
            }),
            idx == ensure_enum_idx(old(self)@.enums, name@),
            idx < final(self).enums.len(),
            final(self)@.enums[idx as int].name == name@,
    {
        let ghost es = self@.enums;
        let n = self.enums.len();
        let mut j: usize = 0;
        while j < n
            invariant
                0 <= j <= n,
                n == self.enums.len(),
                es == self@.enums,
                es.len() == n,
                find_enum(es, name@) == find_enum_from(es, name@, j as int),
            decreases n - j,
        {
            if str_eq(self.enums[j].name.as_str(), name) {
                proof {
                    assert(es[j as int].name == name@);
                    assert(find_enum_from(es, name@, j as int) == j);
                    assert(ensure_enum_spec(es, name@) == es);
                    assert(self@ =~= (StateV { enums: ensure_enum_spec(es, name@), ..self@ }));
                }
                return j;
            }
            j += 1;
        }
        proof {
            assert(find_enum(es, name@) == -1);
        }
        let mut p: usize = 0;
        while p < n && !str_lt(name, self.enums[p].name.as_str())
            invariant
                0 <= p <= n,
                n == self.enums.len(),
                es == self@.enums,
                es.len() == n,
                enum_pos_from(es, name@, 0) == enum_pos_from(es, name@, p as int),
            decreases n - p,
        {
            p += 1;
        }
        proof {
            assert(enum_pos_from(es, name@, p as int) == p);
        }
        let blank = Enum { name: String::from_str(name), items: Vec::new() };
        proof {
            assert(blank@ =~= (EnumV { name: name@, items: Seq::empty() }));
        }
        self.enums.insert(p, blank);
        proof {
            lemma_ensure_enum(es, name@);
            assert(self@.enums =~= es.insert(p as int, EnumV { name: name@, items: Seq::empty() }));
            assert(self@ =~= (StateV { enums: ensure_enum_spec(es, name@), ..old(self)@ }));
        }
        p
    }

    /// Fetch-or-create the union record named `name`.
    pub fn ensure_union(&mut self, name: &str) -> (idx: usize)
        ensures
            final(self)@ == (StateV {
                unions: ensure_union_spec(old(self)@.unions, name@),
                ..old(self)@
            }),
            idx == ensure_union_idx(old(self)@.unions, name@),
            idx < final(self).unions.len(),
            final(self)@.unions[idx as int].name == name@,
    {
        let ghost us = self@.unions;
        let n = self.unions.len();
        let mut j: usize = 0;
        while j < n
            invariant
                0 <= j <= n,
                n == self.unions.len(),
                us == self@.unions,
                us.len() == n,
                find_union(us, name@) == find_union_from(us, name@, j as int),
            decreases n - j,
        {
            if str_eq(self.unions[j].name.as_str(), name) {
                proof {
                    assert(us[j as int].name == name@);
                    assert(find_union_from(us, name@, j as int) == j);
                    assert(ensure_union_spec(us, name@) == us);
                    assert(self@ =~= (StateV { unions: ensure_union_spec(us, name@), ..self@ }));
                }
                return j;
            }
            j += 1;
        }
        proof {
            assert(find_union(us, name@) == -1);
        }
        let mut p: usize = 0;
        while p < n && !str_lt(name, self.unions[p].name.as_str())
            invariant
                0 <= p <= n,
                n == self.unions.len(),
                us == self@.unions,
                us.len() == n,
                union_pos_from(us, name@, 0) == union_pos_from(us, name@, p as int),
            decreases n - p,
        {
            p += 1;
        }
        proof {
            assert(union_pos_from(us, name@, p as int) == p);
        }
        let blank = Union { name: String::from_str(name), items: Vec::new() };
        proof {
            assert(blank@ =~= (UnionV { name: name@, items: Seq::empty() }));
        }
        self.unions.insert(p, blank);
        proof {
            lemma_ensure_union(us, name@);
            assert(self@.unions =~= us.insert(p as int, UnionV { name: name@, items: Seq::empty() }));
            assert(self@ =~= (StateV { unions: ensure_union_spec(us, name@), ..old(self)@ }));
        }
        p
    }
}


impl BuilderState {
    /// Record a method on the class at `idx`.
    pub fn push_method(&mut self, idx: usize, f: Func)
        requires
            idx < old(self).classes.len(),
        ensures
            final(self)@ == (StateV {
                classes: old(self)@.classes.update(
                    idx as int,
                    (ClassV {
                        methods: old(self)@.classes[idx as int].methods.push(f@),
                        ..old(self)@.classes[idx as int]
                    }),
                ),
                ..old(self)@
            }),
    {
        let mut rec = self.classes.remove(idx);
        rec.methods.push(f);
        self.classes.insert(idx, rec);
        proof {
            assert(self@.classes =~~= old(self)@.classes.update(
                idx as int,
                ClassV {
                    methods: old(self)@.classes[idx as int].methods.push(f@),
                    ..old(self)@.classes[idx as int]
                },
            ));
            assert(self@ =~= (StateV { classes: self@.classes, ..old(self)@ }));
        }
    }

    /// Record a property on the class at `idx`.
    pub fn push_property(&mut self, idx: usize, v: Variable)
        requires
            idx < old(self).classes.len(),
        ensures
            final(self)@ == (StateV {
                classes: old(self)@.classes.update(
                    idx as int,
                    (ClassV {
                        properties: old(self)@.classes[idx as int].properties.push(v@),
                        ..old(self)@.classes[idx as int]
                    }),
                ),
                ..old(self)@
            }),
    {
        let mut rec = self.classes.remove(idx);
        rec.properties.push(v);
        self.classes.insert(idx, rec);
        proof {
            assert(self@.classes =~~= old(self)@.classes.update(
                idx as int,
                ClassV {
                    properties: old(self)@.classes[idx as int].properties.push(v@),
                    ..old(self)@.classes[idx as int]
                },
            ));
            assert(self@ =~= (StateV { classes: self@.classes, ..old(self)@ }));
        }
    }

    /// Set the recorded visibility of the class at `idx`.
    pub fn set_class_vis(&mut self, idx: usize, vis: Option<String>)
        requires
            idx < old(self).classes.len(),
        ensures
            final(self)@ == (StateV {
                classes: old(self)@.classes.update(
                    idx as int,
                    (ClassV {
                        visibility_modifier: crate::model::opt_view(vis),
                        ..old(self)@.classes[idx as int]
                    }),
                ),
                ..old(self)@
            }),
    {
        let mut rec = self.classes.remove(idx);
        rec.visibility_modifier = vis;
        self.classes.insert(idx, rec);
        proof {
            assert(self@.classes =~~= old(self)@.classes.update(
                idx as int,
                ClassV {
                    visibility_modifier: crate::model::opt_view(vis),
                    ..old(self)@.classes[idx as int]
                },
            ));
            assert(self@ =~= (StateV { classes: self@.classes, ..old(self)@ }));
        }
    }

    /// Record an item on the enum at `idx`.
    pub fn push_enum_item(&mut self, idx: usize, v: Variable)
        requires
            idx < old(self).enums.len(),
        ensures
            final(self)@ == (StateV {
                enums: old(self)@.enums.update(
                    idx as int,
                    (EnumV {
                        items: old(self)@.enums[idx as int].items.push(v@),
                        ..old(self)@.enums[idx as int]
                    }),
                ),
                ..old(self)@
            }),
    {
        let mut rec = self.enums.remove(idx);
        rec.items.push(v);
        self.enums.insert(idx, rec);
        proof {
            assert(self@.enums =~~= old(self)@.enums.update(
                idx as int,
                EnumV {
                    items: old(self)@.enums[idx as int].items.push(v@),
                    ..old(self)@.enums[idx as int]
                },
            ));
            assert(self@ =~= (StateV { enums: self@.enums, ..old(self)@ }));
        }
    }

    /// Record an item on the union at `idx`.
    pub fn push_union_item(&mut self, idx: usize, v: Variable)
        requires
            idx < old(self).unions.len(),
        ensures
            final(self)@ == (StateV {
                unions: old(self)@.unions.update(
                    idx as int,
                    (UnionV {
                        items: old(self)@.unions[idx as int].items.push(v@),
                        ..old(self)@.unions[idx as int]
                    }),
                ),
                ..old(self)@
            }),
    {
        let mut rec = self.unions.remove(idx);
        rec.items.push(v);
        self.unions.insert(idx, rec);
        proof {
            assert(self@.unions =~~= old(self)@.unions.update(
                idx as int,
                UnionV {
                    items: old(self)@.unions[idx as int].items.push(v@),
                    ..old(self)@.unions[idx as int]
                },
            ));
            assert(self@ =~= (StateV { unions: self@.unions, ..old(self)@ }));
        }
    }

    /// Append one element to the top-level definition stream.
    pub fn push_def(&mut self, d: crate::model::Definition)
        ensures
            final(self)@ == (StateV { defs: old(self)@.defs.push(d@), ..old(self)@ }),
    {
        let ghost dv = d@;
        self.defs.push(d);
        proof {
            assert(self@.defs =~= old(self)@.defs.push(dv));
            assert(self@ =~= (StateV { defs: old(self)@.defs.push(dv), ..old(self)@ }));
        }
    }

    /// Whether the node was already processed under this capture key.
    pub fn seen_contains(&self, key: u8, node: usize) -> (r: bool)
        ensures
            r == self@.seen.contains((key as int, node as int)),
    {
        let n = self.seen.len();
        let mut j: usize = 0;
        while j < n
            invariant
                0 <= j <= n,
                n == self.seen.len(),
                n == self@.seen.len(),
                forall|m: int| 0 <= m < n ==> self@.seen[m] == (self.seen@[m].0 as int,
                    self.seen@[m].1 as int,
                ),
                forall|m: int| 0 <= m < j ==> self@.seen[m] != (key as int, node as int),
            decreases n - j,
        {
            let (k0, n0) = self.seen[j];
            if k0 == key && n0 == node {
                proof {
                    assert(self@.seen[j as int] == (key as int, node as int));
                }
                return true;
            }
            j += 1;
        }
        false
    }

    /// Mark the node processed under this capture key.
    pub fn push_seen(&mut self, key: u8, node: usize)
        ensures
            final(self)@ == (StateV {
                seen: old(self)@.seen.push((key as int, node as int)),
                ..old(self)@
            }),
    {
        self.seen.push((key, node));
        proof {
            assert(self@.seen =~= old(self)@.seen.push((key as int, node as int)));
            assert(self@ =~= (StateV { seen: self@.seen, ..old(self)@ }));
        }
    }
}

} // verus!
