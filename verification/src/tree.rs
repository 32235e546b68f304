//! A plain-value concrete syntax tree.
//!
//! The parser front end flattens a parse tree into an arena of nodes in
//! pre-order: each node carries its kind, its source text, the index of
//! its parent, and the field label under which its parent holds it (the
//! empty string when there is none). Every ancestor, child, sibling and
//! descendant walk of the symbol builder is defined here, once as a
//! ghost function over the arena rows and once as a proved executable
//! twin.

use vstd::prelude::*;
use crate::strutil::str_eq;

verus! {

/// One arena row: (kind, text, parent index or -1, field label or "").
pub type NodeRow = (Seq<char>, Seq<char>, int, Seq<char>);

/// One node of the flattened tree.
pub struct SyntaxNode {
    pub kind: String,
    pub text: String,
    pub parent: Option<usize>,
    pub field: String,
}

/// The flattened tree, in pre-order.
pub struct SyntaxTree {
    pub nodes: Vec<SyntaxNode>,
}

impl View for SyntaxNode {
    type V = NodeRow;

    open spec fn view(&self) -> NodeRow {
        (
            self.kind@,
            self.text@,
            match self.parent {
                Some(p) => p as int,
                None => -1,
            },
            self.field@,
        )
    }
}

impl View for SyntaxTree {
    type V = Seq<NodeRow>;

    open spec fn view(&self) -> Seq<NodeRow> {
        self.nodes@.map_values(|n: SyntaxNode| n@)
    }
}

/// Well-formedness: every parent stands strictly before its child, as
/// pre-order demands.
pub open spec fn tree_wf(t: Seq<NodeRow>) -> bool {
    forall|i: int| 0 <= i < t.len() ==> -1 <= (#[trigger] t[i]).2 < i
}

/// The parent index of `i`, or -1.
pub open spec fn parent_of(t: Seq<NodeRow>, i: int) -> int {
    if 0 <= i < t.len() {
        t[i].2
    } else {
        -1
    }
}

/// First index at or after `j` that is a child of `p` held under field
/// label `f`, or -1.
pub open spec fn child_by_field_from(t: Seq<NodeRow>, p: int, f: Seq<char>, j: int) -> int
    decreases t.len() - j when j <= t.len()
{
    if j < 0 || j >= t.len() {
        -1
    } else if t[j].2 == p && t[j].3 == f {
        j
    } else {
        child_by_field_from(t, p, f, j + 1)
    }
}

/// The first child of `p` held under field label `f`, or -1.
pub open spec fn child_by_field(t: Seq<NodeRow>, p: int, f: Seq<char>) -> int {
    if 0 <= p < t.len() {
        child_by_field_from(t, p, f, p + 1)
    } else {
        -1
    }
}

/// First index at or after `j` that is a child of `p` with kind `k`,
/// or -1.
pub open spec fn child_of_kind_from(t: Seq<NodeRow>, p: int, k: Seq<char>, j: int) -> int
    decreases t.len() - j when j <= t.len()
{
    if j < 0 || j >= t.len() {
        -1
    } else if t[j].2 == p && t[j].0 == k {
        j
    } else {
        child_of_kind_from(t, p, k, j + 1)
    }
}

/// The first child of `p` with kind `k`, or -1.
pub open spec fn child_of_kind(t: Seq<NodeRow>, p: int, k: Seq<char>) -> int {
    if 0 <= p < t.len() {
        child_of_kind_from(t, p, k, p + 1)
    } else {
        -1
    }
}

/// The nearest strict ancestor of `i` with kind `k`, or -1.
pub open spec fn anc_of_kind(t: Seq<NodeRow>, i: int, k: Seq<char>) -> int
    decreases i when i >= 0
{
    let p = parent_of(t, i);
    if p < 0 || p >= i {
        -1
    } else if t[p].0 == k {
        p
    } else {
        anc_of_kind(t, p, k)
    }
}

/// The nearest strict ancestor of `i` whose kind is `k1` or `k2`, or -1.
pub open spec fn anc_of_kind2(t: Seq<NodeRow>, i: int, k1: Seq<char>, k2: Seq<char>) -> int
    decreases i when i >= 0
{
    let p = parent_of(t, i);
    if p < 0 || p >= i {
        -1
    } else if t[p].0 == k1 || t[p].0 == k2 {
        p
    } else {
        anc_of_kind2(t, p, k1, k2)
    }
}

/// The text of the `name`-field child of the nearest ancestor that has
/// one, or "".
pub open spec fn closest_ancestor_name(t: Seq<NodeRow>, i: int) -> Seq<char>
    decreases i when i >= 0
{
    let p = parent_of(t, i);
    if p < 0 || p >= i {
        Seq::empty()
    } else {
        let c = child_by_field(t, p, "name"@);
        if c >= 0 {
            t[c].1
        } else {
            closest_ancestor_name(t, p)
        }
    }
}

/// `j` lies in the subtree rooted at `i` (including `i` itself).
pub open spec fn is_desc_or_self(t: Seq<NodeRow>, j: int, i: int) -> bool
    decreases j when j >= 0
{
    if j == i {
        true
    } else {
        let p = parent_of(t, j);
        if p < 0 || p >= j {
            false
        } else {
            is_desc_or_self(t, p, i)
        }
    }
}

/// First index at or after `j` inside the subtree of `i` with kind `k`,
/// or -1.
pub open spec fn desc_of_kind_from(t: Seq<NodeRow>, i: int, k: Seq<char>, j: int) -> int
    decreases t.len() - j when j <= t.len()
{
    if j < 0 || j >= t.len() {
        -1
    } else if is_desc_or_self(t, j, i) && t[j].0 == k {
        j
    } else {
        desc_of_kind_from(t, i, k, j + 1)
    }
}

/// The first node of kind `k` in pre-order within the subtree of `i`
/// (including `i` itself), or -1.
pub open spec fn desc_of_kind(t: Seq<NodeRow>, i: int, k: Seq<char>) -> int {
    if 0 <= i < t.len() {
        desc_of_kind_from(t, i, k, i)
    } else {
        -1
    }
}

/// The nearest index at or below `m` that is a child of `p`, or -1.
pub open spec fn prev_sibling_scan(t: Seq<NodeRow>, p: int, m: int) -> int
    decreases m + 1 when m >= -1
{
    if m < 0 || m >= t.len() {
        -1
    } else if t[m].2 == p {
        m
    } else {
        prev_sibling_scan(t, p, m - 1)
    }
}

/// The previous sibling of `j`, or -1.
pub open spec fn prev_sibling(t: Seq<NodeRow>, j: int) -> int {
    if 0 <= j < t.len() {
        prev_sibling_scan(t, t[j].2, j - 1)
    } else {
        -1
    }
}

impl SyntaxTree {
    /// Connects the tree view with the node vector element views.
    pub proof fn lemma_view(&self)
        ensures
            self@.len() == self.nodes@.len(),
            forall|i: int| 0 <= i < self@.len() ==> self@[i] == self.nodes@[i]@,
    {
    }

    /// The number of nodes.
    pub fn len(&self) -> (r: usize)
        ensures
            r == self@.len(),
    {
        proof {
            self.lemma_view();
        }
        self.nodes.len()
    }

    /// The kind of node `i`.
    pub fn kind(&self, i: usize) -> (r: &str)
        requires
            i < self@.len(),
        ensures
            r@ == self@[i as int].0,
    {
        proof {
            self.lemma_view();
        }
        self.nodes[i].kind.as_str()
    }

    /// The text of node `i`.
    pub fn text(&self, i: usize) -> (r: &str)
        requires
            i < self@.len(),
        ensures
            r@ == self@[i as int].1,
    {
        proof {
            self.lemma_view();
        }
        self.nodes[i].text.as_str()
    }

    /// The field label of node `i` ("" when it has none).
    pub fn field(&self, i: usize) -> (r: &str)
        requires
            i < self@.len(),
        ensures
            r@ == self@[i as int].3,
    {
        proof {
            self.lemma_view();
        }
        self.nodes[i].field.as_str()
    }

    /// The parent of node `i`.
    pub fn parent(&self, i: usize) -> (r: Option<usize>)
        requires
            i < self@.len(),
            tree_wf(self@),
        ensures
            match r {
                Some(p) => p == parent_of(self@, i as int) && p < i,
                None => parent_of(self@, i as int) == -1,
            },
    {
        proof {
            self.lemma_view();
            assert(-1 <= self@[i as int].2 < i);
        }
        self.nodes[i].parent
    }

    /// The first child of `p` held under field label `f`.
    pub fn child_by_field(&self, p: usize, f: &str) -> (r: Option<usize>)
        requires
            p < self@.len(),
        ensures
            match r {
                Some(j) => child_by_field(self@, p as int, f@) == j && j < self@.len(),
                None => child_by_field(self@, p as int, f@) == -1,
            },
    {
        proof {
            self.lemma_view();
        }
        let n = self.nodes.len();
        let mut j: usize = p + 1;
        while j < n
            invariant
                p < j <= n,
                n == self@.len(),
                n == self.nodes@.len(),
                forall|m: int| 0 <= m < n ==> self@[m] == self.nodes@[m]@,
                child_by_field(self@, p as int, f@) == child_by_field_from(
                    self@,
                    p as int,
                    f@,
                    j as int,
                ),
            decreases n - j,
        {
            let pm: bool = match self.nodes[j].parent {
                Some(q) => q == p,
                None => false,
            };
            if pm && str_eq(self.nodes[j].field.as_str(), f) {
                proof {
                    assert(self@[j as int].2 == p as int && self@[j as int].3 == f@);
                }
                return Some(j);
            }
            proof {
                assert(!(self@[j as int].2 == p as int && self@[j as int].3 == f@));
            }
            j += 1;
        }
        None
    }

    /// The first child of `p` with kind `k`.
    pub fn child_of_kind(&self, p: usize, k: &str) -> (r: Option<usize>)
        requires
            p < self@.len(),
        ensures
            match r {
                Some(j) => child_of_kind(self@, p as int, k@) == j && j < self@.len(),
                None => child_of_kind(self@, p as int, k@) == -1,
            },
    {
        proof {
            self.lemma_view();
        }
        let n = self.nodes.len();
        let mut j: usize = p + 1;
        while j < n
            invariant
                p < j <= n,
                n == self@.len(),
                n == self.nodes@.len(),
                forall|m: int| 0 <= m < n ==> self@[m] == self.nodes@[m]@,
                child_of_kind(self@, p as int, k@) == child_of_kind_from(
                    self@,
                    p as int,
                    k@,
                    j as int,
                ),
            decreases n - j,
        {
            let pm: bool = match self.nodes[j].parent {
                Some(q) => q == p,
                None => false,
            };
            if pm && str_eq(self.nodes[j].kind.as_str(), k) {
                proof {
                    assert(self@[j as int].2 == p as int && self@[j as int].0 == k@);
                }
                return Some(j);
            }
            proof {
                assert(!(self@[j as int].2 == p as int && self@[j as int].0 == k@));
            }
            j += 1;
        }
        None
    }

    /// The nearest strict ancestor of `i` with kind `k`.
    pub fn anc_of_kind(&self, i: usize, k: &str) -> (r: Option<usize>)
        requires
            i < self@.len(),
            tree_wf(self@),
        ensures
            match r {
                Some(j) => anc_of_kind(self@, i as int, k@) == j && j < self@.len(),
                None => anc_of_kind(self@, i as int, k@) == -1,
            },
    {
        proof {
            self.lemma_view();
        }
        let mut cur: usize = i;
        loop
            invariant
                cur <= i < self@.len(),
                tree_wf(self@),
                forall|m: int| 0 <= m < self@.len() ==> self@[m] == self.nodes@[m]@,
                self@.len() == self.nodes@.len(),
                anc_of_kind(self@, i as int, k@) == anc_of_kind(self@, cur as int, k@),
            decreases cur,
        {
            proof {
                assert(-1 <= self@[cur as int].2 < cur);
            }
            match self.nodes[cur].parent {
                None => {
                    return None;
                },
                Some(p) => {
                    if str_eq(self.nodes[p].kind.as_str(), k) {
                        return Some(p);
                    }
                    cur = p;
                },
            }
        }
    }

    /// The nearest strict ancestor of `i` whose kind is `k1` or `k2`.
    pub fn anc_of_kind2(&self, i: usize, k1: &str, k2: &str) -> (r: Option<usize>)
        requires
            i < self@.len(),
            tree_wf(self@),
        ensures
            match r {
                Some(j) => anc_of_kind2(self@, i as int, k1@, k2@) == j && j < self@.len(),
                None => anc_of_kind2(self@, i as int, k1@, k2@) == -1,
            },
    {
        proof {
            self.lemma_view();
        }
        let mut cur: usize = i;
        loop
            invariant
                cur <= i < self@.len(),
                tree_wf(self@),
                forall|m: int| 0 <= m < self@.len() ==> self@[m] == self.nodes@[m]@,
                self@.len() == self.nodes@.len(),
                anc_of_kind2(self@, i as int, k1@, k2@) == anc_of_kind2(
                    self@,
                    cur as int,
                    k1@,
                    k2@,
                ),
            decreases cur,
        {
            proof {
                assert(-1 <= self@[cur as int].2 < cur);
            }
            match self.nodes[cur].parent {
                None => {
                    return None;
                },
                Some(p) => {
                    let hit1 = str_eq(self.nodes[p].kind.as_str(), k1);
                    let hit2 = if hit1 {
                        true
                    } else {
                        str_eq(self.nodes[p].kind.as_str(), k2)
                    };
                    if hit2 {
                        return Some(p);
                    }
                    cur = p;
                },
            }
        }
    }

    /// The text of the `name`-field child of the nearest ancestor that
    /// has one, or "".
    pub fn closest_ancestor_name(&self, i: usize) -> (r: String)
        requires
            i < self@.len(),
            tree_wf(self@),
        ensures
            r@ == closest_ancestor_name(self@, i as int),
    {
        proof {
            self.lemma_view();
        }
        let mut cur: usize = i;
        loop
            invariant
                cur <= i < self@.len(),
                tree_wf(self@),
                forall|m: int| 0 <= m < self@.len() ==> self@[m] == self.nodes@[m]@,
                self@.len() == self.nodes@.len(),
                closest_ancestor_name(self@, i as int) == closest_ancestor_name(
                    self@,
                    cur as int,
                ),
            decreases cur,
        {
            proof {
                assert(-1 <= self@[cur as int].2 < cur);
            }
            match self.nodes[cur].parent {
                None => {
                    return String::new();
                },
                Some(p) => {
                    match self.child_by_field(p, "name") {
                        Some(c) => {
                            return self.nodes[c].text.clone();
                        },
                        None => {
                            cur = p;
                        },
                    }
                },
            }
        }
    }

    /// Whether `j` lies in the subtree rooted at `i`.
    pub fn is_desc_or_self(&self, j: usize, i: usize) -> (r: bool)
        requires
            j < self@.len(),
            i < self@.len(),
            tree_wf(self@),
        ensures
            r == is_desc_or_self(self@, j as int, i as int),
    {
        proof {
            self.lemma_view();
        }
        let mut cur: usize = j;
        loop
            invariant
                cur < self@.len(),
                tree_wf(self@),
                forall|m: int| 0 <= m < self@.len() ==> self@[m] == self.nodes@[m]@,
                self@.len() == self.nodes@.len(),
                is_desc_or_self(self@, j as int, i as int) == is_desc_or_self(
                    self@,
                    cur as int,
                    i as int,
                ),
            decreases cur,
        {
            if cur == i {
                return true;
            }
            proof {
                assert(-1 <= self@[cur as int].2 < cur);
            }
            match self.nodes[cur].parent {
                None => {
                    return false;
                },
                Some(p) => {
                    cur = p;
                },
            }
        }
    }

    /// The first node of kind `k` in pre-order within the subtree of
    /// `i`, including `i` itself.
    pub fn desc_of_kind(&self, i: usize, k: &str) -> (r: Option<usize>)
        requires
            i < self@.len(),
            tree_wf(self@),
        ensures
            match r {
                Some(j) => desc_of_kind(self@, i as int, k@) == j && j < self@.len(),
                None => desc_of_kind(self@, i as int, k@) == -1,
            },
    {
        proof {
            self.lemma_view();
        }
        let n = self.nodes.len();
        let mut j: usize = i;
        while j < n
            invariant
                i <= j <= n,
                i < n,
                n == self@.len(),
                n == self.nodes@.len(),
                tree_wf(self@),
                forall|m: int| 0 <= m < n ==> self@[m] == self.nodes@[m]@,
                desc_of_kind(self@, i as int, k@) == desc_of_kind_from(
                    self@,
                    i as int,
                    k@,
                    j as int,
                ),
            decreases n - j,
        {
            let inside = self.is_desc_or_self(j, i);
            if inside && str_eq(self.nodes[j].kind.as_str(), k) {
                return Some(j);
            }
            proof {
                assert(!(is_desc_or_self(self@, j as int, i as int) && self@[j as int].0 == k@));
            }
            j += 1;
        }
        None
    }

    /// The previous sibling of `j`.
    pub fn prev_sibling(&self, j: usize) -> (r: Option<usize>)
        requires
            j < self@.len(),
            tree_wf(self@),
        ensures
            match r {
                Some(m) => prev_sibling(self@, j as int) == m && m < j,
                None => prev_sibling(self@, j as int) == -1,
            },
    {
        proof {
            self.lemma_view();
        }
        let p = self.nodes[j].parent;
        if j == 0 {
            proof {
                assert(prev_sibling_scan(self@, self@[0].2, -1) == -1);
            }
            return None;
        }
        let mut m: usize = j - 1;
        loop
            invariant
                m < j < self@.len(),
                tree_wf(self@),
                forall|q: int| 0 <= q < self@.len() ==> self@[q] == self.nodes@[q]@,
                self@.len() == self.nodes@.len(),
                (match p {
                    Some(pp) => pp as int == self@[j as int].2,
                    None => self@[j as int].2 == -1,
                }),
                prev_sibling(self@, j as int) == prev_sibling_scan(
                    self@,
                    self@[j as int].2,
                    m as int,
                ),
            decreases m,
        {
            let pm: bool = match (self.nodes[m].parent, p) {
                (Some(a), Some(b)) => a == b,
                (None, None) => true,
                _ => false,
            };
            if pm {
                proof {
                    assert(self@[m as int].2 == self@[j as int].2);
                }
                return Some(m);
            }
            proof {
                assert(self@[m as int].2 != self@[j as int].2);
            }
            if m == 0 {
                proof {
                    assert(prev_sibling_scan(self@, self@[j as int].2, -1) == -1);
                }
                return None;
            }
            m -= 1;
        }
    }
}

} // verus!
