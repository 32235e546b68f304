//! A multi-language symbol-outline extractor.
//!
//! Given a language tag, a flattened concrete syntax tree and the
//! capture stream a per-language pattern script yields over it, the
//! library derives the exported declarations and renders them as a
//! single flat outline string. The whole pipeline behind the parse --
//! the language registry, the symbol builder with its per-language
//! visibility and nesting rules, the accretive container maps and the
//! serializer -- is verified against one ghost model, so the outline
//! is a proved function of the inputs.
//!
//! Parsing itself is I/O-free but lives in the embedding program: a
//! concrete-syntax-tree parser hands over the arena (`SyntaxTree`) and
//! the `(capture name, node index)` stream, both plain values.

pub mod model;
pub mod strutil;
pub mod serialize;
pub mod tree;
pub mod lang;
pub mod builder;
pub mod extract;
pub mod steps;
pub mod laws;
pub mod laws_maps;
pub mod laws_go;
pub mod scripts;

use vstd::prelude::*;
use crate::model::{Definition, DefinitionV};
use crate::tree::{NodeRow, SyntaxTree, tree_wf};
use crate::lang::{Lang, lang_of, parse_lang};
use crate::steps::{build_model, build_definitions, caps_view};
use crate::serialize::{defs_str, stringify_definitions};

verus! {

/// The definition stream an outline run yields: empty for an unknown
/// language tag, else the built symbol model.
pub open spec fn definitions_model(
    lang_tag: Seq<char>,
    rows: Seq<NodeRow>,
    caps: Seq<(Seq<char>, int)>,
) -> Seq<DefinitionV> {
    match lang_of(lang_tag) {
        None => Seq::empty(),
        Some(l) => build_model(l, rows, caps),
    }
}

/// The outline string an outline run yields.
pub open spec fn outline_model(
    lang_tag: Seq<char>,
    rows: Seq<NodeRow>,
    caps: Seq<(Seq<char>, int)>,
) -> Seq<char> {
    defs_str(definitions_model(lang_tag, rows, caps))
}

/// Extract the exported definitions of a parsed source file.
///
/// An unknown language tag yields an empty stream; that is not an
/// error.
pub fn extract_definitions(language: &str, tree: &SyntaxTree, captures: &Vec<(String, usize)>) -> (r: Vec<Definition>)
    requires
        tree_wf(tree@),
    ensures
        r@.map_values(|d: Definition| d@) == definitions_model(
            language@,
            tree@,
            caps_view(captures@),
        ),
{
    match parse_lang(language) {
        None => {
            let r: Vec<Definition> = Vec::new();
            proof {
                assert(r@.map_values(|d: Definition| d@) =~= Seq::<DefinitionV>::empty());
            }
            r
        },
        Some(l) => build_definitions(tree, l, captures),
    }
}

/// Render the outline of a parsed source file.
pub fn get_definitions_string(language: &str, tree: &SyntaxTree, captures: &Vec<(String, usize)>) -> (r: String)
    requires
        tree_wf(tree@),
    ensures
        r@ == outline_model(language@, tree@, caps_view(captures@)),
{
    let defs = extract_definitions(language, tree, captures);
    stringify_definitions(&defs)
}

/// Whether every parent stands strictly before its child.
pub fn check_tree(tree: &SyntaxTree) -> (r: bool)
    ensures
        r == tree_wf(tree@),
{
    proof {
        tree.lemma_view();
    }
    let n = tree.nodes.len();
    let mut i: usize = 0;
    while i < n
        invariant
            0 <= i <= n,
            n == tree@.len(),
            n == tree.nodes@.len(),
            forall|m: int| 0 <= m < n ==> tree@[m] == tree.nodes@[m]@,
            forall|m: int| 0 <= m < i ==> -1 <= (#[trigger] tree@[m]).2 < m,
        decreases n - i,
    {
        match tree.nodes[i].parent {
            Some(p) => {
                if p >= i {
                    proof {
                        assert(tree@[i as int].2 >= i);
                    }
                    return false;
                }
            },
            None => {
            },
        }
        proof {
            assert(-1 <= tree@[i as int].2 < i);
        }
        i += 1;
    }
    true
}

/// The outline of a parsed source file, when the handed-over tree is
/// well formed; `None` otherwise.
pub fn outline(language: &str, tree: &SyntaxTree, captures: &Vec<(String, usize)>) -> (r: Option<
    String,
>)
    ensures
        (match r {
            Some(s) => tree_wf(tree@) && s@ == outline_model(
                language@,
                tree@,
                caps_view(captures@),
            ),
            None => !tree_wf(tree@),
        }),
{
    if check_tree(tree) {
        Some(get_definitions_string(language, tree, captures))
    } else {
        None
    }
}

/// Determinism: the outline is a pure function of the language tag,
/// the tree and the capture stream; two runs over the same inputs give
/// the same outline.
pub proof fn lemma_outline_deterministic(
    lang_tag: Seq<char>,
    rows: Seq<NodeRow>,
    caps: Seq<(Seq<char>, int)>,
    s1: Seq<char>,
    s2: Seq<char>,
)
    requires
        s1 == outline_model(lang_tag, rows, caps),
        s2 == outline_model(lang_tag, rows, caps),
    ensures
        s1 == s2,
{
}

/// Language isolation: an unknown language tag yields the empty
/// outline, whatever the tree and captures hold.
pub proof fn lemma_unknown_language_empty(
    lang_tag: Seq<char>,
    rows: Seq<NodeRow>,
    caps: Seq<(Seq<char>, int)>,
)
    requires
        lang_of(lang_tag) is None,
    ensures
        outline_model(lang_tag, rows, caps) == Seq::<char>::empty(),
{
}

/// A non-empty outline ends with a semicolon.
pub proof fn lemma_outline_ends_with_semicolon(
    lang_tag: Seq<char>,
    rows: Seq<NodeRow>,
    caps: Seq<(Seq<char>, int)>,
)
    ensures
        outline_model(lang_tag, rows, caps).len() > 0 ==> outline_model(
            lang_tag,
            rows,
            caps,
        ).last() == ';',
{
    crate::laws::lemma_outline_ends_semicolon(definitions_model(lang_tag, rows, caps));
}

} // verus!
