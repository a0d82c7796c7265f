//! What holds of discovery: every edit replaces the text of a node and so names a
//! range of the source that holds its original text; scoping by name keeps discovery
//! inside the named construct; every listed name can be asked for; the traversal is
//! that of the tree.

use vstd::prelude::*;
use crate::discover::{
    all_fit, all_from, catalog_edits, child_edits, children_edits, comes_from, discovered,
    discovered_in_source, edits_over, emits, find_from, function_root, functions_from, listed,
    listed_names, names_from, names_function, replaces_node, skips, walk, walk_range, Family,
};
use crate::grammar::Grammar;
use crate::mutants::MutationView;
use crate::operators::CatalogEntry;
use crate::runner::{all_apply, can_splice};
use crate::tree::TreeView;

verus! {

/// Every edit of a node replaces the text of a node of its subtree.
pub proof fn lemma_emits_from(family: Family, t: TreeView, i: int)
    requires
        0 <= i < t.len(),
    ensures
        all_from(emits(family, t, i), t, i, t.subtree_end(i)),
{
    match family {
        Family::Python => crate::parser::lemma_emits_from(t, i),
        Family::Rust => crate::parser_rust::lemma_emits_from(t, i),
        Family::Script => crate::parser_js::lemma_emits_from(t, i),
    }
}

/// Every edit that a child adds replaces the text of the child.
pub proof fn lemma_child_edits_from(family: Family, t: TreeView, parent: int, c: int)
    requires
        0 <= c < t.len(),
    ensures
        all_from(child_edits(family, t, parent, c), t, c, c + 1),
{
    match family {
        Family::Python => crate::parser::lemma_child_edits_from(t, parent, c),
        Family::Rust => crate::parser_rust::lemma_child_edits_from(t, parent, c),
        Family::Script => crate::parser_js::lemma_child_edits_from(t, parent, c),
    }
}

/// The edits that nodes of a range add replace texts of nodes of that range.
pub proof fn lemma_edits_over_from(
    family: Family,
    t: TreeView,
    parent: int,
    kids: Seq<int>,
    lo: int,
    hi: int,
)
    requires
        forall|k: int| 0 <= k < kids.len() ==> lo <= #[trigger] kids[k] < hi && 0 <= kids[k]
            < t.len(),
    ensures
        all_from(edits_over(family, t, parent, kids), t, lo, hi),
    decreases kids.len(),
{
    if kids.len() > 0 {
        lemma_edits_over_from(family, t, parent, kids.drop_last(), lo, hi);
        lemma_child_edits_from(family, t, parent, kids.last());
        lemma_all_from_widen(
            child_edits(family, t, parent, kids.last()),
            t,
            kids.last(),
            kids.last() + 1,
            lo,
            hi,
        );
        lemma_all_from_concat(
            edits_over(family, t, parent, kids.drop_last()),
            child_edits(family, t, parent, kids.last()),
            t,
            lo,
            hi,
        );
    }
}

/// The edits that the children of a node add replace texts of nodes below the node.
pub proof fn lemma_children_edits_from(family: Family, t: TreeView, parent: int)
    requires
        0 <= parent < t.len(),
    ensures
        all_from(children_edits(family, t, parent), t, parent + 1, t.subtree_end(parent)),
{
    t.lemma_children(parent);
    t.lemma_subtree_end(parent);
    lemma_edits_over_from(
        family,
        t,
        parent,
        t.children(parent),
        parent + 1,
        t.subtree_end(parent),
    );
}

/// An edit made for a node replaces the text of that node.
pub proof fn lemma_edit_from(
    t: TreeView,
    at: int,
    span: int,
    operator: Seq<char>,
    replacement: Seq<char>,
    lo: int,
    hi: int,
)
    requires
        0 <= span < t.len(),
        lo <= span < hi,
    ensures
        all_from(seq![t.edit(at, span, operator, replacement)], t, lo, hi),
{
    let edits = seq![t.edit(at, span, operator, replacement)];
    assert(replaces_node(t, span, edits[0]));
}

/// The edits made from a catalog list for a node replace the text of that node.
pub proof fn lemma_catalog_edits_from(
    t: TreeView,
    at: int,
    span: int,
    entries: Seq<CatalogEntry>,
    lo: int,
    hi: int,
)
    requires
        0 <= span < t.len(),
        lo <= span < hi,
    ensures
        all_from(catalog_edits(t, at, span, entries), t, lo, hi),
{
    assert forall|k: int| 0 <= k < entries.len() implies comes_from(
        #[trigger] catalog_edits(t, at, span, entries)[k],
        t,
        lo,
        hi,
    ) by {
        assert(replaces_node(t, span, catalog_edits(t, at, span, entries)[k]));
    }
}

/// Two lists of edits of the nodes of a range are, together, edits of nodes of the
/// range.
pub proof fn lemma_all_from_concat(
    a: Seq<MutationView>,
    b: Seq<MutationView>,
    t: TreeView,
    lo: int,
    hi: int,
)
    requires
        all_from(a, t, lo, hi),
        all_from(b, t, lo, hi),
    ensures
        all_from(a + b, t, lo, hi),
{
    assert forall|k: int| 0 <= k < (a + b).len() implies comes_from(
        #[trigger] (a + b)[k],
        t,
        lo,
        hi,
    ) by {
        if k < a.len() {
            assert((a + b)[k] == a[k]);
        } else {
            assert((a + b)[k] == b[k - a.len()]);
        }
    }
}

/// Edits of the nodes of a range are edits of the nodes of every range around it.
pub proof fn lemma_all_from_widen(
    edits: Seq<MutationView>,
    t: TreeView,
    lo: int,
    hi: int,
    wide_lo: int,
    wide_hi: int,
)
    requires
        all_from(edits, t, lo, hi),
        wide_lo <= lo,
        hi <= wide_hi,
    ensures
        all_from(edits, t, wide_lo, wide_hi),
{
    assert forall|k: int| 0 <= k < edits.len() implies comes_from(
        #[trigger] edits[k],
        t,
        wide_lo,
        wide_hi,
    ) by {
        assert(comes_from(edits[k], t, lo, hi));
        let n = choose|n: int| lo <= n < hi && #[trigger] replaces_node(t, n, edits[k]);
        assert(wide_lo <= n < wide_hi && replaces_node(t, n, edits[k]));
    }
}

/// Edits that replace the texts of nodes of a tree whose nodes fit the source name
/// ranges of the source that hold their original texts.
pub proof fn lemma_all_from_fit(edits: Seq<MutationView>, t: TreeView, lo: int, hi: int)
    requires
        t.fits(),
        all_from(edits, t, lo, hi),
    ensures
        all_fit(edits, t.source),
{
    assert forall|k: int| 0 <= k < edits.len() implies (#[trigger] edits[k]).fits(t.source) by {
        assert(comes_from(edits[k], t, lo, hi));
        let n = choose|n: int| lo <= n < hi && #[trigger] replaces_node(t, n, edits[k]);
        assert(t.node_fits(n));
        t.lemma_text_bytes(n);
    }
}

/// The edits of a range of nodes inside the subtree of `root` replace texts of nodes
/// of that subtree.
pub proof fn lemma_walk_range_from(family: Family, t: TreeView, root: int, j: int)
    requires
        0 <= root < t.len(),
        root <= j <= t.subtree_end(root),
    ensures
        all_from(
            walk_range(family, t, j, t.subtree_end(root)),
            t,
            root,
            t.subtree_end(root),
        ),
    decreases t.nodes.len() - j,
{
    let stop = t.subtree_end(root);
    t.lemma_subtree_end(root);
    if j < stop {
        t.lemma_subtree_end(j);
        if j > root {
            t.lemma_nested(root, j);
        }
        if skips(family, t, j) {
            lemma_walk_range_from(family, t, root, t.subtree_end(j));
        } else {
            lemma_emits_from(family, t, j);
            lemma_all_from_widen(emits(family, t, j), t, j, t.subtree_end(j), root, stop);
            lemma_walk_range_from(family, t, root, j + 1);
            lemma_all_from_concat(
                emits(family, t, j),
                walk_range(family, t, j + 1, stop),
                t,
                root,
                stop,
            );
        }
    }
}

/// The edits of a node and of the nodes below it replace texts of nodes of its
/// subtree.
pub proof fn lemma_walk_from(family: Family, t: TreeView, w: int)
    ensures
        all_from(walk(family, t, w), t, w, t.subtree_end(w)),
        all_from(walk(family, t, w), t, 0, t.len()),
{
    if 0 <= w < t.len() {
        t.lemma_subtree_end(w);
        lemma_walk_range_from(family, t, w, w);
        lemma_all_from_widen(walk(family, t, w), t, w, t.subtree_end(w), 0, t.len());
    }
}

/// The edits of all outermost function-like constructs replace texts of nodes.
pub proof fn lemma_functions_from(family: Family, t: TreeView, j: int)
    ensures
        all_from(functions_from(family, t, j), t, 0, t.len()),
    decreases t.nodes.len() - j,
{
    if 0 <= j < t.len() {
        match function_root(family, t, j) {
            Some(w) => {
                t.lemma_subtree_end(j);
                lemma_walk_from(family, t, w);
                lemma_functions_from(family, t, t.subtree_end(j));
                lemma_all_from_concat(
                    walk(family, t, w),
                    functions_from(family, t, t.subtree_end(j)),
                    t,
                    0,
                    t.len(),
                );
            },
            None => {
                lemma_functions_from(family, t, j + 1);
            },
        }
    }
}

/// Edits that replace the texts of nodes of a tree whose nodes fit the source can be
/// applied to the source.
pub proof fn lemma_all_from_apply(edits: Seq<MutationView>, t: TreeView, lo: int, hi: int)
    requires
        t.fits(),
        all_from(edits, t, lo, hi),
    ensures
        all_apply(edits, t.source),
{
    vstd::utf8::encode_utf8_valid_utf8(t.source);
    vstd::utf8::is_char_boundary_start_end_of_seq(t.bytes());
    assert forall|k: int| 0 <= k < edits.len() implies can_splice(
        t.source,
        #[trigger] edits[k],
    ) by {
        assert(comes_from(edits[k], t, lo, hi));
        let n = choose|n: int| lo <= n < hi && #[trigger] replaces_node(t, n, edits[k]);
        assert(t.node_fits(n));
    }
}

/// Every discovered edit names a range of the source, with `start_byte <= end_byte`
/// and `end_byte` no greater than the length of the source, and the source holds the
/// edit's original text there; and every discovered edit can be applied to the source.
pub proof fn lemma_discovered_fit(family: Family, t: TreeView, name: Option<Seq<char>>)
    requires
        t.fits(),
    ensures
        all_fit(discovered(family, t, name), t.source),
        all_apply(discovered(family, t, name), t.source),
{
    match name {
        Some(n) => match find_from(family, t, n, 0) {
            Some(w) => {
                lemma_walk_from(family, t, w);
                lemma_all_from_fit(walk(family, t, w), t, 0, t.len());
                lemma_all_from_apply(walk(family, t, w), t, 0, t.len());
            },
            None => {},
        },
        None => {
            lemma_functions_from(family, t, 0);
            lemma_all_from_fit(functions_from(family, t, 0), t, 0, t.len());
            lemma_all_from_apply(functions_from(family, t, 0), t, 0, t.len());
        },
    }
}

/// The construct that scoping finds is the first node in document order that is called
/// by the name that was asked for; where it finds none, no node is called so.
pub proof fn lemma_found_function(family: Family, t: TreeView, name: Seq<char>, j: int)
    requires
        0 <= j,
    ensures
        match find_from(family, t, name, j) {
            Some(w) => j <= w < t.len() && names_function(family, t, w, name) && forall|k: int|
                j <= k < w ==> !names_function(family, t, k, name),
            None => forall|k: int| j <= k < t.len() ==> !names_function(family, t, k, name),
        },
    decreases t.nodes.len() - j,
{
    if j < t.len() && !names_function(family, t, j, name) {
        lemma_found_function(family, t, name, j + 1);
    }
}

/// A name that a node adds to the list of functions is a name of that node.
pub proof fn lemma_listed_is_named(family: Family, t: TreeView, i: int)
    ensures
        forall|k: int|
            0 <= k < listed_names(family, t, i).len() ==> names_function(
                family,
                t,
                i,
                #[trigger] listed_names(family, t, i)[k],
            ),
{
    match family {
        Family::Python => crate::parser::lemma_listed_is_named(t, i),
        Family::Rust => crate::parser_rust::lemma_listed_is_named(t, i),
        Family::Script => crate::parser_js::lemma_listed_is_named(t, i),
    }
}

/// Where a node at or after `j` is called `name`, scoping from `j` on finds a
/// construct.
pub proof fn lemma_named_is_found(family: Family, t: TreeView, name: Seq<char>, j: int, i: int)
    requires
        0 <= j <= i < t.len(),
        names_function(family, t, i, name),
    ensures
        find_from(family, t, name, j) is Some,
    decreases t.nodes.len() - j,
{
    if j < i && !names_function(family, t, j, name) {
        lemma_named_is_found(family, t, name, j + 1, i);
    }
}

/// Every name that the nodes from `j` on add to the list of functions is found by
/// scoping.
pub proof fn lemma_names_from_are_found(family: Family, t: TreeView, j: int)
    requires
        0 <= j,
    ensures
        forall|k: int|
            0 <= k < names_from(family, t, j).len() ==> find_from(
                family,
                t,
                #[trigger] names_from(family, t, j)[k],
                0,
            ) is Some,
    decreases t.nodes.len() - j,
{
    if j < t.len() {
        lemma_names_from_are_found(family, t, j + 1);
        lemma_listed_is_named(family, t, j);
        let here = listed_names(family, t, j);
        let rest = names_from(family, t, j + 1);
        assert forall|k: int| 0 <= k < names_from(family, t, j).len() implies find_from(
            family,
            t,
            #[trigger] names_from(family, t, j)[k],
            0,
        ) is Some by {
            if k < here.len() {
                assert(names_from(family, t, j)[k] == here[k]);
                lemma_named_is_found(family, t, here[k], 0, j);
            } else {
                assert(names_from(family, t, j)[k] == rest[k - here.len()]);
            }
        }
    }
}

/// The list of functions holds only names that scoping can be asked for: discovery
/// under a listed name finds a construct of that name.
pub proof fn lemma_listed_names_are_found(family: Family, t: TreeView)
    ensures
        forall|k: int|
            0 <= k < listed(family, t).len() ==> find_from(
                family,
                t,
                #[trigger] listed(family, t)[k],
                0,
            ) is Some,
{
    lemma_names_from_are_found(family, t, 0);
}

/// Scoping keeps discovery inside the named construct: every edit that discovery
/// finds under a name replaces the text of a node of the first construct with that
/// name, so none stems from text that stands outside it.
pub proof fn lemma_scoped_edits_lie_in_function(family: Family, t: TreeView, name: Seq<char>)
    ensures
        match find_from(family, t, name, 0) {
            Some(w) => 0 <= w < t.len() && all_from(
                discovered(family, t, Some(name)),
                t,
                w,
                t.subtree_end(w),
            ),
            None => discovered(family, t, Some(name)).len() == 0,
        },
{
    lemma_found_function(family, t, name, 0);
    match find_from(family, t, name, 0) {
        Some(w) => {
            lemma_walk_from(family, t, w);
        },
        None => {},
    }
}

/// The scan for outermost function-like constructs that starts at node `j` comes to
/// node `w`.
pub open spec fn scan_reaches(family: Family, t: TreeView, j: int, w: int) -> bool
    decreases t.nodes.len() - j,
{
    if 0 <= j <= w < t.len() {
        if j == w {
            true
        } else {
            match function_root(family, t, j) {
                Some(_) => {
                    proof {
                        t.lemma_subtree_end(j);
                    }
                    scan_reaches(family, t, t.subtree_end(j), w)
                },
                None => scan_reaches(family, t, j + 1, w),
            }
        }
    } else {
        false
    }
}

/// The edits of the outermost function-like constructs that the scan from node `j`
/// meets before it comes to node `w`.
pub open spec fn functions_before(family: Family, t: TreeView, j: int, w: int) -> Seq<
    MutationView,
>
    decreases t.nodes.len() - j,
{
    if 0 <= j < w <= t.len() {
        match function_root(family, t, j) {
            Some(r) => {
                proof {
                    t.lemma_subtree_end(j);
                }
                walk(family, t, r) + functions_before(family, t, t.subtree_end(j), w)
            },
            None => functions_before(family, t, j + 1, w),
        }
    } else {
        seq![]
    }
}

/// The edits found without a name, from node `j` on, are those of the constructs
/// before an outermost construct `w`, those of `w`, and those of the constructs after
/// it.
pub proof fn lemma_functions_split(family: Family, t: TreeView, j: int, w: int)
    requires
        scan_reaches(family, t, j, w),
        function_root(family, t, w) == Some(w),
    ensures
        functions_from(family, t, j) == functions_before(family, t, j, w) + walk(family, t, w)
            + functions_from(family, t, t.subtree_end(w)),
    decreases t.nodes.len() - j,
{
    if j == w {
        assert(functions_before(family, t, j, w) =~= Seq::<MutationView>::empty());
        assert(functions_from(family, t, j) =~= functions_before(family, t, j, w) + walk(
            family,
            t,
            w,
        ) + functions_from(family, t, t.subtree_end(w)));
    } else {
        match function_root(family, t, j) {
            Some(r) => {
                t.lemma_subtree_end(j);
                lemma_functions_split(family, t, t.subtree_end(j), w);
                assert(functions_from(family, t, j) =~= functions_before(family, t, j, w) + walk(
                    family,
                    t,
                    w,
                ) + functions_from(family, t, t.subtree_end(w)));
            },
            None => {
                lemma_functions_split(family, t, j + 1, w);
            },
        }
    }
}

/// The scoping law. Where the construct that a name finds is traversed as a whole and
/// is an outermost one, the edits found under the name are a part of the edits found
/// without a name, in one piece; so there are at least as many edits without a name,
/// and more as soon as another outermost construct has an edit.
pub proof fn lemma_scoped_is_part_of_whole(family: Family, t: TreeView, name: Seq<char>, w: int)
    requires
        find_from(family, t, name, 0) == Some(w),
        function_root(family, t, w) == Some(w),
        scan_reaches(family, t, 0, w),
    ensures
        discovered(family, t, None) == functions_before(family, t, 0, w) + discovered(
            family,
            t,
            Some(name),
        ) + functions_from(family, t, t.subtree_end(w)),
        discovered(family, t, None).len() >= discovered(family, t, Some(name)).len(),
        functions_before(family, t, 0, w).len() + functions_from(
            family,
            t,
            t.subtree_end(w),
        ).len() > 0 ==> discovered(family, t, None).len() > discovered(
            family,
            t,
            Some(name),
        ).len(),
{
    lemma_functions_split(family, t, 0, w);
}

/// The edits of the nodes `kids`, each with the nodes below it, one after the other.
pub open spec fn walks_of(family: Family, t: TreeView, kids: Seq<int>) -> Seq<MutationView>
    decreases kids.len(),
{
    if kids.len() == 0 {
        seq![]
    } else {
        walk(family, t, kids[0]) + walks_of(family, t, kids.drop_first())
    }
}

/// The edits of a range that begins inside the subtree of `c` and ends after it are
/// those up to the end of that subtree and those from there on.
pub proof fn lemma_walk_range_split(family: Family, t: TreeView, c: int, j: int, stop: int)
    requires
        0 <= c < t.len(),
        c <= j <= t.subtree_end(c) <= stop <= t.len(),
    ensures
        walk_range(family, t, j, stop) == walk_range(family, t, j, t.subtree_end(c)) + walk_range(
            family,
            t,
            t.subtree_end(c),
            stop,
        ),
    decreases t.nodes.len() - j,
{
    let end = t.subtree_end(c);
    let rest = walk_range(family, t, end, stop);
    if j < end {
        t.lemma_subtree_end(j);
        if j > c {
            t.lemma_nested(c, j);
        }
        if skips(family, t, j) {
            lemma_walk_range_split(family, t, c, t.subtree_end(j), stop);
        } else {
            lemma_walk_range_split(family, t, c, j + 1, stop);
            assert(walk_range(family, t, j, stop) =~= walk_range(family, t, j, end) + rest);
        }
    } else {
        assert(walk_range(family, t, j, end) =~= Seq::<MutationView>::empty());
        assert(walk_range(family, t, j, stop) =~= walk_range(family, t, j, end) + rest);
    }
}

/// The edits of the nodes from a child `c` of node `i` to the end of the subtree of
/// `i` are the edits of `c` and of the siblings after it, each with the nodes below it.
pub proof fn lemma_walk_siblings(family: Family, t: TreeView, i: int, c: int)
    requires
        0 <= i < t.len(),
        i < c <= t.subtree_end(i),
    ensures
        walk_range(family, t, c, t.subtree_end(i)) == walks_of(
            family,
            t,
            t.siblings(c, t.subtree_end(i)),
        ),
    decreases t.subtree_end(i) - c,
{
    let stop = t.subtree_end(i);
    t.lemma_subtree_end(i);
    if c < stop {
        t.lemma_nested(i, c);
        let next = t.subtree_end(c);
        lemma_walk_range_split(family, t, c, c, stop);
        lemma_walk_siblings(family, t, i, next);
        assert(t.siblings(c, stop).drop_first() =~= t.siblings(next, stop));
        assert(t.siblings(c, stop)[0] == c);
    }
}

/// The traversal is that of the tree: a node that is left out gives nothing; any other
/// node gives its own edits and then, child by child, those of its children with all
/// that lies below them.
pub proof fn lemma_walk_unfolds(family: Family, t: TreeView, i: int)
    requires
        0 <= i < t.len(),
    ensures
        walk(family, t, i) == if skips(family, t, i) {
            Seq::<MutationView>::empty()
        } else {
            emits(family, t, i) + walks_of(family, t, t.children(i))
        },
{
    t.lemma_subtree_end(i);
    if skips(family, t, i) {
        assert(walk_range(family, t, t.subtree_end(i), t.subtree_end(i)) =~= Seq::<
            MutationView,
        >::empty());
    } else {
        lemma_walk_siblings(family, t, i, i + 1);
    }
}

/// Discovery is a function of its input: any two lists that discovery may give for the
/// same grammar, source and name are the same list.
pub proof fn lemma_discovery_is_deterministic(
    grammar: Grammar,
    source: Seq<char>,
    name: Option<Seq<char>>,
    first: Seq<MutationView>,
    second: Seq<MutationView>,
)
    requires
        first == discovered_in_source(grammar, source, name),
        second == discovered_in_source(grammar, source, name),
    ensures
        first == second,
{
}

} // verus!
