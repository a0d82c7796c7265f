//! Discovery, for any language: the traversal of a syntax tree that collects the edits
//! of its function-like constructs, under the rules of one family of languages.

use vstd::prelude::*;
use crate::mutants::{Mutation, MutationView};
use crate::operators::{CatalogEntry, MutationOp};
use crate::grammar::{parse_source, parsed_tree, Grammar};
use crate::laws::lemma_discovered_fit;
use crate::runner::all_apply;
use crate::tree::{SyntaxTree, TreeView};
use crate::Language;

verus! {

/// A family of languages with rules of discovery of its own.
#[derive(Debug, Clone, Copy, PartialEq, Eq, Structural)]
pub enum Family {
    Python,
    Rust,
    Script,
}

/// The grammar that sources of a language are parsed with.
pub open spec fn spec_grammar_for(language: Language) -> Grammar {
    match language {
        Language::Python => Grammar::Python,
        Language::Rust => Grammar::Rust,
        Language::JavaScript => Grammar::JavaScript,
        Language::TypeScript => Grammar::TypeScript,
        Language::Tsx => Grammar::Tsx,
    }
}

/// The grammar that sources of a language are parsed with.
pub fn grammar_for(language: Language) -> (r: Grammar)
    ensures
        r == spec_grammar_for(language),
{
    match language {
        Language::Python => Grammar::Python,
        Language::Rust => Grammar::Rust,
        Language::JavaScript => Grammar::JavaScript,
        Language::TypeScript => Grammar::TypeScript,
        Language::Tsx => Grammar::Tsx,
    }
}

/// The family of languages that a grammar belongs to.
pub open spec fn spec_family_of(grammar: Grammar) -> Family {
    match grammar {
        Grammar::Python => Family::Python,
        Grammar::Rust => Family::Rust,
        Grammar::JavaScript => Family::Script,
        Grammar::TypeScript => Family::Script,
        Grammar::Tsx => Family::Script,
    }
}

/// The family of languages that a grammar belongs to.
pub fn family_of(grammar: Grammar) -> (r: Family)
    ensures
        r == spec_family_of(grammar),
{
    match grammar {
        Grammar::Python => Family::Python,
        Grammar::Rust => Family::Rust,
        Grammar::JavaScript => Family::Script,
        Grammar::TypeScript => Family::Script,
        Grammar::Tsx => Family::Script,
    }
}

/// Node `i` is left out, with everything below it.
pub open spec fn skips(family: Family, t: TreeView, i: int) -> bool {
    match family {
        Family::Python => crate::parser::skips(t, i),
        Family::Rust => crate::parser_rust::skips(t, i),
        Family::Script => crate::parser_js::skips(t, i),
    }
}

/// The edits that node `i` itself gives rise to.
pub open spec fn emits(family: Family, t: TreeView, i: int) -> Seq<MutationView> {
    match family {
        Family::Python => crate::parser::emits(t, i),
        Family::Rust => crate::parser_rust::emits(t, i),
        Family::Script => crate::parser_js::emits(t, i),
    }
}

/// The edits that the child `c` of node `parent` adds to those of `parent`.
pub open spec fn child_edits(family: Family, t: TreeView, parent: int, c: int) -> Seq<
    MutationView,
> {
    match family {
        Family::Python => crate::parser::child_edits(t, parent, c),
        Family::Rust => crate::parser_rust::child_edits(t, parent, c),
        Family::Script => crate::parser_js::child_edits(t, parent, c),
    }
}

/// Node `i` is a function-like construct called `name`.
pub open spec fn names_function(family: Family, t: TreeView, i: int, name: Seq<char>) -> bool {
    match family {
        Family::Python => crate::parser::names_function(t, i, name),
        Family::Rust => crate::parser_rust::names_function(t, i, name),
        Family::Script => crate::parser_js::names_function(t, i, name),
    }
}

/// Where node `i` is a function-like construct: the node that is traversed for it.
pub open spec fn function_root(family: Family, t: TreeView, i: int) -> Option<int> {
    match family {
        Family::Python => crate::parser::function_root(t, i),
        Family::Rust => crate::parser_rust::function_root(t, i),
        Family::Script => crate::parser_js::function_root(t, i),
    }
}

/// The names that node `i` adds to the list of functions.
pub open spec fn listed_names(family: Family, t: TreeView, i: int) -> Seq<Seq<char>> {
    match family {
        Family::Python => crate::parser::listed_names(t, i),
        Family::Rust => crate::parser_rust::listed_names(t, i),
        Family::Script => crate::parser_js::listed_names(t, i),
    }
}

/// Whether node `i` is left out, with everything below it.
pub fn should_skip_node(family: Family, tree: &SyntaxTree, i: usize) -> (r: bool)
    requires
        tree.wf(),
        i < tree@.len(),
    ensures
        r == skips(family, tree@, i as int),
{
    match family {
        Family::Python => crate::parser::should_skip_node(tree, i),
        Family::Rust => crate::parser_rust::should_skip_node(tree, i),
        Family::Script => crate::parser_js::should_skip_node(tree, i),
    }
}

/// The edits that node `i` itself gives rise to.
pub fn collect(family: Family, tree: &SyntaxTree, i: usize) -> (r: Vec<Mutation>)
    requires
        tree.wf(),
        i < tree@.len(),
    ensures
        r.deep_view() == emits(family, tree@, i as int),
{
    match family {
        Family::Python => crate::parser::collect(tree, i),
        Family::Rust => crate::parser_rust::collect(tree, i),
        Family::Script => crate::parser_js::collect(tree, i),
    }
}

/// Appends the edits that the child `c` of node `parent` adds to those of `parent`.
pub fn push_child_edits(
    family: Family,
    tree: &SyntaxTree,
    parent: usize,
    c: usize,
    out: &mut Vec<Mutation>,
)
    requires
        tree.wf(),
        parent < tree@.len(),
        c < tree@.len(),
    ensures
        final(out).deep_view() == old(out).deep_view() + child_edits(
            family,
            tree@,
            parent as int,
            c as int,
        ),
{
    match family {
        Family::Python => crate::parser::push_child_edits(tree, parent, c, out),
        Family::Rust => crate::parser_rust::push_child_edits(tree, parent, c, out),
        Family::Script => crate::parser_js::push_child_edits(tree, parent, c, out),
    }
}

/// Whether node `i` is a function-like construct called `name`.
pub fn is_named_function(family: Family, tree: &SyntaxTree, i: usize, name: &str) -> (r: bool)
    requires
        tree.wf(),
        i < tree@.len(),
    ensures
        r == names_function(family, tree@, i as int, name@),
{
    match family {
        Family::Python => crate::parser::is_named_function(tree, i, name),
        Family::Rust => crate::parser_rust::is_named_function(tree, i, name),
        Family::Script => crate::parser_js::is_named_function(tree, i, name),
    }
}

/// Where node `i` is a function-like construct: the node that is traversed for it.
pub fn function_root_of(family: Family, tree: &SyntaxTree, i: usize) -> (r: Option<usize>)
    requires
        tree.wf(),
        i < tree@.len(),
    ensures
        match r {
            Some(w) => function_root(family, tree@, i as int) == Some(w as int) && w
                < tree@.len(),
            None => function_root(family, tree@, i as int) is None,
        },
{
    match family {
        Family::Python => crate::parser::function_root_of(tree, i),
        Family::Rust => crate::parser_rust::function_root_of(tree, i),
        Family::Script => crate::parser_js::function_root_of(tree, i),
    }
}

/// The names that node `i` adds to the list of functions.
pub fn names_of(family: Family, tree: &SyntaxTree, i: usize) -> (r: Vec<String>)
    requires
        tree.wf(),
        i < tree@.len(),
    ensures
        r.deep_view() == listed_names(family, tree@, i as int),
{
    match family {
        Family::Python => crate::parser::names_of(tree, i),
        Family::Rust => crate::parser_rust::names_of(tree, i),
        Family::Script => crate::parser_js::names_of(tree, i),
    }
}

/// The edits that the nodes `kids` add to those of node `parent`.
pub open spec fn edits_over(family: Family, t: TreeView, parent: int, kids: Seq<int>) -> Seq<
    MutationView,
>
    decreases kids.len(),
{
    if kids.len() == 0 {
        seq![]
    } else {
        edits_over(family, t, parent, kids.drop_last()) + child_edits(
            family,
            t,
            parent,
            kids.last(),
        )
    }
}

/// The edits that the children of node `parent` add to those of `parent`.
pub open spec fn children_edits(family: Family, t: TreeView, parent: int) -> Seq<MutationView> {
    edits_over(family, t, parent, t.children(parent))
}

/// The edits that the children of node `parent` add to those of `parent`.
pub fn collect_children(family: Family, tree: &SyntaxTree, parent: usize) -> (r: Vec<Mutation>)
    requires
        tree.wf(),
        parent < tree@.len(),
    ensures
        r.deep_view() == children_edits(family, tree@, parent as int),
{
    let kids = tree.children(parent);
    let ghost all = tree@.children(parent as int);
    let mut out: Vec<Mutation> = Vec::new();
    let mut k: usize = 0;
    assert(out.deep_view() =~= Seq::<MutationView>::empty());
    assert(all.take(0) =~= Seq::<int>::empty());
    while k < kids.len()
        invariant
            tree.wf(),
            parent < tree@.len(),
            all == tree@.children(parent as int),
            kids.len() == all.len(),
            forall|j: int| 0 <= j < kids.len() ==> parent < #[trigger] kids[j] < tree@.len(),
            forall|j: int| 0 <= j < kids.len() ==> kids[j] as int == all[j],
            0 <= k <= kids.len(),
            out.deep_view() == edits_over(family, tree@, parent as int, all.take(k as int)),
        decreases kids.len() - k,
    {
        push_child_edits(family, tree, parent, kids[k], &mut out);
        proof {
            assert(all.take(k + 1).drop_last() =~= all.take(k as int));
            assert(all.take(k + 1).last() == kids[k as int] as int);
        }
        k = k + 1;
    }
    assert(all.take(k as int) =~= all);
    out
}

/// Every edit of `edits` names a range of `source` that holds its original text.
pub open spec fn all_fit(edits: Seq<MutationView>, source: Seq<char>) -> bool {
    forall|k: int| 0 <= k < edits.len() ==> (#[trigger] edits[k]).fits(source)
}

/// The edit `m` replaces the text of node `n`.
pub open spec fn replaces_node(t: TreeView, n: int, m: MutationView) -> bool {
    &&& 0 <= n < t.len()
    &&& m.start_byte == t.nodes[n].start_byte
    &&& m.end_byte == t.nodes[n].end_byte
    &&& m.original == t.text(n)
}

/// The edit `m` replaces the text of one of the nodes `[lo, hi)`.
pub open spec fn comes_from(m: MutationView, t: TreeView, lo: int, hi: int) -> bool {
    exists|n: int| lo <= n < hi && #[trigger] replaces_node(t, n, m)
}

/// Every edit of `edits` replaces the text of one of the nodes `[lo, hi)`.
pub open spec fn all_from(edits: Seq<MutationView>, t: TreeView, lo: int, hi: int) -> bool {
    forall|k: int| 0 <= k < edits.len() ==> comes_from(#[trigger] edits[k], t, lo, hi)
}

/// One edit for each entry of a catalog list: each replaces the text of node `span` and
/// is reported at node `at`.
pub open spec fn catalog_edits(t: TreeView, at: int, span: int, entries: Seq<CatalogEntry>) -> Seq<
    MutationView,
> {
    Seq::new(entries.len(), |k: int| t.edit(at, span, entries[k].operator, entries[k].replacement))
}

/// The edits of the nodes `[j, stop)`, in document order, without those of a skipped
/// node and of the nodes below it.
pub open spec fn walk_range(family: Family, t: TreeView, j: int, stop: int) -> Seq<MutationView>
    decreases t.nodes.len() - j,
{
    if 0 <= j < stop <= t.len() {
        if skips(family, t, j) {
            proof {
                t.lemma_subtree_end(j);
            }
            walk_range(family, t, t.subtree_end(j), stop)
        } else {
            emits(family, t, j) + walk_range(family, t, j + 1, stop)
        }
    } else {
        seq![]
    }
}

/// The edits of node `i` and of the nodes below it.
pub open spec fn walk(family: Family, t: TreeView, i: int) -> Seq<MutationView> {
    walk_range(family, t, i, t.subtree_end(i))
}

/// The first function-like construct called `name` at or after node `j`.
pub open spec fn find_from(family: Family, t: TreeView, name: Seq<char>, j: int) -> Option<int>
    decreases t.nodes.len() - j,
{
    if 0 <= j < t.len() {
        if names_function(family, t, j, name) {
            Some(j)
        } else {
            find_from(family, t, name, j + 1)
        }
    } else {
        None
    }
}

/// The edits of the outermost function-like constructs at or after node `j`: what lies
/// outside them gives none, and a construct inside another one is reached through the
/// outer one only.
pub open spec fn functions_from(family: Family, t: TreeView, j: int) -> Seq<MutationView>
    decreases t.nodes.len() - j,
{
    if 0 <= j < t.len() {
        match function_root(family, t, j) {
            Some(w) => {
                proof {
                    t.lemma_subtree_end(j);
                }
                walk(family, t, w) + functions_from(family, t, t.subtree_end(j))
            },
            None => functions_from(family, t, j + 1),
        }
    } else {
        seq![]
    }
}

/// The edits that discovery finds in a tree: those of the first construct called
/// `name`, or none if there is no such construct; without a name, those of all
/// outermost function-like constructs.
pub open spec fn discovered(family: Family, t: TreeView, name: Option<Seq<char>>) -> Seq<MutationView> {
    match name {
        Some(n) => match find_from(family, t, n, 0) {
            Some(w) => walk(family, t, w),
            None => seq![],
        },
        None => functions_from(family, t, 0),
    }
}

/// The names that the nodes at or after `j` add to the list of functions.
pub open spec fn names_from(family: Family, t: TreeView, j: int) -> Seq<Seq<char>>
    decreases t.nodes.len() - j,
{
    if 0 <= j < t.len() {
        listed_names(family, t, j) + names_from(family, t, j + 1)
    } else {
        seq![]
    }
}

/// The names of the function-like constructs of a tree, in document order.
pub open spec fn listed(family: Family, t: TreeView) -> Seq<Seq<char>> {
    names_from(family, t, 0)
}

/// A list of one edit.
pub fn one_edit(m: Mutation) -> (r: Vec<Mutation>)
    ensures
        r.deep_view() == seq![m@],
{
    let mut out: Vec<Mutation> = Vec::new();
    out.push(m);
    assert(out.deep_view() =~= seq![m@]);
    out
}

/// A list of no edits.
pub fn no_edits() -> (r: Vec<Mutation>)
    ensures
        r.deep_view() == Seq::<MutationView>::empty(),
{
    let out: Vec<Mutation> = Vec::new();
    assert(out.deep_view() =~= Seq::<MutationView>::empty());
    out
}

/// Appends `more` to `out`.
pub fn extend(out: &mut Vec<Mutation>, more: Vec<Mutation>)
    ensures
        final(out).deep_view() == old(out).deep_view() + more.deep_view(),
{
    let mut more = more;
    let ghost before = out.deep_view();
    let ghost added = more.deep_view();
    out.append(&mut more);
    assert(out.deep_view() =~= before + added);
}

/// Appends one edit for each entry of `ops` to `out`.
pub fn push_catalog_edits(
    tree: &SyntaxTree,
    out: &mut Vec<Mutation>,
    at: usize,
    span: usize,
    ops: &Vec<MutationOp>,
)
    requires
        tree.wf(),
        at < tree@.len(),
        span < tree@.len(),
    ensures
        final(out).deep_view() == old(out).deep_view() + catalog_edits(
            tree@,
            at as int,
            span as int,
            ops.deep_view(),
        ),
{
    let ghost before = out.deep_view();
    let ghost all = catalog_edits(tree@, at as int, span as int, ops.deep_view());
    let mut k: usize = 0;
    while k < ops.len()
        invariant
            tree.wf(),
            at < tree@.len(),
            span < tree@.len(),
            0 <= k <= ops.len(),
            all == catalog_edits(tree@, at as int, span as int, ops.deep_view()),
            out.deep_view() == before + all.take(k as int),
        decreases ops.len() - k,
    {
        let ghost so_far = out.deep_view();
        let m = tree.edit(at, span, ops[k].operator_name, ops[k].replacement.to_owned());
        out.push(m);
        proof {
            assert(ops.deep_view()[k as int] == ops[k as int]@);
            assert(out.deep_view() =~= so_far.push(m@));
            assert(all.take(k + 1) =~= all.take(k as int).push(all[k as int]));
            assert(so_far.push(m@) =~= before + all.take(k + 1));
        }
        k = k + 1;
    }
    assert(all.take(k as int) =~= all);
}

/// The edits of node `root` and of the nodes below it.
pub fn walk_node(family: Family, tree: &SyntaxTree, root: usize) -> (r: Vec<Mutation>)
    requires
        tree.wf(),
        root < tree@.len(),
    ensures
        r.deep_view() == walk(family, tree@, root as int),
{
    let stop = tree.subtree_end(root);
    let mut out: Vec<Mutation> = Vec::new();
    let mut j: usize = root;
    assert(out.deep_view() =~= Seq::<MutationView>::empty());
    while j < stop
        invariant
            tree.wf(),
            root <= j <= stop <= tree@.len(),
            root < tree@.len(),
            stop == tree@.subtree_end(root as int),
            out.deep_view() + walk_range(family, tree@, j as int, stop as int) == walk(family, 
                tree@,
                root as int,
            ),
        decreases stop - j,
    {
        let ghost so_far = out.deep_view();
        if should_skip_node(family, tree, j) {
            let next = tree.subtree_end(j);
            proof {
                if j > root {
                    tree@.lemma_nested(root as int, j as int);
                }
            }
            j = next;
        } else {
            let found = collect(family, tree, j);
            extend(&mut out, found);
            proof {
                assert((so_far + emits(family, tree@, j as int)) + walk_range(family, 
                    tree@,
                    j + 1,
                    stop as int,
                ) =~= so_far + (emits(family, tree@, j as int) + walk_range(family, 
                    tree@,
                    j + 1,
                    stop as int,
                )));
            }
            j = j + 1;
        }
    }
    assert(out.deep_view() + walk_range(family, tree@, j as int, stop as int) =~= out.deep_view());
    out
}

/// The first function-like construct called `name`.
pub fn find_function(family: Family, tree: &SyntaxTree, name: &str) -> (r: Option<usize>)
    requires
        tree.wf(),
    ensures
        match r {
            Some(w) => find_from(family, tree@, name@, 0) == Some(w as int) && w < tree@.len(),
            None => find_from(family, tree@, name@, 0) is None,
        },
{
    let n = tree.len();
    let mut j: usize = 0;
    while j < n
        invariant
            tree.wf(),
            n == tree@.len(),
            0 <= j <= n,
            find_from(family, tree@, name@, 0) == find_from(family, tree@, name@, j as int),
        decreases n - j,
    {
        if is_named_function(family, tree, j, name) {
            return Some(j);
        }
        j = j + 1;
    }
    None
}

/// The edits of all outermost function-like constructs.
pub fn collect_all_functions(family: Family, tree: &SyntaxTree) -> (r: Vec<Mutation>)
    requires
        tree.wf(),
    ensures
        r.deep_view() == functions_from(family, tree@, 0),
{
    let n = tree.len();
    let mut out: Vec<Mutation> = Vec::new();
    let mut j: usize = 0;
    assert(out.deep_view() =~= Seq::<MutationView>::empty());
    while j < n
        invariant
            tree.wf(),
            n == tree@.len(),
            0 <= j <= n,
            out.deep_view() + functions_from(family, tree@, j as int) == functions_from(family, 
                tree@,
                0,
            ),
        decreases n - j,
    {
        let ghost so_far = out.deep_view();
        match function_root_of(family, tree, j) {
            Some(w) => {
                let found = walk_node(family, tree, w);
                extend(&mut out, found);
                let next = tree.subtree_end(j);
                proof {
                    assert((so_far + walk(family, tree@, w as int)) + functions_from(family, 
                        tree@,
                        next as int,
                    ) =~= so_far + (walk(family, tree@, w as int) + functions_from(family, 
                        tree@,
                        next as int,
                    )));
                }
                j = next;
            },
            None => {
                j = j + 1;
            },
        }
    }
    assert(out.deep_view() + functions_from(family, tree@, j as int) =~= out.deep_view());
    out
}

/// Discovery in a parsed tree: the edits of the first construct called
/// `function_name`, or of all outermost function-like constructs where no name is
/// given. A name that no construct has gives no edits.
pub fn discover_in_tree(family: Family, tree: &SyntaxTree, function_name: Option<&str>) -> (r: Vec<
    Mutation,
>)
    requires
        tree.wf(),
    ensures
        r.deep_view() == discovered(family, tree@, name_view(function_name)),
        all_fit(r.deep_view(), tree@.source),
        all_apply(r.deep_view(), tree@.source),
{
    proof {
        tree.lemma_wf_fits();
        lemma_discovered_fit(family, tree@, name_view(function_name));
    }
    match function_name {
        Some(name) => match find_function(family, tree, name) {
            Some(w) => walk_node(family, tree, w),
            None => {
                let r: Vec<Mutation> = Vec::new();
                assert(r.deep_view() =~= Seq::<MutationView>::empty());
                r
            },
        },
        None => collect_all_functions(family, tree),
    }
}

/// The edits that discovery finds in a source: those that it finds in the tree of the
/// source, and none where the source has no tree.
pub open spec fn discovered_in_source(grammar: Grammar, source: Seq<char>, name: Option<Seq<char>>)
    -> Seq<MutationView> {
    match parsed_tree(grammar, source) {
        Some(t) => discovered(spec_family_of(grammar), t, name),
        None => seq![],
    }
}

/// Discovery in a source text: the source is parsed with `grammar`, and the edits are
/// those that [`discover_in_tree`] finds in its tree.
pub fn discover_in_source(grammar: Grammar, source: &str, function_name: Option<&str>) -> (r: Vec<
    Mutation,
>)
    ensures
        r.deep_view() == discovered_in_source(grammar, source@, name_view(function_name)),
        all_fit(r.deep_view(), source@),
        all_apply(r.deep_view(), source@),
{
    match parse_source(grammar, source) {
        Some(tree) => discover_in_tree(family_of(grammar), &tree, function_name),
        None => {
            let r: Vec<Mutation> = Vec::new();
            assert(r.deep_view() =~= Seq::<MutationView>::empty());
            r
        },
    }
}

/// The names of the function-like constructs of a source: those of its tree, and none
/// where the source has no tree.
pub open spec fn listed_in_source(grammar: Grammar, source: Seq<char>) -> Seq<Seq<char>> {
    match parsed_tree(grammar, source) {
        Some(t) => listed(spec_family_of(grammar), t),
        None => seq![],
    }
}

/// The names of the function-like constructs of a source text, in document order.
pub fn list_in_source(grammar: Grammar, source: &str) -> (r: Vec<String>)
    ensures
        r.deep_view() == listed_in_source(grammar, source@),
{
    match parse_source(grammar, source) {
        Some(tree) => list_in_tree(family_of(grammar), &tree),
        None => {
            let r: Vec<String> = Vec::new();
            assert(r.deep_view() =~= Seq::<Seq<char>>::empty());
            r
        },
    }
}

/// The mathematical value of an optional name.
pub open spec fn name_view(name: Option<&str>) -> Option<Seq<char>> {
    match name {
        Some(n) => Some(n@),
        None => None,
    }
}

/// The names of the function-like constructs of a tree, in document order.
pub fn list_in_tree(family: Family, tree: &SyntaxTree) -> (r: Vec<String>)
    requires
        tree.wf(),
    ensures
        r.deep_view() == listed(family, tree@),
{
    let n = tree.len();
    let mut out: Vec<String> = Vec::new();
    let mut j: usize = 0;
    assert(out.deep_view() =~= Seq::<Seq<char>>::empty());
    while j < n
        invariant
            tree.wf(),
            n == tree@.len(),
            0 <= j <= n,
            out.deep_view() + names_from(family, tree@, j as int) == listed(family, tree@),
        decreases n - j,
    {
        let ghost so_far = out.deep_view();
        let mut names = names_of(family, tree, j);
        let ghost added = names.deep_view();
        out.append(&mut names);
        proof {
            assert(out.deep_view() =~= so_far + added);
            assert((so_far + added) + names_from(family, tree@, j + 1) =~= so_far + (added
                + names_from(family, tree@, j + 1)));
        }
        j = j + 1;
    }
    assert(out.deep_view() + names_from(family, tree@, j as int) =~= out.deep_view());
    out
}

} // verus!
