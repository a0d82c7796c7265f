//! Discovery in Rust sources, with the catalog of Rust's operators.

use vstd::prelude::*;
use crate::discover::{
    all_fit, all_from, catalog_edits, children_edits, collect_children, discover_in_source,
    discovered_in_source, list_in_source, listed_in_source, name_view, no_edits, one_edit,
    push_catalog_edits, Family,
};
use crate::grammar::Grammar;
use crate::laws::{
    lemma_all_from_widen, lemma_catalog_edits_from, lemma_children_edits_from, lemma_edit_from,
};
use crate::mutants::{Mutation, MutationView};
use crate::operators::{boundary_and_negation, entry, no_ops, one_op, CatalogEntry, MutationOp};
use crate::runner::all_apply;
use crate::text::{bytes_of, has_prefix, starts_with, str_eq, trim, trimmed};
use crate::tree::{SyntaxTree, TreeView};

verus! {

/// The entries of a relational or equality operator.
pub open spec fn spec_comparison_mutations(op: Seq<char>) -> Seq<CatalogEntry> {
    if op == ">"@ {
        seq![entry("boundary"@, ">="@), entry("negate_cmp"@, "<="@)]
    } else if op == ">="@ {
        seq![entry("boundary"@, ">"@), entry("negate_cmp"@, "<"@)]
    } else if op == "<"@ {
        seq![entry("boundary"@, "<="@), entry("negate_cmp"@, ">="@)]
    } else if op == "<="@ {
        seq![entry("boundary"@, "<"@), entry("negate_cmp"@, ">"@)]
    } else if op == "=="@ {
        seq![entry("negate_eq"@, "!="@)]
    } else if op == "!="@ {
        seq![entry("negate_eq"@, "=="@)]
    } else {
        seq![]
    }
}

/// The replacements of a comparison operator: for a relational operator the
/// neighbouring inclusive or exclusive one and the inverted one, for an equality
/// operator its negation, for any other text none.
pub fn comparison_mutations(op: &str) -> (r: Vec<MutationOp>)
    ensures
        r.deep_view() == spec_comparison_mutations(op@),
{
    if str_eq(op, ">") {
        boundary_and_negation(">=", "<=")
    } else if str_eq(op, ">=") {
        boundary_and_negation(">", "<")
    } else if str_eq(op, "<") {
        boundary_and_negation("<=", ">=")
    } else if str_eq(op, "<=") {
        boundary_and_negation("<", ">")
    } else if str_eq(op, "==") {
        one_op("negate_eq", "!=")
    } else if str_eq(op, "!=") {
        one_op("negate_eq", "==")
    } else {
        no_ops()
    }
}

/// The entries of a logical connective.
pub open spec fn spec_logical_mutations(op: Seq<char>) -> Seq<CatalogEntry> {
    if op == "&&"@ {
        seq![entry("logic_flip"@, "||"@)]
    } else if op == "||"@ {
        seq![entry("logic_flip"@, "&&"@)]
    } else {
        seq![]
    }
}

/// The swap of `&&` and `||`; nothing for any other text.
pub fn logical_mutations(op: &str) -> (r: Vec<MutationOp>)
    ensures
        r.deep_view() == spec_logical_mutations(op@),
{
    if str_eq(op, "&&") {
        one_op("logic_flip", "||")
    } else if str_eq(op, "||") {
        one_op("logic_flip", "&&")
    } else {
        no_ops()
    }
}

/// The entries of an arithmetic operator.
pub open spec fn spec_arithmetic_mutations(op: Seq<char>) -> Seq<CatalogEntry> {
    if op == "+"@ {
        seq![entry("arith"@, "-"@)]
    } else if op == "-"@ {
        seq![entry("arith"@, "+"@)]
    } else if op == "*"@ {
        seq![entry("arith"@, "/"@)]
    } else if op == "/"@ {
        seq![entry("arith"@, "*"@)]
    } else if op == "%"@ {
        seq![entry("arith"@, "/"@)]
    } else {
        seq![]
    }
}

/// The one neighbour of an arithmetic operator; nothing for any other text.
pub fn arithmetic_mutations(op: &str) -> (r: Vec<MutationOp>)
    ensures
        r.deep_view() == spec_arithmetic_mutations(op@),
{
    if str_eq(op, "+") {
        one_op("arith", "-")
    } else if str_eq(op, "-") {
        one_op("arith", "+")
    } else if str_eq(op, "*") {
        one_op("arith", "/")
    } else if str_eq(op, "/") {
        one_op("arith", "*")
    } else if str_eq(op, "%") {
        one_op("arith", "/")
    } else {
        no_ops()
    }
}

/// The entries of the operator token of kind `kind` with text `text`.
pub open spec fn spec_binary_mutations(kind: Seq<char>, text: Seq<char>) -> Seq<CatalogEntry> {
    if kind == ">"@ || kind == ">="@ || kind == "<"@ || kind == "<="@ || kind == "=="@ || kind
        == "!="@ {
        spec_comparison_mutations(text)
    } else if kind == "&&"@ || kind == "||"@ {
        spec_logical_mutations(text)
    } else if kind == "+"@ || kind == "-"@ || kind == "*"@ || kind == "/"@ || kind == "%"@ {
        spec_arithmetic_mutations(text)
    } else {
        seq![]
    }
}

/// The statement that takes the place of `return` followed by the expression `text`,
/// which is given without surrounding white space; `None` where the expression carries
/// no value that could be inverted.
pub open spec fn return_replacement(text: Seq<char>) -> Option<Seq<char>> {
    let bytes = bytes_of(text);
    if text == "true"@ {
        Some("return false"@)
    } else if text == "false"@ {
        Some("return true"@)
    } else if text == "None"@ || text == "()"@ {
        None
    } else if text == "0"@ {
        Some("return 1"@)
    } else if has_prefix(bytes, bytes_of("\""@)) {
        Some("return \"\".to_string()"@)
    } else if has_prefix(bytes, bytes_of("vec!"@)) || has_prefix(bytes, bytes_of("Vec::"@)) {
        Some("return vec![]"@)
    } else if text == "Ok(())"@ {
        None
    } else {
        Some("return Default::default()"@)
    }
}

/// The statement that takes the place of a return of the expression `text`, which is
/// given without surrounding white space.
pub fn return_replacement_of(text: &str) -> (r: Option<&'static str>)
    ensures
        match r {
            Some(s) => return_replacement(text@) == Some(s@),
            None => return_replacement(text@) is None,
        },
{
    if str_eq(text, "true") {
        Some("return false")
    } else if str_eq(text, "false") {
        Some("return true")
    } else if str_eq(text, "None") || str_eq(text, "()") {
        None
    } else if str_eq(text, "0") {
        Some("return 1")
    } else if starts_with(text, "\"") {
        Some("return \"\".to_string()")
    } else if starts_with(text, "vec!") || starts_with(text, "Vec::") {
        Some("return vec![]")
    } else if str_eq(text, "Ok(())") {
        None
    } else {
        Some("return Default::default()")
    }
}

/// The name of a macro whose invocations print, log or format.
pub open spec fn is_output_macro(text: Seq<char>) -> bool {
    let bytes = bytes_of(text);
    ||| has_prefix(bytes, bytes_of("println"@))
    ||| has_prefix(bytes, bytes_of("eprintln"@))
    ||| has_prefix(bytes, bytes_of("print"@))
    ||| has_prefix(bytes, bytes_of("log"@))
    ||| has_prefix(bytes, bytes_of("debug"@))
    ||| has_prefix(bytes, bytes_of("info"@))
    ||| has_prefix(bytes, bytes_of("warn"@))
    ||| has_prefix(bytes, bytes_of("error"@))
    ||| has_prefix(bytes, bytes_of("trace"@))
    ||| text == "format"@
}

/// Invocations of macros that print, log or format are left out.
pub open spec fn skips(t: TreeView, i: int) -> bool {
    t.nodes[i].kind == "macro_invocation"@ && match t.child(i, 0) {
        Some(name) => is_output_macro(t.text(name)),
        None => false,
    }
}

/// The removal of the block `c`, unless it is empty.
pub open spec fn block_edits(t: TreeView, c: int) -> Seq<MutationView> {
    if t.nodes[c].kind == "block"@ && trimmed(t.text(c)) != "{}"@ {
        seq![t.edit(c, c, "block_remove"@, "{}"@)]
    } else {
        seq![]
    }
}

/// The edits of a token `c` of a binary expression, and of the block `c` of an `else`.
pub open spec fn child_edits(t: TreeView, parent: int, c: int) -> Seq<MutationView> {
    if t.nodes[parent].kind == "binary_expression"@ {
        catalog_edits(t, c, c, spec_binary_mutations(t.nodes[c].kind, t.text(c)))
    } else if t.nodes[parent].kind == "else_clause"@ {
        block_edits(t, c)
    } else {
        seq![]
    }
}

/// The removal of a negation: the whole expression becomes its operand.
pub open spec fn unary_edits(t: TreeView, i: int) -> Seq<MutationView> {
    match (t.child(i, 0), t.child(i, 1)) {
        (Some(operator), Some(operand)) => if t.nodes[operator].kind == "!"@ {
            seq![t.edit(operator, i, "negate_remove"@, t.text(operand))]
        } else {
            seq![]
        },
        _ => seq![],
    }
}

/// The replacement of a return expression, by the shape of the returned expression.
pub open spec fn return_edits(t: TreeView, i: int) -> Seq<MutationView> {
    if t.children(i).len() < 2 {
        seq![]
    } else {
        match return_replacement(trimmed(t.text(t.children(i)[1]))) {
            Some(replacement) => seq![t.edit(i, i, "return_val"@, replacement)],
            None => seq![],
        }
    }
}

/// The flip of a boolean literal, unless it is the expression of a return.
pub open spec fn literal_edits(t: TreeView, i: int) -> Seq<MutationView> {
    if t.parent(i) is Some && t.nodes[t.parent(i)->0].kind == "return_expression"@ {
        seq![]
    } else if t.text(i) == "true"@ {
        seq![t.edit(i, i, "bool_flip"@, "false"@)]
    } else if t.text(i) == "false"@ {
        seq![t.edit(i, i, "bool_flip"@, "true"@)]
    } else {
        seq![]
    }
}

/// The removal of the body of an `if`.
pub open spec fn if_edits(t: TreeView, i: int) -> Seq<MutationView> {
    match t.child_by_field(i, "consequence"@) {
        Some(c) => block_edits(t, c),
        None => seq![],
    }
}

/// The edits of node `i`.
pub open spec fn emits(t: TreeView, i: int) -> Seq<MutationView> {
    let kind = t.nodes[i].kind;
    if kind == "binary_expression"@ || kind == "else_clause"@ {
        children_edits(Family::Rust, t, i)
    } else if kind == "unary_expression"@ {
        unary_edits(t, i)
    } else if kind == "return_expression"@ {
        return_edits(t, i)
    } else if kind == "boolean_literal"@ {
        literal_edits(t, i)
    } else if kind == "if_expression"@ {
        if_edits(t, i)
    } else {
        seq![]
    }
}

/// The node that names the function item `i`.
pub open spec fn item_name(t: TreeView, i: int) -> Option<int> {
    if t.nodes[i].kind == "function_item"@ {
        t.child_by_field(i, "name"@)
    } else {
        None
    }
}

/// Node `i` is a function item called `name`.
pub open spec fn names_function(t: TreeView, i: int, name: Seq<char>) -> bool {
    match item_name(t, i) {
        Some(n) => t.text(n) == name,
        None => false,
    }
}

/// A function item is traversed as a whole.
pub open spec fn function_root(t: TreeView, i: int) -> Option<int> {
    if t.nodes[i].kind == "function_item"@ {
        Some(i)
    } else {
        None
    }
}

/// The name of the function item `i`.
pub open spec fn listed_names(t: TreeView, i: int) -> Seq<Seq<char>> {
    match item_name(t, i) {
        Some(n) => seq![t.text(n)],
        None => seq![],
    }
}

fn is_output_macro_name(text: &str) -> (r: bool)
    ensures
        r == is_output_macro(text@),
{
    starts_with(text, "println") || starts_with(text, "eprintln") || starts_with(text, "print")
        || starts_with(text, "log") || starts_with(text, "debug") || starts_with(text, "info")
        || starts_with(text, "warn") || starts_with(text, "error") || starts_with(text, "trace")
        || str_eq(text, "format")
}

/// Whether node `i` is left out, with everything below it.
pub fn should_skip_node(tree: &SyntaxTree, i: usize) -> (r: bool)
    requires
        tree.wf(),
        i < tree@.len(),
    ensures
        r == skips(tree@, i as int),
{
    if tree.kind_is(i, "macro_invocation") {
        match tree.child(i, 0) {
            Some(name) => is_output_macro_name(tree.text(name)),
            None => false,
        }
    } else {
        false
    }
}

fn binary_mutations(tree: &SyntaxTree, c: usize) -> (r: Vec<MutationOp>)
    requires
        tree.wf(),
        c < tree@.len(),
    ensures
        r.deep_view() == spec_binary_mutations(tree@.nodes[c as int].kind, tree@.text(c as int)),
{
    if tree.kind_is(c, ">") || tree.kind_is(c, ">=") || tree.kind_is(c, "<") || tree.kind_is(
        c,
        "<=",
    ) || tree.kind_is(c, "==") || tree.kind_is(c, "!=") {
        comparison_mutations(tree.text(c))
    } else if tree.kind_is(c, "&&") || tree.kind_is(c, "||") {
        logical_mutations(tree.text(c))
    } else if tree.kind_is(c, "+") || tree.kind_is(c, "-") || tree.kind_is(c, "*") || tree.kind_is(
        c,
        "/",
    ) || tree.kind_is(c, "%") {
        arithmetic_mutations(tree.text(c))
    } else {
        no_ops()
    }
}

fn push_block_edits(tree: &SyntaxTree, c: usize, out: &mut Vec<Mutation>)
    requires
        tree.wf(),
        c < tree@.len(),
    ensures
        final(out).deep_view() == old(out).deep_view() + block_edits(tree@, c as int),
{
    let ghost before = out.deep_view();
    if tree.kind_is(c, "block") && !str_eq(trim(tree.text(c)), "{}") {
        let m = tree.edit(c, c, "block_remove", "{}".to_owned());
        out.push(m);
        assert(out.deep_view() =~= before + seq![m@]);
    } else {
        assert(out.deep_view() =~= before + Seq::<MutationView>::empty());
    }
}

/// Appends the edits of a token `c` of a binary expression, or of the block `c` of an
/// `else`.
pub fn push_child_edits(tree: &SyntaxTree, parent: usize, c: usize, out: &mut Vec<Mutation>)
    requires
        tree.wf(),
        parent < tree@.len(),
        c < tree@.len(),
    ensures
        final(out).deep_view() == old(out).deep_view() + child_edits(
            tree@,
            parent as int,
            c as int,
        ),
{
    let ghost before = out.deep_view();
    if tree.kind_is(parent, "binary_expression") {
        let ops = binary_mutations(tree, c);
        push_catalog_edits(tree, out, c, c, &ops);
    } else if tree.kind_is(parent, "else_clause") {
        push_block_edits(tree, c, out);
    } else {
        assert(out.deep_view() =~= before + Seq::<MutationView>::empty());
    }
}

fn collect_unary_mutations(tree: &SyntaxTree, i: usize) -> (r: Vec<Mutation>)
    requires
        tree.wf(),
        i < tree@.len(),
    ensures
        r.deep_view() == unary_edits(tree@, i as int),
{
    match (tree.child(i, 0), tree.child(i, 1)) {
        (Some(operator), Some(operand)) => {
            if tree.kind_is(operator, "!") {
                one_edit(tree.edit(operator, i, "negate_remove", tree.text(operand).to_owned()))
            } else {
                no_edits()
            }
        },
        _ => no_edits(),
    }
}

fn collect_return_mutations(tree: &SyntaxTree, i: usize) -> (r: Vec<Mutation>)
    requires
        tree.wf(),
        i < tree@.len(),
    ensures
        r.deep_view() == return_edits(tree@, i as int),
{
    let kids = tree.children(i);
    if kids.len() < 2 {
        no_edits()
    } else {
        match return_replacement_of(trim(tree.text(kids[1]))) {
            Some(replacement) => one_edit(tree.edit(i, i, "return_val", replacement.to_owned())),
            None => no_edits(),
        }
    }
}

fn collect_boolean_mutations(tree: &SyntaxTree, i: usize) -> (r: Vec<Mutation>)
    requires
        tree.wf(),
        i < tree@.len(),
    ensures
        r.deep_view() == literal_edits(tree@, i as int),
{
    let inside_return = match tree.parent(i) {
        Some(p) => tree.kind_is(p, "return_expression"),
        None => false,
    };
    if inside_return {
        no_edits()
    } else if str_eq(tree.text(i), "true") {
        one_edit(tree.edit(i, i, "bool_flip", "false".to_owned()))
    } else if str_eq(tree.text(i), "false") {
        one_edit(tree.edit(i, i, "bool_flip", "true".to_owned()))
    } else {
        no_edits()
    }
}

fn collect_if_body_mutations(tree: &SyntaxTree, i: usize) -> (r: Vec<Mutation>)
    requires
        tree.wf(),
        i < tree@.len(),
    ensures
        r.deep_view() == if_edits(tree@, i as int),
{
    let mut out: Vec<Mutation> = Vec::new();
    assert(out.deep_view() =~= Seq::<MutationView>::empty());
    match tree.child_by_field(i, "consequence") {
        Some(c) => {
            push_block_edits(tree, c, &mut out);
            assert(out.deep_view() =~= block_edits(tree@, c as int));
        },
        None => {},
    }
    out
}

/// The edits of node `i`.
pub fn collect(tree: &SyntaxTree, i: usize) -> (r: Vec<Mutation>)
    requires
        tree.wf(),
        i < tree@.len(),
    ensures
        r.deep_view() == emits(tree@, i as int),
{
    if tree.kind_is(i, "binary_expression") || tree.kind_is(i, "else_clause") {
        collect_children(Family::Rust, tree, i)
    } else if tree.kind_is(i, "unary_expression") {
        collect_unary_mutations(tree, i)
    } else if tree.kind_is(i, "return_expression") {
        collect_return_mutations(tree, i)
    } else if tree.kind_is(i, "boolean_literal") {
        collect_boolean_mutations(tree, i)
    } else if tree.kind_is(i, "if_expression") {
        collect_if_body_mutations(tree, i)
    } else {
        no_edits()
    }
}

fn item_name_of(tree: &SyntaxTree, i: usize) -> (r: Option<usize>)
    requires
        tree.wf(),
        i < tree@.len(),
    ensures
        match r {
            Some(n) => item_name(tree@, i as int) == Some(n as int) && n < tree@.len(),
            None => item_name(tree@, i as int) is None,
        },
{
    if tree.kind_is(i, "function_item") {
        tree.child_by_field(i, "name")
    } else {
        None
    }
}

/// Whether node `i` is a function item called `name`.
pub fn is_named_function(tree: &SyntaxTree, i: usize, name: &str) -> (r: bool)
    requires
        tree.wf(),
        i < tree@.len(),
    ensures
        r == names_function(tree@, i as int, name@),
{
    match item_name_of(tree, i) {
        Some(n) => str_eq(tree.text(n), name),
        None => false,
    }
}

/// Node `i` itself, where it is a function item.
pub fn function_root_of(tree: &SyntaxTree, i: usize) -> (r: Option<usize>)
    requires
        tree.wf(),
        i < tree@.len(),
    ensures
        match r {
            Some(w) => function_root(tree@, i as int) == Some(w as int) && w < tree@.len(),
            None => function_root(tree@, i as int) is None,
        },
{
    if tree.kind_is(i, "function_item") {
        Some(i)
    } else {
        None
    }
}

/// The name of the function item `i`.
pub fn names_of(tree: &SyntaxTree, i: usize) -> (r: Vec<String>)
    requires
        tree.wf(),
        i < tree@.len(),
    ensures
        r.deep_view() == listed_names(tree@, i as int),
{
    let mut out: Vec<String> = Vec::new();
    match item_name_of(tree, i) {
        Some(n) => {
            let name = tree.text(n);
            out.push(name.to_owned());
            assert(out.deep_view() =~= seq![name@]);
        },
        None => {
            assert(out.deep_view() =~= Seq::<Seq<char>>::empty());
        },
    }
    out
}

/// The removal of a block replaces the text of the block.
pub proof fn lemma_block_edits_from(t: TreeView, c: int, lo: int, hi: int)
    requires
        0 <= c < t.len(),
        lo <= c < hi,
    ensures
        all_from(block_edits(t, c), t, lo, hi),
{
    lemma_edit_from(t, c, c, "block_remove"@, "{}"@, lo, hi);
}

/// The edits that a child adds replace the text of the child.
pub proof fn lemma_child_edits_from(t: TreeView, parent: int, c: int)
    requires
        0 <= c < t.len(),
    ensures
        all_from(child_edits(t, parent, c), t, c, c + 1),
{
    lemma_catalog_edits_from(
        t,
        c,
        c,
        spec_binary_mutations(t.nodes[c].kind, t.text(c)),
        c,
        c + 1,
    );
    lemma_block_edits_from(t, c, c, c + 1);
}

/// The edits of a node replace texts of nodes of its subtree.
pub proof fn lemma_emits_from(t: TreeView, i: int)
    requires
        0 <= i < t.len(),
    ensures
        all_from(emits(t, i), t, i, t.subtree_end(i)),
{
    t.lemma_children(i);
    t.lemma_subtree_end(i);
    let kind = t.nodes[i].kind;
    let end = t.subtree_end(i);
    if kind == "binary_expression"@ || kind == "else_clause"@ {
        lemma_children_edits_from(Family::Rust, t, i);
        lemma_all_from_widen(children_edits(Family::Rust, t, i), t, i + 1, end, i, end);
    } else if kind == "unary_expression"@ {
        match (t.child(i, 0), t.child(i, 1)) {
            (Some(operator), Some(operand)) => {
                lemma_edit_from(t, operator, i, "negate_remove"@, t.text(operand), i, end);
            },
            _ => {},
        }
    } else if kind == "return_expression"@ {
        if t.children(i).len() >= 2 {
            match return_replacement(trimmed(t.text(t.children(i)[1]))) {
                Some(replacement) => {
                    lemma_edit_from(t, i, i, "return_val"@, replacement, i, end);
                },
                None => {},
            }
        }
    } else if kind == "boolean_literal"@ {
        lemma_edit_from(t, i, i, "bool_flip"@, "false"@, i, end);
        lemma_edit_from(t, i, i, "bool_flip"@, "true"@, i, end);
    } else if kind == "if_expression"@ {
        match t.child_by_field(i, "consequence"@) {
            Some(c) => {
                t.lemma_first_with_field(t.children(i), "consequence"@);
                lemma_block_edits_from(t, c, i, end);
            },
            None => {},
        }
    }
}

/// A name that a node adds to the list of functions is a name of that node.
pub proof fn lemma_listed_is_named(t: TreeView, i: int)
    ensures
        forall|k: int|
            0 <= k < listed_names(t, i).len() ==> names_function(
                t,
                i,
                #[trigger] listed_names(t, i)[k],
            ),
{
}

/// The edits that discovery finds in a Rust source: those of the first function called
/// `function_name`, or of all outermost functions where no name is given. Each names a
/// range of `source` that holds its original text.
pub fn discover_mutations(source: &str, function_name: Option<&str>) -> (r: Vec<Mutation>)
    ensures
        r.deep_view() == discovered_in_source(Grammar::Rust, source@, name_view(function_name)),
        all_fit(r.deep_view(), source@),
        all_apply(r.deep_view(), source@),
{
    discover_in_source(Grammar::Rust, source, function_name)
}

/// The names of the functions of a Rust source, in document order.
pub fn list_functions(source: &str) -> (r: Vec<String>)
    ensures
        r.deep_view() == listed_in_source(Grammar::Rust, source@),
{
    list_in_source(Grammar::Rust, source)
}

} // verus!
