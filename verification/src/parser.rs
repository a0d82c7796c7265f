//! Discovery in Python sources.

use vstd::prelude::*;
use vstd::string::*;
use crate::discover::{
    all_fit, all_from, catalog_edits, children_edits, collect_children, discover_in_source,
    discovered_in_source, list_in_source, listed_in_source, name_view, no_edits, one_edit,
    push_catalog_edits, Family,
};
use crate::grammar::Grammar;
use crate::laws::{
    lemma_all_from_widen, lemma_catalog_edits_from, lemma_children_edits_from, lemma_edit_from,
};
use crate::mutants::{Mutation, MutationView};
use crate::operators::{
    arithmetic_mutations, boolean_mutations, comparison_mutations, entry, logical_mutations,
    return_mutations, return_replacement, spec_arithmetic_mutations, spec_boolean_mutations,
    spec_comparison_mutations, spec_logical_mutations,
};
use crate::runner::all_apply;
use crate::text::{bytes_of, has_prefix, starts_with, str_eq, trim, trimmed};
use crate::tree::{SyntaxTree, TreeView};

verus! {

/// The text of a callee whose calls print or log.
pub open spec fn is_output_callee(text: Seq<char>) -> bool {
    ||| text == "print"@
    ||| text == "logging.info"@
    ||| text == "logging.debug"@
    ||| text == "logging.warning"@
    ||| text == "logging.error"@
    ||| has_prefix(bytes_of(text), bytes_of("log."@))
}

/// Calls that print or log are left out, and statements that consist of a string.
pub open spec fn skips(t: TreeView, i: int) -> bool {
    ||| t.nodes[i].kind == "call"@ && match t.child(i, 0) {
        Some(callee) => is_output_callee(t.text(callee)),
        None => false,
    }
    ||| t.nodes[i].kind == "expression_statement"@ && t.children(i).len() == 1
        && t.nodes[t.children(i)[0]].kind == "string"@
}

/// The kind of a comparison token.
pub open spec fn is_comparison_token(kind: Seq<char>) -> bool {
    ||| kind == "<"@
    ||| kind == ">"@
    ||| kind == "<="@
    ||| kind == ">="@
    ||| kind == "=="@
    ||| kind == "!="@
    ||| kind == "is"@
    ||| kind == "in"@
    ||| kind == "is not"@
    ||| kind == "not in"@
}

/// The kind of an arithmetic token.
pub open spec fn is_arithmetic_token(kind: Seq<char>) -> bool {
    ||| kind == "+"@
    ||| kind == "-"@
    ||| kind == "*"@
    ||| kind == "/"@
    ||| kind == "//"@
    ||| kind == "%"@
    ||| kind == "**"@
}

/// The left operand of node `i` is a string: its `+` joins texts.
pub open spec fn joins_strings(t: TreeView, i: int) -> bool {
    match t.child(i, 0) {
        Some(left) => t.nodes[left].kind == "string"@ || t.nodes[left].kind
            == "concatenated_string"@,
        None => false,
    }
}

/// The kind of a node whose blocks can be conditional bodies.
pub open spec fn holds_conditional_body(kind: Seq<char>) -> bool {
    kind == "if_statement"@ || kind == "elif_clause"@ || kind == "else_clause"@
}

/// The blocks of node `i` are bodies of a conditional: node `i` is an `if` statement, or
/// an `elif` or `else` clause of one.
pub open spec fn is_conditional(t: TreeView, i: int) -> bool {
    ||| t.nodes[i].kind == "if_statement"@
    ||| (t.nodes[i].kind == "elif_clause"@ || t.nodes[i].kind == "else_clause"@) && t.parent(
        i,
    ) is Some && t.nodes[t.parent(i)->0].kind == "if_statement"@
}

/// The text that stands for an empty block at the given column.
pub open spec fn pass_block(column: int) -> Seq<char> {
    "\n"@ + Seq::new(column as nat, |k: int| ' ') + "pass"@
}

/// The edits of a token `c` of an operator node, and of a block `c` of a conditional.
pub open spec fn child_edits(t: TreeView, parent: int, c: int) -> Seq<MutationView> {
    let kind = t.nodes[c].kind;
    let of = t.nodes[parent].kind;
    if of == "comparison_operator"@ && is_comparison_token(kind) {
        catalog_edits(t, c, c, spec_comparison_mutations(t.text(c)))
    } else if of == "boolean_operator"@ && (kind == "and"@ || kind == "or"@) {
        catalog_edits(t, c, c, spec_logical_mutations(t.text(c)))
    } else if of == "binary_operator"@ && is_arithmetic_token(kind) && !(kind == "+"@
        && joins_strings(t, parent)) {
        catalog_edits(t, c, c, spec_arithmetic_mutations(t.text(c)))
    } else if is_conditional(t, parent) && kind == "block"@ && trimmed(t.text(c)) != "pass"@ {
        seq![t.edit(c, c, "block_remove"@, pass_block(t.nodes[c].column))]
    } else {
        seq![]
    }
}

/// The removal of a negation: the whole expression becomes its operand.
pub open spec fn not_edits(t: TreeView, i: int) -> Seq<MutationView> {
    match (t.child(i, 0), t.child(i, 1)) {
        (Some(keyword), Some(operand)) => if t.nodes[keyword].kind == "not"@ {
            seq![t.edit(keyword, i, "negate_remove"@, t.text(operand))]
        } else {
            seq![]
        },
        _ => seq![],
    }
}

/// The replacement of a return statement: by the shape of its expression, or a return
/// of `None` where it has no expression.
pub open spec fn return_edits(t: TreeView, i: int) -> Seq<MutationView> {
    if t.children(i).len() < 2 {
        seq![t.edit(i, i, "return_val"@, "return None"@)]
    } else {
        catalog_edits(
            t,
            i,
            i,
            seq![entry("return_val"@, return_replacement(trimmed(t.text(t.children(i)[1]))))],
        )
    }
}

/// The flip of a boolean literal, unless it is the expression of a return statement.
pub open spec fn literal_edits(t: TreeView, i: int) -> Seq<MutationView> {
    if t.parent(i) is Some && t.nodes[t.parent(i)->0].kind == "return_statement"@ {
        seq![]
    } else {
        catalog_edits(t, i, i, spec_boolean_mutations(t.text(i)))
    }
}

/// The kind of a node whose edits are those of its children.
pub open spec fn is_parent_of_edits(kind: Seq<char>) -> bool {
    ||| kind == "comparison_operator"@
    ||| kind == "boolean_operator"@
    ||| kind == "binary_operator"@
    ||| holds_conditional_body(kind)
}

/// The edits of node `i`.
pub open spec fn emits(t: TreeView, i: int) -> Seq<MutationView> {
    let kind = t.nodes[i].kind;
    if is_parent_of_edits(kind) {
        children_edits(Family::Python, t, i)
    } else if kind == "not_operator"@ {
        not_edits(t, i)
    } else if kind == "return_statement"@ {
        return_edits(t, i)
    } else if kind == "true"@ || kind == "false"@ {
        literal_edits(t, i)
    } else {
        seq![]
    }
}

/// The node that names the function definition `i`.
pub open spec fn definition_name(t: TreeView, i: int) -> Option<int> {
    if t.nodes[i].kind == "function_definition"@ {
        t.child_by_field(i, "name"@)
    } else {
        None
    }
}

/// Node `i` is the definition of a function called `name`.
pub open spec fn names_function(t: TreeView, i: int, name: Seq<char>) -> bool {
    match definition_name(t, i) {
        Some(n) => t.text(n) == name,
        None => false,
    }
}

/// A function definition is traversed as a whole.
pub open spec fn function_root(t: TreeView, i: int) -> Option<int> {
    if t.nodes[i].kind == "function_definition"@ {
        Some(i)
    } else {
        None
    }
}

/// A name that scoping can ask for: neither a dunder name nor a test.
pub open spec fn is_listed_name(name: Seq<char>) -> bool {
    !has_prefix(bytes_of(name), bytes_of("__"@)) && !has_prefix(bytes_of(name), bytes_of("test_"@))
}

/// The name of the function definition `i`, if it can be asked for.
pub open spec fn listed_names(t: TreeView, i: int) -> Seq<Seq<char>> {
    match definition_name(t, i) {
        Some(n) => if is_listed_name(t.text(n)) {
            seq![t.text(n)]
        } else {
            seq![]
        },
        None => seq![],
    }
}

fn is_output_call(text: &str) -> (r: bool)
    ensures
        r == is_output_callee(text@),
{
    str_eq(text, "print") || str_eq(text, "logging.info") || str_eq(text, "logging.debug")
        || str_eq(text, "logging.warning") || str_eq(text, "logging.error") || starts_with(
        text,
        "log.",
    )
}

/// Whether node `i` is left out, with everything below it.
pub fn should_skip_node(tree: &SyntaxTree, i: usize) -> (r: bool)
    requires
        tree.wf(),
        i < tree@.len(),
    ensures
        r == skips(tree@, i as int),
{
    if tree.kind_is(i, "call") {
        match tree.child(i, 0) {
            Some(callee) => {
                if is_output_call(tree.text(callee)) {
                    return true;
                }
            },
            None => {},
        }
    }
    if tree.kind_is(i, "expression_statement") {
        let kids = tree.children(i);
        if kids.len() == 1 && tree.kind_is(kids[0], "string") {
            return true;
        }
    }
    false
}

fn kind_is_comparison_token(tree: &SyntaxTree, c: usize) -> (r: bool)
    requires
        c < tree@.len(),
    ensures
        r == is_comparison_token(tree@.nodes[c as int].kind),
{
    tree.kind_is(c, "<") || tree.kind_is(c, ">") || tree.kind_is(c, "<=") || tree.kind_is(c, ">=")
        || tree.kind_is(c, "==") || tree.kind_is(c, "!=") || tree.kind_is(c, "is") || tree.kind_is(
        c,
        "in",
    ) || tree.kind_is(c, "is not") || tree.kind_is(c, "not in")
}

fn kind_is_arithmetic_token(tree: &SyntaxTree, c: usize) -> (r: bool)
    requires
        c < tree@.len(),
    ensures
        r == is_arithmetic_token(tree@.nodes[c as int].kind),
{
    tree.kind_is(c, "+") || tree.kind_is(c, "-") || tree.kind_is(c, "*") || tree.kind_is(c, "/")
        || tree.kind_is(c, "//") || tree.kind_is(c, "%") || tree.kind_is(c, "**")
}

fn left_is_string(tree: &SyntaxTree, i: usize) -> (r: bool)
    requires
        tree.wf(),
        i < tree@.len(),
    ensures
        r == joins_strings(tree@, i as int),
{
    match tree.child(i, 0) {
        Some(left) => tree.kind_is(left, "string") || tree.kind_is(left, "concatenated_string"),
        None => false,
    }
}

fn node_is_conditional(tree: &SyntaxTree, i: usize) -> (r: bool)
    requires
        tree.wf(),
        i < tree@.len(),
    ensures
        r == is_conditional(tree@, i as int),
{
    if tree.kind_is(i, "if_statement") {
        true
    } else if tree.kind_is(i, "elif_clause") || tree.kind_is(i, "else_clause") {
        match tree.parent(i) {
            Some(p) => tree.kind_is(p, "if_statement"),
            None => false,
        }
    } else {
        false
    }
}

fn kind_holds_conditional_body(tree: &SyntaxTree, i: usize) -> (r: bool)
    requires
        i < tree@.len(),
    ensures
        r == holds_conditional_body(tree@.nodes[i as int].kind),
{
    tree.kind_is(i, "if_statement") || tree.kind_is(i, "elif_clause") || tree.kind_is(
        i,
        "else_clause",
    )
}

fn make_pass_block(column: usize) -> (r: String)
    ensures
        r@ == pass_block(column as int),
{
    let mut text = "\n".to_owned();
    let mut k: usize = 0;
    assert(text@ =~= "\n"@ + Seq::new(0, |k: int| ' '));
    while k < column
        invariant
            0 <= k <= column,
            text@ == "\n"@ + Seq::new(k as nat, |k: int| ' '),
        decreases column - k,
    {
        text.append(" ");
        proof {
            reveal_strlit(" ");
            assert(text@ =~= "\n"@ + Seq::new((k + 1) as nat, |k: int| ' '));
        }
        k = k + 1;
    }
    text.append("pass");
    text
}

/// Appends the edits of a token `c` of an operator node, or of a block `c` of a
/// conditional.
pub fn push_child_edits(tree: &SyntaxTree, parent: usize, c: usize, out: &mut Vec<Mutation>)
    requires
        tree.wf(),
        parent < tree@.len(),
        c < tree@.len(),
    ensures
        final(out).deep_view() == old(out).deep_view() + child_edits(
            tree@,
            parent as int,
            c as int,
        ),
{
    let ghost before = out.deep_view();
    if tree.kind_is(parent, "comparison_operator") && kind_is_comparison_token(tree, c) {
        let ops = comparison_mutations(tree.text(c));
        push_catalog_edits(tree, out, c, c, &ops);
    } else if tree.kind_is(parent, "boolean_operator") && (tree.kind_is(c, "and") || tree.kind_is(
        c,
        "or",
    )) {
        let ops = logical_mutations(tree.text(c));
        push_catalog_edits(tree, out, c, c, &ops);
    } else if tree.kind_is(parent, "binary_operator") && kind_is_arithmetic_token(tree, c) && !(
    tree.kind_is(c, "+") && left_is_string(tree, parent)) {
        let ops = arithmetic_mutations(tree.text(c));
        push_catalog_edits(tree, out, c, c, &ops);
    } else if node_is_conditional(tree, parent) && tree.kind_is(c, "block") && !str_eq(
        trim(tree.text(c)),
        "pass",
    ) {
        let m = tree.edit(c, c, "block_remove", make_pass_block(tree.node(c).column));
        out.push(m);
        assert(out.deep_view() =~= before + seq![m@]);
    } else {
        assert(out.deep_view() =~= before + Seq::<MutationView>::empty());
    }
}

fn collect_not_operator_mutations(tree: &SyntaxTree, i: usize) -> (r: Vec<Mutation>)
    requires
        tree.wf(),
        i < tree@.len(),
    ensures
        r.deep_view() == not_edits(tree@, i as int),
{
    match (tree.child(i, 0), tree.child(i, 1)) {
        (Some(keyword), Some(operand)) => {
            if tree.kind_is(keyword, "not") {
                one_edit(tree.edit(keyword, i, "negate_remove", tree.text(operand).to_owned()))
            } else {
                no_edits()
            }
        },
        _ => no_edits(),
    }
}

fn collect_return_mutations(tree: &SyntaxTree, i: usize) -> (r: Vec<Mutation>)
    requires
        tree.wf(),
        i < tree@.len(),
    ensures
        r.deep_view() == return_edits(tree@, i as int),
{
    let kids = tree.children(i);
    if kids.len() < 2 {
        one_edit(tree.edit(i, i, "return_val", "return None".to_owned()))
    } else {
        let ops = return_mutations(tree.text(kids[1]));
        let mut out: Vec<Mutation> = Vec::new();
        assert(out.deep_view() =~= Seq::<MutationView>::empty());
        push_catalog_edits(tree, &mut out, i, i, &ops);
        assert(out.deep_view() =~= catalog_edits(tree@, i as int, i as int, ops.deep_view()));
        out
    }
}

fn collect_boolean_literal_mutations(tree: &SyntaxTree, i: usize) -> (r: Vec<Mutation>)
    requires
        tree.wf(),
        i < tree@.len(),
    ensures
        r.deep_view() == literal_edits(tree@, i as int),
{
    let inside_return = match tree.parent(i) {
        Some(p) => tree.kind_is(p, "return_statement"),
        None => false,
    };
    if inside_return {
        no_edits()
    } else {
        let ops = boolean_mutations(tree.text(i));
        let mut out: Vec<Mutation> = Vec::new();
        assert(out.deep_view() =~= Seq::<MutationView>::empty());
        push_catalog_edits(tree, &mut out, i, i, &ops);
        assert(out.deep_view() =~= catalog_edits(tree@, i as int, i as int, ops.deep_view()));
        out
    }
}

/// The edits of node `i`.
pub fn collect(tree: &SyntaxTree, i: usize) -> (r: Vec<Mutation>)
    requires
        tree.wf(),
        i < tree@.len(),
    ensures
        r.deep_view() == emits(tree@, i as int),
{
    if tree.kind_is(i, "comparison_operator") || tree.kind_is(i, "boolean_operator")
        || tree.kind_is(i, "binary_operator") || kind_holds_conditional_body(tree, i) {
        collect_children(Family::Python, tree, i)
    } else if tree.kind_is(i, "not_operator") {
        collect_not_operator_mutations(tree, i)
    } else if tree.kind_is(i, "return_statement") {
        collect_return_mutations(tree, i)
    } else if tree.kind_is(i, "true") || tree.kind_is(i, "false") {
        collect_boolean_literal_mutations(tree, i)
    } else {
        no_edits()
    }
}

fn definition_name_of(tree: &SyntaxTree, i: usize) -> (r: Option<usize>)
    requires
        tree.wf(),
        i < tree@.len(),
    ensures
        match r {
            Some(n) => definition_name(tree@, i as int) == Some(n as int) && n < tree@.len(),
            None => definition_name(tree@, i as int) is None,
        },
{
    if tree.kind_is(i, "function_definition") {
        tree.child_by_field(i, "name")
    } else {
        None
    }
}

/// Whether node `i` is the definition of a function called `name`.
pub fn is_named_function(tree: &SyntaxTree, i: usize, name: &str) -> (r: bool)
    requires
        tree.wf(),
        i < tree@.len(),
    ensures
        r == names_function(tree@, i as int, name@),
{
    match definition_name_of(tree, i) {
        Some(n) => str_eq(tree.text(n), name),
        None => false,
    }
}

/// Node `i` itself, where it is a function definition.
pub fn function_root_of(tree: &SyntaxTree, i: usize) -> (r: Option<usize>)
    requires
        tree.wf(),
        i < tree@.len(),
    ensures
        match r {
            Some(w) => function_root(tree@, i as int) == Some(w as int) && w < tree@.len(),
            None => function_root(tree@, i as int) is None,
        },
{
    if tree.kind_is(i, "function_definition") {
        Some(i)
    } else {
        None
    }
}

/// The name of the function definition `i`, if it can be asked for.
pub fn names_of(tree: &SyntaxTree, i: usize) -> (r: Vec<String>)
    requires
        tree.wf(),
        i < tree@.len(),
    ensures
        r.deep_view() == listed_names(tree@, i as int),
{
    let mut out: Vec<String> = Vec::new();
    match definition_name_of(tree, i) {
        Some(n) => {
            let name = tree.text(n);
            if !starts_with(name, "__") && !starts_with(name, "test_") {
                out.push(name.to_owned());
                assert(out.deep_view() =~= seq![name@]);
            } else {
                assert(out.deep_view() =~= Seq::<Seq<char>>::empty());
            }
        },
        None => {
            assert(out.deep_view() =~= Seq::<Seq<char>>::empty());
        },
    }
    out
}

/// The edits that a child adds replace the text of the child.
pub proof fn lemma_child_edits_from(t: TreeView, parent: int, c: int)
    requires
        0 <= c < t.len(),
    ensures
        all_from(child_edits(t, parent, c), t, c, c + 1),
{
    lemma_catalog_edits_from(t, c, c, spec_comparison_mutations(t.text(c)), c, c + 1);
    lemma_catalog_edits_from(t, c, c, spec_logical_mutations(t.text(c)), c, c + 1);
    lemma_catalog_edits_from(t, c, c, spec_arithmetic_mutations(t.text(c)), c, c + 1);
    lemma_edit_from(t, c, c, "block_remove"@, pass_block(t.nodes[c].column), c, c + 1);
}

/// The edits of a node replace texts of nodes of its subtree.
pub proof fn lemma_emits_from(t: TreeView, i: int)
    requires
        0 <= i < t.len(),
    ensures
        all_from(emits(t, i), t, i, t.subtree_end(i)),
{
    t.lemma_children(i);
    t.lemma_subtree_end(i);
    let kind = t.nodes[i].kind;
    let end = t.subtree_end(i);
    if is_parent_of_edits(kind) {
        lemma_children_edits_from(Family::Python, t, i);
        lemma_all_from_widen(children_edits(Family::Python, t, i), t, i + 1, end, i, end);
    } else if kind == "not_operator"@ {
        match (t.child(i, 0), t.child(i, 1)) {
            (Some(keyword), Some(operand)) => {
                lemma_edit_from(t, keyword, i, "negate_remove"@, t.text(operand), i, end);
            },
            _ => {},
        }
    } else if kind == "return_statement"@ {
        lemma_edit_from(t, i, i, "return_val"@, "return None"@, i, end);
        if t.children(i).len() >= 2 {
            lemma_catalog_edits_from(
                t,
                i,
                i,
                seq![entry("return_val"@, return_replacement(trimmed(t.text(t.children(i)[1]))))],
                i,
                end,
            );
        }
    } else if kind == "true"@ || kind == "false"@ {
        lemma_catalog_edits_from(t, i, i, spec_boolean_mutations(t.text(i)), i, end);
    }
}

/// A name that a node adds to the list of functions is a name of that node.
pub proof fn lemma_listed_is_named(t: TreeView, i: int)
    ensures
        forall|k: int|
            0 <= k < listed_names(t, i).len() ==> names_function(
                t,
                i,
                #[trigger] listed_names(t, i)[k],
            ),
{
}

/// The edits that discovery finds in a Python source: those of the first function
/// called `function_name`, or of all outermost functions where no name is given. Each
/// names a range of `source` that holds its original text.
pub fn discover_mutations(source: &str, function_name: Option<&str>) -> (r: Vec<Mutation>)
    ensures
        r.deep_view() == discovered_in_source(Grammar::Python, source@, name_view(function_name)),
        all_fit(r.deep_view(), source@),
        all_apply(r.deep_view(), source@),
{
    discover_in_source(Grammar::Python, source, function_name)
}

/// The names of the functions of a Python source that scoping can ask for, in
/// document order.
pub fn list_functions(source: &str) -> (r: Vec<String>)
    ensures
        r.deep_view() == listed_in_source(Grammar::Python, source@),
{
    list_in_source(Grammar::Python, source)
}

} // verus!
