//! Discovery in JavaScript, TypeScript and TSX sources, with the catalog of their
//! operators.

use vstd::prelude::*;
use crate::discover::{
    all_fit, all_from, catalog_edits, children_edits, collect_children, discover_in_source,
    discovered_in_source, extend, list_in_source, listed_in_source, name_view, no_edits,
    one_edit, push_catalog_edits, Family,
};
use crate::grammar::Grammar;
use crate::laws::{
    lemma_all_from_concat, lemma_all_from_widen, lemma_catalog_edits_from,
    lemma_children_edits_from, lemma_edit_from,
};
use crate::mutants::{Mutation, MutationView};
use crate::numeric::{float_literal, is_float_literal};
use crate::operators::{boundary_and_negation, entry, no_ops, one_op, CatalogEntry, MutationOp};
use crate::runner::all_apply;
use crate::text::{bytes_of, has_prefix, starts_with, str_eq, trim, trimmed};
use crate::tree::{SyntaxTree, TreeView};

verus! {

/// The dialect of a source of the JavaScript family.
#[derive(Debug, Clone, Copy, PartialEq, Eq, Structural)]
pub enum JsDialect {
    JavaScript,
    TypeScript,
    Tsx,
}

/// The grammar that sources of a dialect are parsed with.
pub open spec fn spec_grammar_of(dialect: JsDialect) -> Grammar {
    match dialect {
        JsDialect::JavaScript => Grammar::JavaScript,
        JsDialect::TypeScript => Grammar::TypeScript,
        JsDialect::Tsx => Grammar::Tsx,
    }
}

/// The grammar that sources of a dialect are parsed with.
pub fn grammar_of(dialect: JsDialect) -> (r: Grammar)
    ensures
        r == spec_grammar_of(dialect),
{
    match dialect {
        JsDialect::JavaScript => Grammar::JavaScript,
        JsDialect::TypeScript => Grammar::TypeScript,
        JsDialect::Tsx => Grammar::Tsx,
    }
}

/// The entries of a relational or equality operator.
pub open spec fn spec_comparison_mutations(op: Seq<char>) -> Seq<CatalogEntry> {
    if op == ">"@ {
        seq![entry("boundary"@, ">="@), entry("negate_cmp"@, "<="@)]
    } else if op == ">="@ {
        seq![entry("boundary"@, ">"@), entry("negate_cmp"@, "<"@)]
    } else if op == "<"@ {
        seq![entry("boundary"@, "<="@), entry("negate_cmp"@, ">="@)]
    } else if op == "<="@ {
        seq![entry("boundary"@, "<"@), entry("negate_cmp"@, ">"@)]
    } else if op == "=="@ {
        seq![entry("negate_eq"@, "!="@)]
    } else if op == "!="@ {
        seq![entry("negate_eq"@, "=="@)]
    } else if op == "==="@ {
        seq![entry("negate_eq"@, "!=="@)]
    } else if op == "!=="@ {
        seq![entry("negate_eq"@, "==="@)]
    } else {
        seq![]
    }
}

/// The replacements of a comparison operator: for a relational operator the
/// neighbouring inclusive or exclusive one and the inverted one, for a loose or strict
/// equality operator its negation, for any other text none.
pub fn comparison_mutations(op: &str) -> (r: Vec<MutationOp>)
    ensures
        r.deep_view() == spec_comparison_mutations(op@),
{
    if str_eq(op, ">") {
        boundary_and_negation(">=", "<=")
    } else if str_eq(op, ">=") {
        boundary_and_negation(">", "<")
    } else if str_eq(op, "<") {
        boundary_and_negation("<=", ">=")
    } else if str_eq(op, "<=") {
        boundary_and_negation("<", ">")
    } else if str_eq(op, "==") {
        one_op("negate_eq", "!=")
    } else if str_eq(op, "!=") {
        one_op("negate_eq", "==")
    } else if str_eq(op, "===") {
        one_op("negate_eq", "!==")
    } else if str_eq(op, "!==") {
        one_op("negate_eq", "===")
    } else {
        no_ops()
    }
}

/// The entries of a logical connective.
pub open spec fn spec_logical_mutations(op: Seq<char>) -> Seq<CatalogEntry> {
    if op == "&&"@ {
        seq![entry("logic_flip"@, "||"@)]
    } else if op == "||"@ {
        seq![entry("logic_flip"@, "&&"@)]
    } else if op == "??"@ {
        seq![entry("logic_flip"@, "||"@)]
    } else {
        seq![]
    }
}

/// The swap of `&&` and `||`, and `||` for `??`; nothing for any other text.
pub fn logical_mutations(op: &str) -> (r: Vec<MutationOp>)
    ensures
        r.deep_view() == spec_logical_mutations(op@),
{
    if str_eq(op, "&&") {
        one_op("logic_flip", "||")
    } else if str_eq(op, "||") {
        one_op("logic_flip", "&&")
    } else if str_eq(op, "??") {
        one_op("logic_flip", "||")
    } else {
        no_ops()
    }
}

/// The entries of an arithmetic operator.
pub open spec fn spec_arithmetic_mutations(op: Seq<char>) -> Seq<CatalogEntry> {
    if op == "+"@ {
        seq![entry("arith"@, "-"@)]
    } else if op == "-"@ {
        seq![entry("arith"@, "+"@)]
    } else if op == "*"@ {
        seq![entry("arith"@, "/"@)]
    } else if op == "/"@ {
        seq![entry("arith"@, "*"@)]
    } else if op == "%"@ {
        seq![entry("arith"@, "/"@)]
    } else if op == "**"@ {
        seq![entry("arith"@, "*"@)]
    } else {
        seq![]
    }
}

/// The one neighbour of an arithmetic operator; nothing for any other text.
pub fn arithmetic_mutations(op: &str) -> (r: Vec<MutationOp>)
    ensures
        r.deep_view() == spec_arithmetic_mutations(op@),
{
    if str_eq(op, "+") {
        one_op("arith", "-")
    } else if str_eq(op, "-") {
        one_op("arith", "+")
    } else if str_eq(op, "*") {
        one_op("arith", "/")
    } else if str_eq(op, "/") {
        one_op("arith", "*")
    } else if str_eq(op, "%") {
        one_op("arith", "/")
    } else if str_eq(op, "**") {
        one_op("arith", "*")
    } else {
        no_ops()
    }
}

/// The kind of a node that is a function as a value.
pub open spec fn is_function_kind(kind: Seq<char>) -> bool {
    ||| kind == "arrow_function"@
    ||| kind == "function"@
    ||| kind == "function_expression"@
    ||| kind == "generator_function"@
}

/// Whether a node of the given kind is a function as a value: an arrow function, a
/// function expression or a generator function.
pub fn is_function_node(kind: &str) -> (r: bool)
    ensures
        r == is_function_kind(kind@),
{
    str_eq(kind, "arrow_function") || str_eq(kind, "function") || str_eq(
        kind,
        "function_expression",
    ) || str_eq(kind, "generator_function")
}

/// The statement that takes the place of `return` followed by the expression `text`,
/// which is given without surrounding white space.
pub open spec fn return_replacement(text: Seq<char>) -> Seq<char> {
    let bytes = bytes_of(text);
    if text == "true"@ {
        "return false;"@
    } else if text == "false"@ {
        "return true;"@
    } else if text == "null"@ || text == "undefined"@ {
        "return \"\";"@
    } else if text == "0"@ {
        "return 1;"@
    } else if has_prefix(bytes, bytes_of("\""@)) || has_prefix(bytes, bytes_of("'"@))
        || has_prefix(bytes, bytes_of("`"@)) {
        "return \"\";"@
    } else if has_prefix(bytes, bytes_of("["@)) {
        "return [];"@
    } else if text == "{}"@ {
        "return null;"@
    } else if has_prefix(bytes, bytes_of("{"@)) {
        "return {};"@
    } else if float_literal(bytes) {
        "return 0;"@
    } else {
        "return null;"@
    }
}

/// The statement that takes the place of a return of the expression `text`, which is
/// given without surrounding white space.
pub fn return_replacement_of(text: &str) -> (r: &'static str)
    ensures
        r@ == return_replacement(text@),
{
    if str_eq(text, "true") {
        "return false;"
    } else if str_eq(text, "false") {
        "return true;"
    } else if str_eq(text, "null") || str_eq(text, "undefined") {
        "return \"\";"
    } else if str_eq(text, "0") {
        "return 1;"
    } else if starts_with(text, "\"") || starts_with(text, "'") || starts_with(text, "`") {
        "return \"\";"
    } else if starts_with(text, "[") {
        "return [];"
    } else if str_eq(text, "{}") {
        "return null;"
    } else if starts_with(text, "{") {
        "return {};"
    } else if is_float_literal(text) {
        "return 0;"
    } else {
        "return null;"
    }
}

/// The text of a callee whose calls write to the console.
pub open spec fn is_console_callee(text: Seq<char>) -> bool {
    ||| text == "console.log"@
    ||| text == "console.warn"@
    ||| text == "console.error"@
    ||| text == "console.info"@
    ||| text == "console.debug"@
}

/// Calls that write to the console are left out, and statements that consist of a
/// string.
pub open spec fn skips(t: TreeView, i: int) -> bool {
    ||| t.nodes[i].kind == "call_expression"@ && match t.child_by_field(i, "function"@) {
        Some(callee) => is_console_callee(t.text(callee)),
        None => false,
    }
    ||| t.nodes[i].kind == "expression_statement"@ && t.children(i).len() == 1
        && t.nodes[t.children(i)[0]].kind == "string"@
}

/// The removal of the statement block `c`, unless it is empty.
pub open spec fn block_edits(t: TreeView, c: int) -> Seq<MutationView> {
    if t.nodes[c].kind == "statement_block"@ && trimmed(t.text(c)) != "{}"@ {
        seq![t.edit(c, c, "block_remove"@, "{}"@)]
    } else {
        seq![]
    }
}

/// The edits of the child `c` of an `else` clause: the removal of its block.
pub open spec fn child_edits(t: TreeView, parent: int, c: int) -> Seq<MutationView> {
    block_edits(t, c)
}

/// The left operand of node `i` is a string or a template: its `+` joins texts.
pub open spec fn joins_strings(t: TreeView, i: int) -> bool {
    match t.child_by_field(i, "left"@) {
        Some(left) => t.nodes[left].kind == "string"@ || t.nodes[left].kind
            == "template_string"@,
        None => false,
    }
}

/// The entries of the operator `op` of the binary expression `i`.
pub open spec fn spec_binary_mutations(t: TreeView, i: int, op: Seq<char>) -> Seq<CatalogEntry> {
    if op == ">"@ || op == ">="@ || op == "<"@ || op == "<="@ || op == "=="@ || op == "!="@ || op
        == "==="@ || op == "!=="@ {
        spec_comparison_mutations(op)
    } else if op == "&&"@ || op == "||"@ || op == "??"@ {
        spec_logical_mutations(op)
    } else if op == "+"@ && joins_strings(t, i) {
        seq![]
    } else {
        spec_arithmetic_mutations(op)
    }
}

/// The edits of the operator of a binary expression.
pub open spec fn binary_edits(t: TreeView, i: int) -> Seq<MutationView> {
    match t.child_by_field(i, "operator"@) {
        Some(op) => catalog_edits(t, op, op, spec_binary_mutations(t, i, t.text(op))),
        None => seq![],
    }
}

/// The removal of a negation: the whole expression becomes its operand.
pub open spec fn unary_edits(t: TreeView, i: int) -> Seq<MutationView> {
    match (t.child_by_field(i, "operator"@), t.child_by_field(i, "argument"@)) {
        (Some(operator), Some(operand)) => if t.nodes[operator].kind == "!"@ {
            seq![t.edit(operator, i, "negate_remove"@, t.text(operand))]
        } else {
            seq![]
        },
        _ => seq![],
    }
}

/// The first of `kids` that is neither the keyword `return` nor a semicolon.
pub open spec fn returned_expression(t: TreeView, kids: Seq<int>) -> Option<int>
    decreases kids.len(),
{
    if kids.len() == 0 {
        None
    } else if t.nodes[kids[0]].kind != "return"@ && t.nodes[kids[0]].kind != ";"@ {
        Some(kids[0])
    } else {
        returned_expression(t, kids.drop_first())
    }
}

/// The replacement of a return statement: by the shape of its expression, or a return
/// of `undefined` where it has no expression.
pub open spec fn return_edits(t: TreeView, i: int) -> Seq<MutationView> {
    match returned_expression(t, t.children(i)) {
        Some(e) => seq![t.edit(i, i, "return_val"@, return_replacement(trimmed(t.text(e))))],
        None => seq![t.edit(i, i, "return_val"@, "return undefined;"@)],
    }
}

/// The flip of a boolean literal, unless it is the expression of a return statement.
pub open spec fn literal_edits(t: TreeView, i: int) -> Seq<MutationView> {
    if t.parent(i) is Some && t.nodes[t.parent(i)->0].kind == "return_statement"@ {
        seq![]
    } else if t.text(i) == "true"@ {
        seq![t.edit(i, i, "bool_flip"@, "false"@)]
    } else if t.text(i) == "false"@ {
        seq![t.edit(i, i, "bool_flip"@, "true"@)]
    } else {
        seq![]
    }
}

/// The removal of the block that fills the field `field` of node `i`.
pub open spec fn field_block_edits(t: TreeView, i: int, field: Seq<char>) -> Seq<MutationView> {
    match t.child_by_field(i, field) {
        Some(c) => block_edits(t, c),
        None => seq![],
    }
}

/// The removal of the blocks of the `else` clause of the statement `i`.
pub open spec fn else_edits(t: TreeView, i: int) -> Seq<MutationView> {
    match t.child_by_field(i, "alternative"@) {
        Some(a) => if t.nodes[a].kind == "else_clause"@ {
            children_edits(Family::Script, t, a)
        } else {
            seq![]
        },
        None => seq![],
    }
}

/// The kind of a loop statement.
pub open spec fn is_loop_kind(kind: Seq<char>) -> bool {
    kind == "for_statement"@ || kind == "for_in_statement"@ || kind == "while_statement"@
}

/// The edits of node `i`.
pub open spec fn emits(t: TreeView, i: int) -> Seq<MutationView> {
    let kind = t.nodes[i].kind;
    if kind == "binary_expression"@ {
        binary_edits(t, i)
    } else if kind == "unary_expression"@ {
        unary_edits(t, i)
    } else if kind == "return_statement"@ {
        return_edits(t, i)
    } else if kind == "true"@ || kind == "false"@ {
        literal_edits(t, i)
    } else if kind == "if_statement"@ {
        field_block_edits(t, i, "consequence"@) + else_edits(t, i)
    } else if is_loop_kind(kind) {
        field_block_edits(t, i, "body"@)
    } else {
        seq![]
    }
}

/// The kind of a declaration of a function or a method.
pub open spec fn is_callable_kind(kind: Seq<char>) -> bool {
    ||| kind == "function_declaration"@
    ||| kind == "generator_function_declaration"@
    ||| kind == "method_definition"@
}

/// The kind of a declaration of variables.
pub open spec fn is_declaration_kind(kind: Seq<char>) -> bool {
    kind == "lexical_declaration"@ || kind == "variable_declaration"@
}

/// The function that the declarator `d` binds to a variable, if it binds one.
pub open spec fn bound_function(t: TreeView, d: int) -> Option<int> {
    if t.nodes[d].kind == "variable_declarator"@ {
        match t.child_by_field(d, "value"@) {
            Some(v) => if is_function_kind(t.nodes[v].kind) {
                Some(v)
            } else {
                None
            },
            None => None,
        }
    } else {
        None
    }
}

/// The declarator `d` binds a function to the variable `name`.
pub open spec fn binds_function_as(t: TreeView, d: int, name: Seq<char>) -> bool {
    bound_function(t, d) is Some && match t.child_by_field(d, "name"@) {
        Some(n) => t.text(n) == name,
        None => false,
    }
}

/// One of `kids` binds a function to the variable `name`.
pub open spec fn declares(t: TreeView, kids: Seq<int>, name: Seq<char>) -> bool
    decreases kids.len(),
{
    if kids.len() == 0 {
        false
    } else {
        binds_function_as(t, kids[0], name) || declares(t, kids.drop_first(), name)
    }
}

/// Node `i` is a function, a method or a declaration of a variable bound to a
/// function, and is called `name`.
pub open spec fn names_function(t: TreeView, i: int, name: Seq<char>) -> bool {
    if is_callable_kind(t.nodes[i].kind) {
        match t.child_by_field(i, "name"@) {
            Some(n) => t.text(n) == name,
            None => false,
        }
    } else if is_declaration_kind(t.nodes[i].kind) {
        declares(t, t.children(i), name)
    } else {
        false
    }
}

/// The first function that one of `kids` binds to a variable.
pub open spec fn first_bound_function(t: TreeView, kids: Seq<int>) -> Option<int>
    decreases kids.len(),
{
    if kids.len() == 0 {
        None
    } else if bound_function(t, kids[0]) is Some {
        bound_function(t, kids[0])
    } else {
        first_bound_function(t, kids.drop_first())
    }
}

/// A function or a method is traversed as a whole; of a declaration of variables, the
/// first function that it binds.
pub open spec fn function_root(t: TreeView, i: int) -> Option<int> {
    if is_callable_kind(t.nodes[i].kind) {
        Some(i)
    } else if is_declaration_kind(t.nodes[i].kind) {
        first_bound_function(t, t.children(i))
    } else {
        None
    }
}

/// A name of a function that scoping can ask for: neither a test nor private.
pub open spec fn is_listed_function_name(name: Seq<char>) -> bool {
    !has_prefix(bytes_of(name), bytes_of("test"@)) && !has_prefix(bytes_of(name), bytes_of("_"@))
}

/// A name of a method that scoping can ask for: neither a test nor the constructor.
pub open spec fn is_listed_method_name(name: Seq<char>) -> bool {
    !has_prefix(bytes_of(name), bytes_of("test"@)) && name != "constructor"@
}

/// The name that the declarator `d` adds to the list of functions.
pub open spec fn declarator_names(t: TreeView, d: int) -> Seq<Seq<char>> {
    if bound_function(t, d) is Some {
        match t.child_by_field(d, "name"@) {
            Some(n) => if is_listed_function_name(t.text(n)) {
                seq![t.text(n)]
            } else {
                seq![]
            },
            None => seq![],
        }
    } else {
        seq![]
    }
}

/// The names that `kids` add to the list of functions.
pub open spec fn declared_names(t: TreeView, kids: Seq<int>) -> Seq<Seq<char>>
    decreases kids.len(),
{
    if kids.len() == 0 {
        seq![]
    } else {
        declared_names(t, kids.drop_last()) + declarator_names(t, kids.last())
    }
}

/// The names that node `i` adds to the list of functions.
pub open spec fn listed_names(t: TreeView, i: int) -> Seq<Seq<char>> {
    let kind = t.nodes[i].kind;
    if kind == "function_declaration"@ || kind == "generator_function_declaration"@ {
        match t.child_by_field(i, "name"@) {
            Some(n) => if is_listed_function_name(t.text(n)) {
                seq![t.text(n)]
            } else {
                seq![]
            },
            None => seq![],
        }
    } else if kind == "method_definition"@ {
        match t.child_by_field(i, "name"@) {
            Some(n) => if is_listed_method_name(t.text(n)) {
                seq![t.text(n)]
            } else {
                seq![]
            },
            None => seq![],
        }
    } else if is_declaration_kind(kind) {
        declared_names(t, t.children(i))
    } else {
        seq![]
    }
}

fn is_console_call(text: &str) -> (r: bool)
    ensures
        r == is_console_callee(text@),
{
    str_eq(text, "console.log") || str_eq(text, "console.warn") || str_eq(text, "console.error")
        || str_eq(text, "console.info") || str_eq(text, "console.debug")
}

/// Whether node `i` is left out, with everything below it.
pub fn should_skip_node(tree: &SyntaxTree, i: usize) -> (r: bool)
    requires
        tree.wf(),
        i < tree@.len(),
    ensures
        r == skips(tree@, i as int),
{
    if tree.kind_is(i, "call_expression") {
        match tree.child_by_field(i, "function") {
            Some(callee) => {
                if is_console_call(tree.text(callee)) {
                    return true;
                }
            },
            None => {},
        }
    }
    if tree.kind_is(i, "expression_statement") {
        let kids = tree.children(i);
        if kids.len() == 1 && tree.kind_is(kids[0], "string") {
            return true;
        }
    }
    false
}

fn push_block_edits(tree: &SyntaxTree, c: usize, out: &mut Vec<Mutation>)
    requires
        tree.wf(),
        c < tree@.len(),
    ensures
        final(out).deep_view() == old(out).deep_view() + block_edits(tree@, c as int),
{
    let ghost before = out.deep_view();
    if tree.kind_is(c, "statement_block") && !str_eq(trim(tree.text(c)), "{}") {
        let m = tree.edit(c, c, "block_remove", "{}".to_owned());
        out.push(m);
        assert(out.deep_view() =~= before + seq![m@]);
    } else {
        assert(out.deep_view() =~= before + Seq::<MutationView>::empty());
    }
}

/// Appends the edits of the child `c` of an `else` clause.
pub fn push_child_edits(tree: &SyntaxTree, parent: usize, c: usize, out: &mut Vec<Mutation>)
    requires
        tree.wf(),
        parent < tree@.len(),
        c < tree@.len(),
    ensures
        final(out).deep_view() == old(out).deep_view() + child_edits(
            tree@,
            parent as int,
            c as int,
        ),
{
    push_block_edits(tree, c, out);
}

fn left_is_string(tree: &SyntaxTree, i: usize) -> (r: bool)
    requires
        tree.wf(),
        i < tree@.len(),
    ensures
        r == joins_strings(tree@, i as int),
{
    match tree.child_by_field(i, "left") {
        Some(left) => tree.kind_is(left, "string") || tree.kind_is(left, "template_string"),
        None => false,
    }
}

fn binary_mutations(tree: &SyntaxTree, i: usize, op: &str) -> (r: Vec<MutationOp>)
    requires
        tree.wf(),
        i < tree@.len(),
    ensures
        r.deep_view() == spec_binary_mutations(tree@, i as int, op@),
{
    if str_eq(op, ">") || str_eq(op, ">=") || str_eq(op, "<") || str_eq(op, "<=") || str_eq(
        op,
        "==",
    ) || str_eq(op, "!=") || str_eq(op, "===") || str_eq(op, "!==") {
        comparison_mutations(op)
    } else if str_eq(op, "&&") || str_eq(op, "||") || str_eq(op, "??") {
        logical_mutations(op)
    } else if str_eq(op, "+") && left_is_string(tree, i) {
        no_ops()
    } else {
        arithmetic_mutations(op)
    }
}

fn collect_binary_mutations(tree: &SyntaxTree, i: usize) -> (r: Vec<Mutation>)
    requires
        tree.wf(),
        i < tree@.len(),
    ensures
        r.deep_view() == binary_edits(tree@, i as int),
{
    let mut out: Vec<Mutation> = Vec::new();
    assert(out.deep_view() =~= Seq::<MutationView>::empty());
    match tree.child_by_field(i, "operator") {
        Some(op) => {
            let ops = binary_mutations(tree, i, tree.text(op));
            push_catalog_edits(tree, &mut out, op, op, &ops);
            assert(out.deep_view() =~= catalog_edits(tree@, op as int, op as int, ops.deep_view()));
        },
        None => {},
    }
    out
}

fn collect_unary_mutations(tree: &SyntaxTree, i: usize) -> (r: Vec<Mutation>)
    requires
        tree.wf(),
        i < tree@.len(),
    ensures
        r.deep_view() == unary_edits(tree@, i as int),
{
    match (tree.child_by_field(i, "operator"), tree.child_by_field(i, "argument")) {
        (Some(operator), Some(operand)) => {
            if tree.kind_is(operator, "!") {
                one_edit(tree.edit(operator, i, "negate_remove", tree.text(operand).to_owned()))
            } else {
                no_edits()
            }
        },
        _ => no_edits(),
    }
}

fn returned_expression_of(tree: &SyntaxTree, i: usize) -> (r: Option<usize>)
    requires
        tree.wf(),
        i < tree@.len(),
    ensures
        match r {
            Some(e) => returned_expression(tree@, tree@.children(i as int)) == Some(e as int) && e
                < tree@.len(),
            None => returned_expression(tree@, tree@.children(i as int)) is None,
        },
{
    let kids = tree.children(i);
    let ghost all = tree@.children(i as int);
    assert(all.skip(0) =~= all);
    let mut k: usize = 0;
    while k < kids.len()
        invariant
            tree.wf(),
            all == tree@.children(i as int),
            0 <= k <= kids.len(),
            kids.len() == all.len(),
            forall|j: int| 0 <= j < kids.len() ==> i < #[trigger] kids[j] < tree@.len(),
            forall|j: int| 0 <= j < kids.len() ==> kids[j] as int == all[j],
            returned_expression(tree@, all) == returned_expression(tree@, all.skip(k as int)),
        decreases kids.len() - k,
    {
        let c = kids[k];
        assert(all.skip(k as int)[0] == c as int);
        assert(all.skip(k as int).drop_first() =~= all.skip(k + 1));
        if !tree.kind_is(c, "return") && !tree.kind_is(c, ";") {
            return Some(c);
        }
        k = k + 1;
    }
    assert(all.skip(k as int).len() == 0);
    None
}

fn collect_return_mutations(tree: &SyntaxTree, i: usize) -> (r: Vec<Mutation>)
    requires
        tree.wf(),
        i < tree@.len(),
    ensures
        r.deep_view() == return_edits(tree@, i as int),
{
    match returned_expression_of(tree, i) {
        Some(e) => {
            let replacement = return_replacement_of(trim(tree.text(e)));
            one_edit(tree.edit(i, i, "return_val", replacement.to_owned()))
        },
        None => one_edit(tree.edit(i, i, "return_val", "return undefined;".to_owned())),
    }
}

fn collect_boolean_mutations(tree: &SyntaxTree, i: usize) -> (r: Vec<Mutation>)
    requires
        tree.wf(),
        i < tree@.len(),
    ensures
        r.deep_view() == literal_edits(tree@, i as int),
{
    let inside_return = match tree.parent(i) {
        Some(p) => tree.kind_is(p, "return_statement"),
        None => false,
    };
    if inside_return {
        no_edits()
    } else if str_eq(tree.text(i), "true") {
        one_edit(tree.edit(i, i, "bool_flip", "false".to_owned()))
    } else if str_eq(tree.text(i), "false") {
        one_edit(tree.edit(i, i, "bool_flip", "true".to_owned()))
    } else {
        no_edits()
    }
}

fn collect_field_block(tree: &SyntaxTree, i: usize, field: &str) -> (r: Vec<Mutation>)
    requires
        tree.wf(),
        i < tree@.len(),
    ensures
        r.deep_view() == field_block_edits(tree@, i as int, field@),
{
    let mut out: Vec<Mutation> = Vec::new();
    assert(out.deep_view() =~= Seq::<MutationView>::empty());
    match tree.child_by_field(i, field) {
        Some(c) => {
            push_block_edits(tree, c, &mut out);
            assert(out.deep_view() =~= block_edits(tree@, c as int));
        },
        None => {},
    }
    out
}

fn collect_if_body_mutations(tree: &SyntaxTree, i: usize) -> (r: Vec<Mutation>)
    requires
        tree.wf(),
        i < tree@.len(),
    ensures
        r.deep_view() == field_block_edits(tree@, i as int, "consequence"@) + else_edits(
            tree@,
            i as int,
        ),
{
    let mut out = collect_field_block(tree, i, "consequence");
    let ghost first = out.deep_view();
    match tree.child_by_field(i, "alternative") {
        Some(a) => {
            if tree.kind_is(a, "else_clause") {
                extend(&mut out, collect_children(Family::Script, tree, a));
            } else {
                assert(out.deep_view() =~= first + Seq::<MutationView>::empty());
            }
        },
        None => {
            assert(out.deep_view() =~= first + Seq::<MutationView>::empty());
        },
    }
    out
}

fn collect_loop_body_mutations(tree: &SyntaxTree, i: usize) -> (r: Vec<Mutation>)
    requires
        tree.wf(),
        i < tree@.len(),
    ensures
        r.deep_view() == field_block_edits(tree@, i as int, "body"@),
{
    collect_field_block(tree, i, "body")
}

/// The edits of node `i`.
pub fn collect(tree: &SyntaxTree, i: usize) -> (r: Vec<Mutation>)
    requires
        tree.wf(),
        i < tree@.len(),
    ensures
        r.deep_view() == emits(tree@, i as int),
{
    if tree.kind_is(i, "binary_expression") {
        collect_binary_mutations(tree, i)
    } else if tree.kind_is(i, "unary_expression") {
        collect_unary_mutations(tree, i)
    } else if tree.kind_is(i, "return_statement") {
        collect_return_mutations(tree, i)
    } else if tree.kind_is(i, "true") || tree.kind_is(i, "false") {
        collect_boolean_mutations(tree, i)
    } else if tree.kind_is(i, "if_statement") {
        collect_if_body_mutations(tree, i)
    } else if tree.kind_is(i, "for_statement") || tree.kind_is(i, "for_in_statement")
        || tree.kind_is(i, "while_statement") {
        collect_loop_body_mutations(tree, i)
    } else {
        no_edits()
    }
}

fn kind_is_callable(tree: &SyntaxTree, i: usize) -> (r: bool)
    requires
        i < tree@.len(),
    ensures
        r == is_callable_kind(tree@.nodes[i as int].kind),
{
    tree.kind_is(i, "function_declaration") || tree.kind_is(i, "generator_function_declaration")
        || tree.kind_is(i, "method_definition")
}

fn kind_is_declaration(tree: &SyntaxTree, i: usize) -> (r: bool)
    requires
        i < tree@.len(),
    ensures
        r == is_declaration_kind(tree@.nodes[i as int].kind),
{
    tree.kind_is(i, "lexical_declaration") || tree.kind_is(i, "variable_declaration")
}

fn bound_function_of(tree: &SyntaxTree, d: usize) -> (r: Option<usize>)
    requires
        tree.wf(),
        d < tree@.len(),
    ensures
        match r {
            Some(v) => bound_function(tree@, d as int) == Some(v as int) && v < tree@.len(),
            None => bound_function(tree@, d as int) is None,
        },
{
    if tree.kind_is(d, "variable_declarator") {
        match tree.child_by_field(d, "value") {
            Some(v) => {
                if is_function_node(tree.node(v).kind.as_str()) {
                    Some(v)
                } else {
                    None
                }
            },
            None => None,
        }
    } else {
        None
    }
}

fn binds_function_named(tree: &SyntaxTree, d: usize, name: &str) -> (r: bool)
    requires
        tree.wf(),
        d < tree@.len(),
    ensures
        r == binds_function_as(tree@, d as int, name@),
{
    match bound_function_of(tree, d) {
        Some(_) => match tree.child_by_field(d, "name") {
            Some(n) => str_eq(tree.text(n), name),
            None => false,
        },
        None => false,
    }
}

/// Whether node `i` is a function, a method or a declaration of a variable bound to a
/// function, and is called `name`.
pub fn is_named_function(tree: &SyntaxTree, i: usize, name: &str) -> (r: bool)
    requires
        tree.wf(),
        i < tree@.len(),
    ensures
        r == names_function(tree@, i as int, name@),
{
    if kind_is_callable(tree, i) {
        match tree.child_by_field(i, "name") {
            Some(n) => str_eq(tree.text(n), name),
            None => false,
        }
    } else if kind_is_declaration(tree, i) {
        let kids = tree.children(i);
        let ghost all = tree@.children(i as int);
        assert(all.skip(0) =~= all);
        let mut k: usize = 0;
        while k < kids.len()
            invariant
                tree.wf(),
                i < tree@.len(),
                all == tree@.children(i as int),
                !is_callable_kind(tree@.nodes[i as int].kind),
                is_declaration_kind(tree@.nodes[i as int].kind),
                0 <= k <= kids.len(),
                kids.len() == all.len(),
                forall|j: int| 0 <= j < kids.len() ==> i < #[trigger] kids[j] < tree@.len(),
                forall|j: int| 0 <= j < kids.len() ==> kids[j] as int == all[j],
                declares(tree@, all, name@) == declares(tree@, all.skip(k as int), name@),
            decreases kids.len() - k,
        {
            assert(all.skip(k as int)[0] == kids[k as int] as int);
            assert(all.skip(k as int).drop_first() =~= all.skip(k + 1));
            if binds_function_named(tree, kids[k], name) {
                return true;
            }
            k = k + 1;
        }
        assert(all.skip(k as int).len() == 0);
        false
    } else {
        false
    }
}

/// The node that is traversed for node `i`, where it is a function, a method or a
/// declaration of a variable bound to a function.
pub fn function_root_of(tree: &SyntaxTree, i: usize) -> (r: Option<usize>)
    requires
        tree.wf(),
        i < tree@.len(),
    ensures
        match r {
            Some(w) => function_root(tree@, i as int) == Some(w as int) && w < tree@.len(),
            None => function_root(tree@, i as int) is None,
        },
{
    if kind_is_callable(tree, i) {
        Some(i)
    } else if kind_is_declaration(tree, i) {
        let kids = tree.children(i);
        let ghost all = tree@.children(i as int);
        assert(all.skip(0) =~= all);
        let mut k: usize = 0;
        while k < kids.len()
            invariant
                tree.wf(),
                i < tree@.len(),
                all == tree@.children(i as int),
                !is_callable_kind(tree@.nodes[i as int].kind),
                is_declaration_kind(tree@.nodes[i as int].kind),
                0 <= k <= kids.len(),
                kids.len() == all.len(),
                forall|j: int| 0 <= j < kids.len() ==> i < #[trigger] kids[j] < tree@.len(),
                forall|j: int| 0 <= j < kids.len() ==> kids[j] as int == all[j],
                first_bound_function(tree@, all) == first_bound_function(
                    tree@,
                    all.skip(k as int),
                ),
            decreases kids.len() - k,
        {
            assert(all.skip(k as int)[0] == kids[k as int] as int);
            assert(all.skip(k as int).drop_first() =~= all.skip(k + 1));
            match bound_function_of(tree, kids[k]) {
                Some(v) => {
                    return Some(v);
                },
                None => {},
            }
            k = k + 1;
        }
        assert(all.skip(k as int).len() == 0);
        None
    } else {
        None
    }
}

fn push_name_if(out: &mut Vec<String>, name: &str, listed: bool)
    ensures
        final(out).deep_view() == old(out).deep_view() + (if listed {
            seq![name@]
        } else {
            seq![]
        }),
{
    let ghost before = out.deep_view();
    if listed {
        out.push(name.to_owned());
        assert(out.deep_view() =~= before + seq![name@]);
    } else {
        assert(out.deep_view() =~= before + Seq::<Seq<char>>::empty());
    }
}

fn push_declarator_names(tree: &SyntaxTree, d: usize, out: &mut Vec<String>)
    requires
        tree.wf(),
        d < tree@.len(),
    ensures
        final(out).deep_view() == old(out).deep_view() + declarator_names(tree@, d as int),
{
    let ghost before = out.deep_view();
    match bound_function_of(tree, d) {
        Some(_) => match tree.child_by_field(d, "name") {
            Some(n) => {
                let name = tree.text(n);
                push_name_if(out, name, !starts_with(name, "test") && !starts_with(name, "_"));
            },
            None => {
                assert(out.deep_view() =~= before + Seq::<Seq<char>>::empty());
            },
        },
        None => {
            assert(out.deep_view() =~= before + Seq::<Seq<char>>::empty());
        },
    }
}

/// The names that node `i` adds to the list of functions.
pub fn names_of(tree: &SyntaxTree, i: usize) -> (r: Vec<String>)
    requires
        tree.wf(),
        i < tree@.len(),
    ensures
        r.deep_view() == listed_names(tree@, i as int),
{
    let mut out: Vec<String> = Vec::new();
    assert(out.deep_view() =~= Seq::<Seq<char>>::empty());
    if tree.kind_is(i, "function_declaration") || tree.kind_is(
        i,
        "generator_function_declaration",
    ) {
        match tree.child_by_field(i, "name") {
            Some(n) => {
                let name = tree.text(n);
                push_name_if(&mut out, name, !starts_with(name, "test") && !starts_with(name, "_"));
                assert(out.deep_view() =~= listed_names(tree@, i as int));
            },
            None => {},
        }
    } else if tree.kind_is(i, "method_definition") {
        match tree.child_by_field(i, "name") {
            Some(n) => {
                let name = tree.text(n);
                push_name_if(
                    &mut out,
                    name,
                    !starts_with(name, "test") && !str_eq(name, "constructor"),
                );
                assert(out.deep_view() =~= listed_names(tree@, i as int));
            },
            None => {},
        }
    } else if kind_is_declaration(tree, i) {
        let kids = tree.children(i);
        let ghost all = tree@.children(i as int);
        assert(all.take(0) =~= Seq::<int>::empty());
        let mut k: usize = 0;
        while k < kids.len()
            invariant
                tree.wf(),
                i < tree@.len(),
                all == tree@.children(i as int),
                !is_callable_kind(tree@.nodes[i as int].kind),
                is_declaration_kind(tree@.nodes[i as int].kind),
                0 <= k <= kids.len(),
                kids.len() == all.len(),
                forall|j: int| 0 <= j < kids.len() ==> i < #[trigger] kids[j] < tree@.len(),
                forall|j: int| 0 <= j < kids.len() ==> kids[j] as int == all[j],
                out.deep_view() == declared_names(tree@, all.take(k as int)),
            decreases kids.len() - k,
        {
            push_declarator_names(tree, kids[k], &mut out);
            proof {
                assert(all.take(k + 1).drop_last() =~= all.take(k as int));
                assert(all.take(k + 1).last() == kids[k as int] as int);
            }
            k = k + 1;
        }
        assert(all.take(k as int) =~= all);
    }
    out
}

/// The removal of a block replaces the text of the block.
pub proof fn lemma_block_edits_from(t: TreeView, c: int, lo: int, hi: int)
    requires
        0 <= c < t.len(),
        lo <= c < hi,
    ensures
        all_from(block_edits(t, c), t, lo, hi),
{
    lemma_edit_from(t, c, c, "block_remove"@, "{}"@, lo, hi);
}

/// The edits that a child adds replace the text of the child.
pub proof fn lemma_child_edits_from(t: TreeView, parent: int, c: int)
    requires
        0 <= c < t.len(),
    ensures
        all_from(child_edits(t, parent, c), t, c, c + 1),
{
    lemma_block_edits_from(t, c, c, c + 1);
}

/// A child that fills a field is a node below its parent.
pub proof fn lemma_field_child(t: TreeView, i: int, field: Seq<char>)
    requires
        0 <= i < t.len(),
    ensures
        t.child_by_field(i, field) matches Some(c) ==> i < c < t.subtree_end(i) && c < t.len(),
{
    t.lemma_children(i);
    t.lemma_subtree_end(i);
    t.lemma_first_with_field(t.children(i), field);
}

/// The removal of the block in a field replaces the text of a node below the node.
pub proof fn lemma_field_block_edits_from(t: TreeView, i: int, field: Seq<char>)
    requires
        0 <= i < t.len(),
    ensures
        all_from(field_block_edits(t, i, field), t, i, t.subtree_end(i)),
{
    lemma_field_child(t, i, field);
    match t.child_by_field(i, field) {
        Some(c) => {
            lemma_block_edits_from(t, c, i, t.subtree_end(i));
        },
        None => {},
    }
}

/// The edits of a node replace texts of nodes of its subtree.
pub proof fn lemma_emits_from(t: TreeView, i: int)
    requires
        0 <= i < t.len(),
    ensures
        all_from(emits(t, i), t, i, t.subtree_end(i)),
{
    t.lemma_children(i);
    t.lemma_subtree_end(i);
    let kind = t.nodes[i].kind;
    let end = t.subtree_end(i);
    if kind == "binary_expression"@ {
        lemma_field_child(t, i, "operator"@);
        match t.child_by_field(i, "operator"@) {
            Some(op) => {
                lemma_catalog_edits_from(
                    t,
                    op,
                    op,
                    spec_binary_mutations(t, i, t.text(op)),
                    i,
                    end,
                );
            },
            None => {},
        }
    } else if kind == "unary_expression"@ {
        match (t.child_by_field(i, "operator"@), t.child_by_field(i, "argument"@)) {
            (Some(operator), Some(operand)) => {
                lemma_edit_from(t, operator, i, "negate_remove"@, t.text(operand), i, end);
            },
            _ => {},
        }
    } else if kind == "return_statement"@ {
        match returned_expression(t, t.children(i)) {
            Some(e) => {
                lemma_edit_from(
                    t,
                    i,
                    i,
                    "return_val"@,
                    return_replacement(trimmed(t.text(e))),
                    i,
                    end,
                );
            },
            None => {
                lemma_edit_from(t, i, i, "return_val"@, "return undefined;"@, i, end);
            },
        }
    } else if kind == "true"@ || kind == "false"@ {
        lemma_edit_from(t, i, i, "bool_flip"@, "false"@, i, end);
        lemma_edit_from(t, i, i, "bool_flip"@, "true"@, i, end);
    } else if kind == "if_statement"@ {
        lemma_field_block_edits_from(t, i, "consequence"@);
        lemma_field_child(t, i, "alternative"@);
        match t.child_by_field(i, "alternative"@) {
            Some(a) => {
                t.lemma_nested(i, a);
                lemma_children_edits_from(Family::Script, t, a);
                lemma_all_from_widen(
                    children_edits(Family::Script, t, a),
                    t,
                    a + 1,
                    t.subtree_end(a),
                    i,
                    end,
                );
            },
            None => {},
        }
        lemma_all_from_concat(
            field_block_edits(t, i, "consequence"@),
            else_edits(t, i),
            t,
            i,
            end,
        );
    } else if is_loop_kind(kind) {
        lemma_field_block_edits_from(t, i, "body"@);
    }
}

/// A declaration with a declarator that binds a function to a name declares a
/// function of that name.
pub proof fn lemma_declares(t: TreeView, kids: Seq<int>, name: Seq<char>, k: int)
    requires
        0 <= k < kids.len(),
        binds_function_as(t, kids[k], name),
    ensures
        declares(t, kids, name),
    decreases kids.len(),
{
    if k > 0 {
        assert(kids.drop_first()[k - 1] == kids[k]);
        lemma_declares(t, kids.drop_first(), name, k - 1);
    }
}

/// Every name that declarators add to the list of functions is bound to a function
/// by one of them.
pub proof fn lemma_declared_names(t: TreeView, kids: Seq<int>)
    ensures
        forall|k: int|
            0 <= k < declared_names(t, kids).len() ==> declares(
                t,
                kids,
                #[trigger] declared_names(t, kids)[k],
            ),
    decreases kids.len(),
{
    if kids.len() > 0 {
        let front = kids.drop_last();
        lemma_declared_names(t, front);
        assert forall|k: int| 0 <= k < declared_names(t, kids).len() implies declares(
            t,
            kids,
            #[trigger] declared_names(t, kids)[k],
        ) by {
            let name = declared_names(t, kids)[k];
            if k < declared_names(t, front).len() {
                assert(name == declared_names(t, front)[k]);
                assert(declares(t, front, name));
                lemma_declares_more(t, front, kids.last(), name);
                assert(front.push(kids.last()) =~= kids);
            } else {
                lemma_declares(t, kids, name, kids.len() - 1);
            }
        }
    }
}

/// A function that a list of declarators declares is declared by every longer one.
pub proof fn lemma_declares_more(t: TreeView, kids: Seq<int>, d: int, name: Seq<char>)
    requires
        declares(t, kids, name),
    ensures
        declares(t, kids.push(d), name),
    decreases kids.len(),
{
    if kids.len() > 0 {
        assert(kids.push(d)[0] == kids[0]);
        assert(kids.push(d).drop_first() =~= kids.drop_first().push(d));
        if !binds_function_as(t, kids[0], name) {
            lemma_declares_more(t, kids.drop_first(), d, name);
        }
    }
}

/// A name that a node adds to the list of functions is a name of that node.
pub proof fn lemma_listed_is_named(t: TreeView, i: int)
    ensures
        forall|k: int|
            0 <= k < listed_names(t, i).len() ==> names_function(
                t,
                i,
                #[trigger] listed_names(t, i)[k],
            ),
{
    lemma_declared_names(t, t.children(i));
}

/// The edits that discovery finds in a source of the JavaScript family: those of the
/// first function, method or function-valued variable called `function_name`, or of
/// all outermost ones where no name is given. Each names a range of `source` that
/// holds its original text.
pub fn discover_mutations(source: &str, function_name: Option<&str>, dialect: JsDialect) -> (r:
    Vec<Mutation>)
    ensures
        r.deep_view() == discovered_in_source(
            spec_grammar_of(dialect),
            source@,
            name_view(function_name),
        ),
        all_fit(r.deep_view(), source@),
        all_apply(r.deep_view(), source@),
{
    discover_in_source(grammar_of(dialect), source, function_name)
}

/// The names of the functions, methods and function-valued variables of a source of
/// the JavaScript family that scoping can ask for, in document order.
pub fn list_functions(source: &str, dialect: JsDialect) -> (r: Vec<String>)
    ensures
        r.deep_view() == listed_in_source(spec_grammar_of(dialect), source@),
{
    list_in_source(grammar_of(dialect), source)
}

} // verus!
