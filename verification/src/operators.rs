//! The mutation catalog for Python: which replacements each token has.

use vstd::prelude::*;
use crate::numeric::{float_literal, is_float_literal};
use crate::text::{bytes_of, has_prefix, starts_with, str_eq, trim, trimmed};

verus! {

/// One entry of the catalog: the name of an operator and the text it puts in place.
pub struct MutationOp {
    pub operator_name: &'static str,
    pub replacement: &'static str,
}

/// The mathematical value of a [`MutationOp`].
pub struct CatalogEntry {
    pub operator: Seq<char>,
    pub replacement: Seq<char>,
}

impl View for MutationOp {
    type V = CatalogEntry;

    open spec fn view(&self) -> CatalogEntry {
        CatalogEntry { operator: self.operator_name@, replacement: self.replacement@ }
    }
}

impl DeepView for MutationOp {
    type V = CatalogEntry;

    open spec fn deep_view(&self) -> CatalogEntry {
        self@
    }
}

/// The catalog entry with the given operator and replacement.
pub open spec fn entry(operator: Seq<char>, replacement: Seq<char>) -> CatalogEntry {
    CatalogEntry { operator, replacement }
}

/// A list of no entries.
pub fn no_ops() -> (r: Vec<MutationOp>)
    ensures
        r.deep_view() == Seq::<CatalogEntry>::empty(),
{
    let r: Vec<MutationOp> = Vec::new();
    assert(r.deep_view() =~= Seq::<CatalogEntry>::empty());
    r
}

/// A list of one entry.
pub fn one_op(operator_name: &'static str, replacement: &'static str) -> (r: Vec<MutationOp>)
    ensures
        r.deep_view() == seq![entry(operator_name@, replacement@)],
{
    let mut r: Vec<MutationOp> = Vec::new();
    r.push(MutationOp { operator_name, replacement });
    assert(r.deep_view() =~= seq![entry(operator_name@, replacement@)]);
    r
}

/// The boundary swap and the negation of a relational operator.
pub fn boundary_and_negation(boundary: &'static str, negation: &'static str) -> (r: Vec<MutationOp>)
    ensures
        r.deep_view() == seq![entry("boundary"@, boundary@), entry("negate_cmp"@, negation@)],
{
    let mut r: Vec<MutationOp> = Vec::new();
    r.push(MutationOp { operator_name: "boundary", replacement: boundary });
    r.push(MutationOp { operator_name: "negate_cmp", replacement: negation });
    assert(r.deep_view() =~= seq![
        entry("boundary"@, boundary@),
        entry("negate_cmp"@, negation@),
    ]);
    r
}

/// The entries of a relational, equality, identity or membership operator.
pub open spec fn spec_comparison_mutations(op: Seq<char>) -> Seq<CatalogEntry> {
    if op == ">"@ {
        seq![entry("boundary"@, ">="@), entry("negate_cmp"@, "<="@)]
    } else if op == ">="@ {
        seq![entry("boundary"@, ">"@), entry("negate_cmp"@, "<"@)]
    } else if op == "<"@ {
        seq![entry("boundary"@, "<="@), entry("negate_cmp"@, ">="@)]
    } else if op == "<="@ {
        seq![entry("boundary"@, "<"@), entry("negate_cmp"@, ">"@)]
    } else if op == "=="@ {
        seq![entry("negate_eq"@, "!="@)]
    } else if op == "!="@ {
        seq![entry("negate_eq"@, "=="@)]
    } else if op == "is"@ {
        seq![entry("negate_is"@, "is not"@)]
    } else if op == "is not"@ {
        seq![entry("negate_is"@, "is"@)]
    } else if op == "in"@ {
        seq![entry("negate_in"@, "not in"@)]
    } else if op == "not in"@ {
        seq![entry("negate_in"@, "in"@)]
    } else {
        seq![]
    }
}

/// The replacements of a comparison operator: for a relational operator the
/// neighbouring inclusive or exclusive one and the inverted one, for an equality,
/// identity or membership operator its negation, for any other text none.
pub fn comparison_mutations(op_text: &str) -> (r: Vec<MutationOp>)
    ensures
        r.deep_view() == spec_comparison_mutations(op_text@),
{
    if str_eq(op_text, ">") {
        boundary_and_negation(">=", "<=")
    } else if str_eq(op_text, ">=") {
        boundary_and_negation(">", "<")
    } else if str_eq(op_text, "<") {
        boundary_and_negation("<=", ">=")
    } else if str_eq(op_text, "<=") {
        boundary_and_negation("<", ">")
    } else if str_eq(op_text, "==") {
        one_op("negate_eq", "!=")
    } else if str_eq(op_text, "!=") {
        one_op("negate_eq", "==")
    } else if str_eq(op_text, "is") {
        one_op("negate_is", "is not")
    } else if str_eq(op_text, "is not") {
        one_op("negate_is", "is")
    } else if str_eq(op_text, "in") {
        one_op("negate_in", "not in")
    } else if str_eq(op_text, "not in") {
        one_op("negate_in", "in")
    } else {
        no_ops()
    }
}

/// The entries of a boolean literal.
pub open spec fn spec_boolean_mutations(text: Seq<char>) -> Seq<CatalogEntry> {
    if text == "True"@ {
        seq![entry("bool_flip"@, "False"@)]
    } else if text == "False"@ {
        seq![entry("bool_flip"@, "True"@)]
    } else {
        seq![]
    }
}

/// The flip of a boolean literal; nothing for any other text.
pub fn boolean_mutations(text: &str) -> (r: Vec<MutationOp>)
    ensures
        r.deep_view() == spec_boolean_mutations(text@),
{
    if str_eq(text, "True") {
        one_op("bool_flip", "False")
    } else if str_eq(text, "False") {
        one_op("bool_flip", "True")
    } else {
        no_ops()
    }
}

/// The entries of a logical connective.
pub open spec fn spec_logical_mutations(op: Seq<char>) -> Seq<CatalogEntry> {
    if op == "and"@ {
        seq![entry("logic_flip"@, "or"@)]
    } else if op == "or"@ {
        seq![entry("logic_flip"@, "and"@)]
    } else if op == "not"@ {
        seq![entry("negate_remove"@, ""@)]
    } else {
        seq![]
    }
}

/// The swap of `and` and `or`, the removal of `not`; nothing for any other text.
pub fn logical_mutations(op_text: &str) -> (r: Vec<MutationOp>)
    ensures
        r.deep_view() == spec_logical_mutations(op_text@),
{
    if str_eq(op_text, "and") {
        one_op("logic_flip", "or")
    } else if str_eq(op_text, "or") {
        one_op("logic_flip", "and")
    } else if str_eq(op_text, "not") {
        one_op("negate_remove", "")
    } else {
        no_ops()
    }
}

/// The statement that takes the place of `return` followed by the expression `text`,
/// which is given without surrounding white space.
pub open spec fn return_replacement(text: Seq<char>) -> Seq<char> {
    let bytes = bytes_of(text);
    if text == "None"@ {
        "return \"\""@
    } else if text == "True"@ {
        "return False"@
    } else if text == "False"@ {
        "return True"@
    } else if has_prefix(bytes, bytes_of("\""@)) || has_prefix(bytes, bytes_of("'"@))
        || has_prefix(bytes, bytes_of("f\""@)) || has_prefix(bytes, bytes_of("f'"@)) {
        "return \"\""@
    } else if has_prefix(bytes, bytes_of("["@)) {
        "return []"@
    } else if has_prefix(bytes, bytes_of("{"@)) {
        "return {}"@
    } else if text == "0"@ {
        "return 1"@
    } else if float_literal(bytes) {
        "return 0"@
    } else {
        "return None"@
    }
}

/// The one entry of a return expression whose text, without surrounding white space,
/// is `trimmed`: it is classified by its shape alone.
pub fn return_mutations_of_trimmed(trimmed: &str) -> (r: Vec<MutationOp>)
    ensures
        r.deep_view() == seq![entry("return_val"@, return_replacement(trimmed@))],
{
    if str_eq(trimmed, "None") {
        one_op("return_val", "return \"\"")
    } else if str_eq(trimmed, "True") {
        one_op("return_val", "return False")
    } else if str_eq(trimmed, "False") {
        one_op("return_val", "return True")
    } else if starts_with(trimmed, "\"") || starts_with(trimmed, "'") || starts_with(trimmed, "f\"")
        || starts_with(trimmed, "f'") {
        one_op("return_val", "return \"\"")
    } else if starts_with(trimmed, "[") {
        one_op("return_val", "return []")
    } else if starts_with(trimmed, "{") {
        one_op("return_val", "return {}")
    } else if str_eq(trimmed, "0") {
        one_op("return_val", "return 1")
    } else if is_float_literal(trimmed) {
        one_op("return_val", "return 0")
    } else {
        one_op("return_val", "return None")
    }
}

/// The one entry of a return expression: the expression is stripped of surrounding
/// white space and then classified by its shape.
pub fn return_mutations(return_value: &str) -> (r: Vec<MutationOp>)
    ensures
        r.deep_view() == seq![entry("return_val"@, return_replacement(trimmed(return_value@)))],
{
    return_mutations_of_trimmed(trim(return_value))
}

/// The entries of an arithmetic operator.
pub open spec fn spec_arithmetic_mutations(op: Seq<char>) -> Seq<CatalogEntry> {
    if op == "+"@ {
        seq![entry("arith"@, "-"@)]
    } else if op == "-"@ {
        seq![entry("arith"@, "+"@)]
    } else if op == "*"@ {
        seq![entry("arith"@, "/"@)]
    } else if op == "/"@ {
        seq![entry("arith"@, "*"@)]
    } else if op == "//"@ {
        seq![entry("arith"@, "/"@)]
    } else if op == "%"@ {
        seq![entry("arith"@, "/"@)]
    } else if op == "**"@ {
        seq![entry("arith"@, "*"@)]
    } else {
        seq![]
    }
}

/// The one neighbour of an arithmetic operator; nothing for any other text.
pub fn arithmetic_mutations(op_text: &str) -> (r: Vec<MutationOp>)
    ensures
        r.deep_view() == spec_arithmetic_mutations(op_text@),
{
    if str_eq(op_text, "+") {
        one_op("arith", "-")
    } else if str_eq(op_text, "-") {
        one_op("arith", "+")
    } else if str_eq(op_text, "*") {
        one_op("arith", "/")
    } else if str_eq(op_text, "/") {
        one_op("arith", "*")
    } else if str_eq(op_text, "//") {
        one_op("arith", "/")
    } else if str_eq(op_text, "%") {
        one_op("arith", "/")
    } else if str_eq(op_text, "**") {
        one_op("arith", "*")
    } else {
        no_ops()
    }
}

/// The entry of a string literal.
pub open spec fn spec_string_mutations(text: Seq<char>) -> Seq<CatalogEntry> {
    if text == "\"\""@ || text == "''"@ {
        seq![entry("string_mut"@, "\"mutator_xx\""@)]
    } else {
        seq![entry("string_mut"@, "\"\""@)]
    }
}

/// An empty string literal becomes a marker text, any other text the empty literal.
pub fn string_mutations(text: &str) -> (r: Vec<MutationOp>)
    ensures
        r.deep_view() == spec_string_mutations(text@),
{
    if str_eq(text, "\"\"") || str_eq(text, "''") {
        one_op("string_mut", "\"mutator_xx\"")
    } else {
        one_op("string_mut", "\"\"")
    }
}

/// The removal of a conditional body: the body becomes `pass`.
pub fn conditional_body_removal() -> (r: Vec<MutationOp>)
    ensures
        r.deep_view() == seq![entry("block_remove"@, "pass"@)],
{
    one_op("block_remove", "pass")
}

} // verus!
