use mutator::grammar::{parse_source, Grammar};
use mutator::tree::SyntaxTree;

const FIELDS: [&str; 10] =
    ["name", "value", "function", "operator", "left", "argument", "consequence", "alternative", "body", "right"];

fn language(grammar: Grammar) -> tree_sitter::Language {
    match grammar {
        Grammar::Python => tree_sitter_python::LANGUAGE.into(),
        Grammar::Rust => tree_sitter_rust::LANGUAGE.into(),
        Grammar::JavaScript => tree_sitter_javascript::LANGUAGE.into(),
        Grammar::TypeScript => tree_sitter_typescript::LANGUAGE_TYPESCRIPT.into(),
        Grammar::Tsx => tree_sitter_typescript::LANGUAGE_TSX.into(),
    }
}

/// Walks the parser's own tree by its children and holds the plain tree against it.
fn compare(node: tree_sitter::Node, tree: &SyntaxTree, next: &mut usize, depth: usize, parent: Option<usize>) {
    let index = *next;
    *next += 1;
    let plain = tree.node(index);
    assert_eq!(plain.kind, node.kind());
    assert_eq!(plain.depth, depth);
    assert_eq!(plain.start_byte, node.start_byte());
    assert_eq!(plain.end_byte, node.end_byte());
    assert_eq!(plain.row, node.start_position().row);
    assert_eq!(plain.column, node.start_position().column);
    assert_eq!(tree.parent(index), parent);
    assert_eq!(tree.child_count(index), node.child_count() as usize);
    let kids = tree.children(index);
    for (k, kid) in kids.iter().enumerate() {
        assert_eq!(tree.child(index, k), Some(*kid));
        assert_eq!(tree.node(*kid).kind, node.child(k as u32).unwrap().kind());
        assert_eq!(tree.node(*kid).start_byte, node.child(k as u32).unwrap().start_byte());
    }
    for field in FIELDS {
        let expected = node.child_by_field_name(field).map(|c| (c.kind().to_string(), c.start_byte(), c.end_byte()));
        let found = tree.child_by_field(index, field).map(|c| {
            let n = tree.node(c);
            (n.kind.clone(), n.start_byte, n.end_byte)
        });
        assert_eq!(found, expected, "field {} of {}", field, node.kind());
    }
    for k in 0..node.child_count() {
        compare(node.child(k as u32).unwrap(), tree, next, depth + 1, Some(index));
    }
    assert_eq!(tree.subtree_end(index), *next);
}

fn check(grammar: Grammar, source: &str) {
    let mut parser = tree_sitter::Parser::new();
    parser.set_language(&language(grammar)).unwrap();
    let parsed = parser.parse(source, None).unwrap();
    let tree = parse_source(grammar, source).unwrap();
    let mut next = 0;
    compare(parsed.root_node(), &tree, &mut next, 0, None);
    assert_eq!(next, tree.len());
}

#[test]
fn plain_tree_is_the_tree_of_the_parser_python() {
    check(Grammar::Python, "");
    check(Grammar::Python, "import os\n\nclass A:\n    \"\"\"doc\"\"\"\n    def f(self, a, b=1):\n        # note\n        if a > b and not a:\n            return [a, b]\n        elif a is not None:\n            print(f\"{a}\")\n        else:\n            pass\n        return a ** 2 // b\n\ndef g(x):\n    return x if x else -x\n");
    check(Grammar::Python, "def broken(:\n    return (\n");
    check(Grammar::Python, "def f():\n    return 'é' + \"ü\"\n");
}

#[test]
fn plain_tree_is_the_tree_of_the_parser_rust() {
    check(Grammar::Rust, "");
    check(Grammar::Rust, "use std::fmt;\n/// doc\npub fn f(a: i32, b: i32) -> bool {\n    println!(\"{}\", a > b);\n    if a >= b && !(a == 0) { return true; } else if b < 0 { return false } else { }\n    let v = vec![1, 2];\n    a % b != 0 || v.is_empty()\n}\nimpl A { fn g(&self) -> Option<u8> { None } }\n");
    check(Grammar::Rust, "fn broken( { let x = ; }");
}

#[test]
fn plain_tree_is_the_tree_of_the_parser_script() {
    let source = "'use strict';\nexport default function f(a, b) {\n  console.log(a > b);\n  for (let i = 0; i < a; i++) { b += i; }\n  while (a) { a--; }\n  for (const k in b) { continue; }\n  if (a === b) { return `x${a}`; } else if (a ?? b) { return null; } else { return !a; }\n}\nconst g = (x) => x * 2;\nvar h = function* () { yield 1; };\nclass C { constructor() {} m(x) { return {}; } }\n";
    for grammar in [Grammar::JavaScript, Grammar::TypeScript, Grammar::Tsx] {
        check(grammar, "");
        check(grammar, source);
        check(grammar, "function broken( { return ; ");
    }
    check(Grammar::TypeScript, "export function f<T>(a: T[], b?: number): a is T[] { return (a as unknown) !== b; }\ninterface I { x: number }\n");
    check(Grammar::Tsx, "const A = (p: { n: number }) => <div className=\"a\">{p.n > 0 ? <b/> : null}</div>;\n");
}
