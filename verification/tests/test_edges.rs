use mutator::copy_tree::{entry_action, find_project_root, is_project_marker, project_markers, remap, remap_files, EntryAction};
use mutator::operators;
use mutator::runner::{self, ChangeKind, LineChange};
use mutator::Language;
use std::path::Path;

#[test]
fn return_expressions_are_trimmed_before_they_are_classified() {
    assert_eq!(operators::return_mutations("  None\t")[0].replacement, "return \"\"");
    assert_eq!(operators::return_mutations(" 0 ")[0].replacement, "return 1");
    assert_eq!(operators::return_mutations("\n1e3\n")[0].replacement, "return 0");
    assert_eq!(operators::return_mutations_of_trimmed(" 0")[0].replacement, "return None");
    assert_eq!(operators::return_mutations_of_trimmed("{'a': 1}")[0].replacement, "return {}");
    assert_eq!(operators::return_mutations_of_trimmed("f'x'")[0].replacement, "return \"\"");
    assert_eq!(operators::return_mutations_of_trimmed("inf")[0].replacement, "return 0");
    assert_eq!(operators::return_mutations_of_trimmed("x + 1")[0].operator_name, "return_val");
}

#[test]
fn rust_return_replacements() {
    assert_eq!(mutator::parser_rust::return_replacement_of("true"), Some("return false"));
    assert_eq!(mutator::parser_rust::return_replacement_of("false"), Some("return true"));
    assert_eq!(mutator::parser_rust::return_replacement_of("None"), None);
    assert_eq!(mutator::parser_rust::return_replacement_of("()"), None);
    assert_eq!(mutator::parser_rust::return_replacement_of("Ok(())"), None);
    assert_eq!(mutator::parser_rust::return_replacement_of("0"), Some("return 1"));
    assert_eq!(mutator::parser_rust::return_replacement_of("\"a\""), Some("return \"\".to_string()"));
    assert_eq!(mutator::parser_rust::return_replacement_of("vec![1]"), Some("return vec![]"));
    assert_eq!(mutator::parser_rust::return_replacement_of("Vec::new()"), Some("return vec![]"));
    assert_eq!(mutator::parser_rust::return_replacement_of("x + 1"), Some("return Default::default()"));
    assert_eq!(mutator::parser_rust::comparison_mutations("===").len(), 0);
    assert_eq!(mutator::parser_rust::logical_mutations("&&")[0].replacement, "||");
    assert_eq!(mutator::parser_rust::arithmetic_mutations("%")[0].replacement, "/");
    assert!(mutator::parser_rust::arithmetic_mutations("**").is_empty());
}

#[test]
fn script_return_replacements() {
    assert_eq!(mutator::parser_js::return_replacement_of("true"), "return false;");
    assert_eq!(mutator::parser_js::return_replacement_of("null"), "return \"\";");
    assert_eq!(mutator::parser_js::return_replacement_of("undefined"), "return \"\";");
    assert_eq!(mutator::parser_js::return_replacement_of("0"), "return 1;");
    assert_eq!(mutator::parser_js::return_replacement_of("`a`"), "return \"\";");
    assert_eq!(mutator::parser_js::return_replacement_of("[1]"), "return [];");
    assert_eq!(mutator::parser_js::return_replacement_of("{}"), "return null;");
    assert_eq!(mutator::parser_js::return_replacement_of("{a: 1}"), "return {};");
    assert_eq!(mutator::parser_js::return_replacement_of("2.5"), "return 0;");
    assert_eq!(mutator::parser_js::return_replacement_of("a + b"), "return null;");
    assert_eq!(mutator::parser_js::comparison_mutations("===")[0].replacement, "!==");
    assert_eq!(mutator::parser_js::logical_mutations("??")[0].replacement, "||");
    assert_eq!(mutator::parser_js::arithmetic_mutations("**")[0].replacement, "*");
}

#[test]
fn diff_report_is_rendered_line_by_line() {
    let changes = vec![
        LineChange { kind: ChangeKind::Equal, text: "same\n".to_string() },
        LineChange { kind: ChangeKind::Delete, text: "old\n".to_string() },
        LineChange { kind: ChangeKind::Insert, text: "new".to_string() },
        LineChange { kind: ChangeKind::Insert, text: "cr\r".to_string() },
    ];
    assert_eq!(runner::render_diff(&changes), "- old\n+ new\n+ cr\r");
    assert_eq!(runner::render_diff(&vec![]), "");
    assert_eq!(runner::generate_diff("a\nb", "a\nc"), "- b\n+ c\n");
}

#[test]
fn commands_are_split_into_program_and_arguments() {
    let words = |w: &[&str]| w.iter().map(|x| x.to_string()).collect::<Vec<String>>();
    assert_eq!(runner::command_from_words(" pytest ", &words(&["pytest"])), (" pytest ".to_string(), vec![]));
    assert_eq!(runner::command_from_words("", &words(&[])), ("".to_string(), vec![]));
    assert_eq!(runner::command_from_words("a  b c", &words(&["a", "b", "c"])), ("a".to_string(), words(&["b", "c"])));
    assert_eq!(runner::parse_test_cmd("  npx\tvitest \n run "), ("npx".to_string(), words(&["vitest", "run"])));
    assert_eq!(runner::parse_test_cmd(" pytest "), (" pytest ".to_string(), vec![]));
    assert!(runner::passes_test_file("pytest"));
    assert!(!runner::passes_test_file("cargo test"));
    assert!(!runner::passes_test_file("/usr/bin/cargo"));
}

#[test]
fn test_arguments_by_language() {
    assert_eq!(runner::baseline_arguments(Language::Python), vec!["-x", "-q", "--tb=short", "--no-header"]);
    assert_eq!(runner::mutation_arguments(Language::Python), vec!["-x", "-q", "--tb=no", "--no-header", "-p", "no:cacheprovider"]);
    assert_eq!(runner::baseline_arguments(Language::Rust), vec!["--", "--test-threads=1"]);
    assert_eq!(runner::mutation_arguments(Language::Rust), vec!["--", "--test-threads=1"]);
    for language in [Language::JavaScript, Language::TypeScript, Language::Tsx] {
        assert_eq!(runner::baseline_arguments(language), vec!["--bail"]);
        assert_eq!(runner::mutation_arguments(language), vec!["--bail"]);
    }
}

#[test]
fn commands_are_resolved() {
    let some = |s: &str| Some(s.to_string());
    assert_eq!(runner::resolve_cmd("/usr/bin/pytest", true, some("/a"), some("/b")), "/usr/bin/pytest");
    assert_eq!(runner::resolve_cmd("pytest", false, some("/a"), some("/b")), "pytest");
    assert_eq!(runner::resolve_cmd(".venv/bin/pytest", false, some("/cwd/.venv/bin/pytest"), some("/copy/.venv/bin/pytest")), "/cwd/.venv/bin/pytest");
    assert_eq!(runner::resolve_cmd(".venv/bin/pytest", false, None, some("/copy/.venv/bin/pytest")), "/copy/.venv/bin/pytest");
    assert_eq!(runner::resolve_cmd(".venv/bin/pytest", false, None, None), ".venv/bin/pytest");
    assert!(runner::names_a_path("a/b"));
    assert!(!runner::names_a_path("ab"));
    assert!(runner::is_cache_entry_of("app.cpython-311.pyc", "app"));
    assert!(!runner::is_cache_entry_of("other.cpython-311.pyc", "app"));
    assert!(!runner::is_cache_entry_of("app.py", "app"));
}

#[test]
fn project_root_is_the_nearest_marked_directory() {
    assert_eq!(find_project_root(&vec![false, false, true, true]), 2);
    assert_eq!(find_project_root(&vec![true, true]), 0);
    assert_eq!(find_project_root(&vec![false, false, false]), 0);
    assert_eq!(find_project_root(&vec![]), 0);
    assert_eq!(project_markers(), vec!["pyproject.toml", "setup.py", "setup.cfg", "package.json", "Cargo.toml", "go.mod", ".git"]);
    for marker in project_markers() {
        assert!(is_project_marker(marker));
    }
    assert!(!is_project_marker("Makefile"));
}

#[test]
fn entries_are_copied_skipped_or_entered() {
    assert_eq!(entry_action("src", true, false), EntryAction::Descend);
    assert_eq!(entry_action("app.py", false, true), EntryAction::Copy);
    assert_eq!(entry_action("link", false, false), EntryAction::Skip);
    assert_eq!(entry_action("node_modules", true, false), EntryAction::Skip);
    assert_eq!(entry_action("app.pyc", false, true), EntryAction::Skip);
    assert_eq!(entry_action(".app.py.mutator.bak", false, true), EntryAction::Skip);
    assert_eq!(entry_action(".mutator-state.json", false, true), EntryAction::Skip);
}

#[test]
fn files_are_remapped_into_the_copy() {
    let root = Path::new("/home/u/project");
    let dest = Path::new("/tmp/copy");
    assert_eq!(remap(root, Path::new("/home/u/project/src/app.py"), dest), Some(dest.join("src/app.py")));
    assert_eq!(remap(root, Path::new("/home/u/other/app.py"), dest), None);
    let placed = remap_files(root, Path::new("/home/u/project/src/app.py"), Path::new("/home/u/project/tests/test_app.py"), dest).unwrap();
    assert_eq!(placed.root, dest);
    assert_eq!(placed.source_file, Path::new("/tmp/copy/src/app.py"));
    assert_eq!(placed.test_file, Path::new("/tmp/copy/tests/test_app.py"));
    assert!(remap_files(root, Path::new("/elsewhere/app.py"), Path::new("/home/u/project/t.py"), dest).is_none());
    assert!(remap_files(root, Path::new("/home/u/project/app.py"), Path::new("/elsewhere/t.py"), dest).is_none());
}

#[test]
fn backup_names() {
    assert_eq!(mutator::safety::backup_file_name("foo.py"), ".foo.py.mutator.bak");
    assert_eq!(mutator::safety::backup_file_name(""), "..mutator.bak");
    assert_eq!(mutator::safety::backup_path(Path::new("/")), Path::new("/..mutator.bak"));
}

#[test]
fn languages_by_extension() {
    assert_eq!(mutator::detect_extension("py"), Some(Language::Python));
    assert_eq!(mutator::detect_extension("cts"), Some(Language::TypeScript));
    assert_eq!(mutator::detect_extension("PY"), None);
    assert_eq!(mutator::detect_extension(""), None);
    assert_eq!(mutator::detect_language(Path::new("/a.b/c.tar.rs")), Some(Language::Rust));
    assert_eq!(mutator::detect_language(Path::new("/a.py/c")), None);
    assert_eq!(mutator::detect_language(Path::new(".py")), None);
}

#[test]
fn baseline_outcomes() {
    match runner::baseline_result(true, 42, "out", "err") {
        runner::BaselineResult::Passed { duration_ms } => assert_eq!(duration_ms, 42),
        runner::BaselineResult::Failed(text) => panic!("failed: {}", text),
    }
    match runner::baseline_result(false, 42, "out", "err") {
        runner::BaselineResult::Failed(text) => assert_eq!(text, "out\nerr"),
        runner::BaselineResult::Passed { .. } => panic!("passed"),
    }
    match runner::baseline_not_run("pytest -x", "No such file") {
        runner::BaselineResult::Failed(text) => assert_eq!(text, "Failed to run pytest -x: No such file"),
        runner::BaselineResult::Passed { .. } => panic!("passed"),
    }
}

#[test]
fn time_budget_adds_the_overhead() {
    assert_eq!(runner::FIXED_OVERHEAD_MS, 2000);
    assert_eq!(runner::timeout_budget(0), 2000);
    assert_eq!(runner::timeout_budget(1500), 3500);
    assert_eq!(runner::timeout_budget(u64::MAX - 2000), u64::MAX);
    assert_eq!(runner::timeout_budget(u64::MAX - 1999), u64::MAX);
    assert_eq!(runner::timeout_budget(u64::MAX), u64::MAX);
}

#[test]
fn discovery_by_language() {
    use_language(Language::Python, "def f(a):\n    return a + 1\n", 2);
    use_language(Language::Rust, "fn f(a: i32) -> i32 { return a + 1; }", 2);
    use_language(Language::JavaScript, "function f(a) { return a + 1; }", 2);
    use_language(Language::TypeScript, "function f(a: number): number { return a + 1; }", 2);
    use_language(Language::Tsx, "function f(a: number) { return a + 1; }", 2);
}

fn use_language(language: Language, source: &str, expected: usize) {
    let grammar = mutator::discover::grammar_for(language);
    let found = mutator::discover::discover_in_source(grammar, source, Some("f"));
    assert_eq!(found.len(), expected, "{:?}", language);
    assert_eq!(mutator::discover::list_in_source(grammar, source), vec!["f".to_string()]);
}
