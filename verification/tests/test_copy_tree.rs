use mutator::copy_tree::should_skip;

#[test]
fn should_skip_filters_correctly() {
    assert!(should_skip(".git"));
    assert!(should_skip("node_modules"));
    assert!(should_skip("__pycache__"));
    assert!(should_skip("target"));
    assert!(should_skip("foo.mutator.bak"));
    assert!(should_skip("app.pyc"));
    assert!(!should_skip("app.py"));
    assert!(!should_skip("src"));
    assert!(!should_skip("Cargo.toml"));
}
